//! Turning a bindings configuration into input bindings.
//!
//! The configuration lists, per action name, the names of the inputs bound
//! to it (`restart = ["MouseLeft", "GamepadSouth"]`). An action name the game
//! does not know, or an input name the library does not know, is skipped and
//! reported, so that a typo in the file never keeps the game from starting.
use crate::input_source::{GutzInputSource, input_source_spec};
use vstd::prelude::*;

verus! {

/// Why one part of the configuration was skipped.
pub enum GutzInputConfigSkip {
    /// The game resolved no action for this action name.
    UnknownAction { action: String },
    /// No input is known by this name; it was listed for `action`.
    UnknownSource { source: String, action: String },
}

/// A skip as text.
pub enum InputConfigSkipView {
    UnknownAction { action: Seq<char> },
    UnknownSource { source: Seq<char>, action: Seq<char> },
}

impl View for GutzInputConfigSkip {
    type V = InputConfigSkipView;

    open spec fn view(&self) -> InputConfigSkipView {
        match self {
            GutzInputConfigSkip::UnknownAction { action } => InputConfigSkipView::UnknownAction {
                action: action@,
            },
            GutzInputConfigSkip::UnknownSource { source, action } =>
                InputConfigSkipView::UnknownSource { source: source@, action: action@ },
        }
    }
}

/// One line of the configuration: the action the game resolved from the
/// action name (if any), the action name, and the input names listed for it.
pub type ConfigLine<A> = (Option<A>, Seq<char>, Seq<Seq<char>>);

/// The bindings one resolved action gets from its input names: one per
/// known name, in the listed order.
pub open spec fn source_bindings<A>(action: A, sources: Seq<Seq<char>>) -> Seq<(A, GutzInputSource)>
    decreases sources.len(),
{
    if sources.len() == 0 {
        Seq::empty()
    } else {
        let rest = source_bindings(action, sources.drop_last());
        match input_source_spec(sources.last()) {
            Some(s) => rest.push((action, s)),
            None => rest,
        }
    }
}

/// The unknown input names of one line, in the listed order.
pub open spec fn source_skips(action: Seq<char>, sources: Seq<Seq<char>>) -> Seq<InputConfigSkipView>
    decreases sources.len(),
{
    if sources.len() == 0 {
        Seq::empty()
    } else {
        let rest = source_skips(action, sources.drop_last());
        match input_source_spec(sources.last()) {
            Some(_) => rest,
            None => rest.push(InputConfigSkipView::UnknownSource { source: sources.last(), action }),
        }
    }
}

/// All bindings of a configuration, line by line.
pub open spec fn config_bindings<A>(lines: Seq<ConfigLine<A>>) -> Seq<(A, GutzInputSource)>
    decreases lines.len(),
{
    if lines.len() == 0 {
        Seq::empty()
    } else {
        let line = lines.last();
        config_bindings(lines.drop_last()) + match line.0 {
            Some(a) => source_bindings(a, line.2),
            None => Seq::empty(),
        }
    }
}

/// All skips of a configuration, line by line: an unresolved action name
/// skips its whole line (its input names are not looked at).
pub open spec fn config_skips<A>(lines: Seq<ConfigLine<A>>) -> Seq<InputConfigSkipView>
    decreases lines.len(),
{
    if lines.len() == 0 {
        Seq::empty()
    } else {
        let line = lines.last();
        config_skips(lines.drop_last()) + match line.0 {
            Some(_) => source_skips(line.1, line.2),
            None => seq![InputConfigSkipView::UnknownAction { action: line.1 }],
        }
    }
}

/// The configuration as its specification sees it.
pub open spec fn config_view<A>(lines: Seq<(Option<A>, String, Vec<String>)>) -> Seq<ConfigLine<A>> {
    lines.map_values(
        |l: (Option<A>, String, Vec<String>)| (l.0, l.1@, l.2@.map_values(|s: String| s@)),
    )
}

/// What a configuration binds and what it skips.
pub struct GutzInputBindingPlan<A> {
    /// (action, input) pairs to add to the input map.
    pub bindings: Vec<(A, GutzInputSource)>,
    /// What was skipped, each to be reported as a warning.
    pub skipped: Vec<GutzInputConfigSkip>,
}

/// Resolves every line of a configuration: `lines` holds, per action name,
/// the action the game resolved from it (if any), the name, and the input
/// names listed for it.
pub fn plan_bindings<A: Copy>(lines: &Vec<(Option<A>, String, Vec<String>)>) -> (r:
    GutzInputBindingPlan<A>)
    ensures
        r.bindings@ == config_bindings(config_view(lines@)),
        r.skipped@.map_values(|s: GutzInputConfigSkip| s@) == config_skips(config_view(lines@)),
{
    let ghost cfg = config_view(lines@);
    let mut bindings: Vec<(A, GutzInputSource)> = Vec::new();
    let mut skipped: Vec<GutzInputConfigSkip> = Vec::new();
    let mut i: usize = 0;
    while i < lines.len()
        invariant
            cfg == config_view(lines@),
            i <= lines@.len(),
            bindings@ == config_bindings(cfg.take(i as int)),
            skipped@.map_values(|s: GutzInputConfigSkip| s@) == config_skips(cfg.take(i as int)),
        decreases lines@.len() - i,
    {
        let line = &lines[i];
        let ghost before_b = bindings@;
        let ghost before_s = skipped@.map_values(|s: GutzInputConfigSkip| s@);
        let ghost srcs = line.2@.map_values(|s: String| s@);
        assert(cfg.take(i + 1).drop_last() =~= cfg.take(i as int));
        assert(cfg.take(i + 1).last() == cfg[i as int]);
        match line.0 {
            None => {
                skipped.push(GutzInputConfigSkip::UnknownAction { action: line.1.clone() });
                assert(skipped@.map_values(|s: GutzInputConfigSkip| s@) =~= before_s + seq![
                    InputConfigSkipView::UnknownAction { action: line.1@ },
                ]);
                assert(bindings@ =~= before_b + Seq::<(A, GutzInputSource)>::empty());
            },
            Some(action) => {
                let sources = &line.2;
                let mut j: usize = 0;
                while j < sources.len()
                    invariant
                        j <= sources@.len(),
                        srcs == sources@.map_values(|s: String| s@),
                        bindings@ == before_b + source_bindings(action, srcs.take(j as int)),
                        skipped@.map_values(|s: GutzInputConfigSkip| s@) == before_s
                            + source_skips(line.1@, srcs.take(j as int)),
                    decreases sources@.len() - j,
                {
                    let ghost sb = skipped@.map_values(|s: GutzInputConfigSkip| s@);
                    assert(srcs.take(j + 1).drop_last() =~= srcs.take(j as int));
                    assert(srcs.take(j + 1).last() == sources@[j as int]@);
                    match GutzInputSource::parse(sources[j].as_str()) {
                        Some(source) => {
                            bindings.push((action, source));
                            assert(bindings@ =~= before_b + source_bindings(
                                action,
                                srcs.take(j + 1),
                            ));
                            assert(skipped@.map_values(|s: GutzInputConfigSkip| s@) =~= before_s
                                + source_skips(line.1@, srcs.take(j + 1)));
                        },
                        None => {
                            skipped.push(
                                GutzInputConfigSkip::UnknownSource {
                                    source: sources[j].clone(),
                                    action: line.1.clone(),
                                },
                            );
                            assert(skipped@.map_values(|s: GutzInputConfigSkip| s@) =~= sb.push(
                                InputConfigSkipView::UnknownSource {
                                    source: sources@[j as int]@,
                                    action: line.1@,
                                },
                            ));
                            assert(skipped@.map_values(|s: GutzInputConfigSkip| s@) =~= before_s
                                + source_skips(line.1@, srcs.take(j + 1)));
                            assert(bindings@ =~= before_b + source_bindings(
                                action,
                                srcs.take(j + 1),
                            ));
                        },
                    }
                    j = j + 1;
                }
                assert(srcs.take(j as int) =~= srcs);
            },
        }
        i = i + 1;
    }
    assert(cfg.take(i as int) =~= cfg);
    GutzInputBindingPlan { bindings, skipped }
}

/// A single input name binds the action to the input it names, or to
/// nothing when the name is unknown.
pub proof fn law_one_name_binds_what_it_names<A>(action: A, name: Seq<char>)
    ensures
        source_bindings(action, seq![name]) == match input_source_spec(name) {
            Some(s) => seq![(action, s)],
            None => Seq::<(A, GutzInputSource)>::empty(),
        },
{
    assert(seq![name].drop_last() =~= Seq::<Seq<char>>::empty());
    assert(seq![name].last() == name);
    assert(source_bindings(action, Seq::<Seq<char>>::empty()) =~= Seq::<(A, GutzInputSource)>::empty());
    assert(source_bindings(action, seq![name].drop_last()) =~= Seq::<(A, GutzInputSource)>::empty());
    if let Some(s) = input_source_spec(name) {
        assert(Seq::<(A, GutzInputSource)>::empty().push((action, s)) =~= seq![(action, s)]);
    }
}

/// The names of a line are read each on its own: the bindings of a list of
/// names are those of its first part followed by those of the rest, so an
/// unknown name never keeps the names after it from being bound.
/// The same holds of the names reported as unknown.
pub proof fn law_names_bind_independently<A>(
    action: A,
    action_name: Seq<char>,
    xs: Seq<Seq<char>>,
    ys: Seq<Seq<char>>,
)
    ensures
        source_bindings(action, xs + ys) == source_bindings(action, xs) + source_bindings(action, ys),
        source_skips(action_name, xs + ys) == source_skips(action_name, xs) + source_skips(
            action_name,
            ys,
        ),
    decreases ys.len(),
{
    if ys.len() == 0 {
        assert(xs + ys =~= xs);
    } else {
        law_names_bind_independently(action, action_name, xs, ys.drop_last());
        assert((xs + ys).drop_last() =~= xs + ys.drop_last());
        assert((xs + ys).last() == ys.last());
    }
}

/// Every known input name listed for a resolved action is bound to it, and
/// every binding comes from a known name of the list.
pub proof fn law_every_known_name_is_bound<A>(action: A, sources: Seq<Seq<char>>)
    ensures
        forall|k: int|
            0 <= k < sources.len() && #[trigger] input_source_spec(sources[k]) is Some
                ==> source_bindings(action, sources).contains(
                (action, input_source_spec(sources[k])->Some_0),
            ),
        forall|b: (A, GutzInputSource)|
            #[trigger] source_bindings(action, sources).contains(b) ==> b.0 == action && exists|k: int|
                0 <= k < sources.len() && input_source_spec(sources[k]) == Some(b.1),
    decreases sources.len(),
{
    if sources.len() > 0 {
        let init = sources.drop_last();
        law_every_known_name_is_bound(action, init);
        let rest = source_bindings(action, init);
        assert forall|k: int|
            0 <= k < sources.len() && #[trigger] input_source_spec(sources[k]) is Some implies source_bindings(
            action,
            sources,
        ).contains((action, input_source_spec(sources[k])->Some_0)) by {
            let pair = (action, input_source_spec(sources[k])->Some_0);
            if k < sources.len() - 1 {
                assert(init[k] == sources[k]);
                assert(input_source_spec(init[k]) is Some);
                let j = choose|j: int| 0 <= j < rest.len() && rest[j] == pair;
                if input_source_spec(sources.last()) is Some {
                    assert(source_bindings(action, sources)[j] == pair);
                }
            } else {
                let all = source_bindings(action, sources);
                assert(all[all.len() - 1] == pair);
            }
        }
        assert forall|b: (A, GutzInputSource)|
            #[trigger] source_bindings(action, sources).contains(b) implies b.0 == action && exists|
                k: int,
            | 0 <= k < sources.len() && input_source_spec(sources[k]) == Some(b.1) by {
            let all = source_bindings(action, sources);
            let j = choose|j: int| 0 <= j < all.len() && all[j] == b;
            if j < rest.len() {
                assert(rest[j] == b);
                assert(rest.contains(b));
                let k = choose|k: int| 0 <= k < init.len() && input_source_spec(init[k]) == Some(b.1);
                assert(init[k] == sources[k]);
            } else {
                assert(input_source_spec(sources[sources.len() - 1]) == Some(b.1));
            }
        }
    }
}

} // verus!
