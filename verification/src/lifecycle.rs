//! Execution contexts of a game session and the decisions made on them.
//!
//! A game's own states are sorted into two contexts: `InGame` (gameplay is
//! running) and `OutGame` (title, menus, results). The library never decides
//! which state belongs where; the game tells it.
use crate::devtools::{GutzDebugStats, stats_set};
use vstd::prelude::*;

verus! {

/// The two broad contexts every game state falls into.
#[derive(Clone, Copy, PartialEq, Eq, Debug, Hash, Structural)]
pub enum GutzExecutionContext {
    /// Gameplay is running.
    InGame,
    /// Title screen, menus, results: gameplay is not running.
    OutGame,
}

/// Sent only when the execution context actually changes.
#[derive(Clone, Copy, PartialEq, Eq, Debug, Structural)]
pub struct GutzExecutionContextChanged {
    pub previous: Option<GutzExecutionContext>,
    pub current: GutzExecutionContext,
}

/// Implemented by a game's own state type to say which context each of its
/// states belongs to. The library never decides that itself.
pub trait GutzLifecycleState {
    /// The context of this state, as a specification.
    spec fn spec_context(&self) -> GutzExecutionContext;

    fn execution_context(&self) -> (r: GutzExecutionContext)
        ensures
            r == self.spec_context(),
    ;
}

/// Run condition: there is a current state and it belongs to `context`.
pub fn in_context<S: GutzLifecycleState>(state: Option<&S>, context: GutzExecutionContext) -> (r:
    bool)
    ensures
        r == (state is Some && state->Some_0.spec_context() == context),
{
    match state {
        Some(s) => s.execution_context() == context,
        None => false,
    }
}

/// Run condition: gameplay is running.
pub fn in_game<S: GutzLifecycleState>(state: Option<&S>) -> (r: bool)
    ensures
        r == (state is Some && state->Some_0.spec_context() == GutzExecutionContext::InGame),
{
    in_context(state, GutzExecutionContext::InGame)
}

/// Run condition: gameplay is not running (title, menus, results).
pub fn out_game<S: GutzLifecycleState>(state: Option<&S>) -> (r: bool)
    ensures
        r == (state is Some && state->Some_0.spec_context() == GutzExecutionContext::OutGame),
{
    in_context(state, GutzExecutionContext::OutGame)
}

/// The run condition behind `in_context`, on a context already looked up:
/// the current state (if any) belongs to `context`.
pub fn context_matches(
    current: Option<GutzExecutionContext>,
    context: GutzExecutionContext,
) -> (r: bool)
    ensures
        r == (current == Some(context)),
{
    match current {
        Some(c) => c == context,
        None => false,
    }
}

/// The last execution context seen, so that only real context changes are
/// reported.
pub struct GutzContextTracker {
    pub previous: Option<GutzExecutionContext>,
}

/// What observing one state transition does: the context tracked afterwards
/// and the change to report, if the context changed.
pub open spec fn observe_spec(
    previous: Option<GutzExecutionContext>,
    entered: Option<GutzExecutionContext>,
) -> (Option<GutzExecutionContext>, Option<GutzExecutionContextChanged>) {
    match entered {
        None => (previous, None),
        Some(current) => if previous == Some(current) {
            (previous, None)
        } else {
            (Some(current), Some(GutzExecutionContextChanged { previous, current }))
        },
    }
}

impl Default for GutzContextTracker {
    fn default() -> (r: Self)
        ensures
            r.previous is None,
    {
        GutzContextTracker { previous: None }
    }
}

impl GutzContextTracker {
    /// Observes one state transition whose entered state (if any) belongs to
    /// `entered`. When the context changed, the caller exits the previous
    /// context (if any), enters the new one and reports the returned change;
    /// a transition inside the same context reports nothing.
    pub fn observe(&mut self, entered: Option<GutzExecutionContext>) -> (r: Option<
        GutzExecutionContextChanged,
    >)
        ensures
            (final(self).previous, r) == observe_spec(old(self).previous, entered),
    {
        match entered {
            None => None,
            Some(current) => {
                let unchanged = match self.previous {
                    Some(p) => p == current,
                    None => false,
                };
                if unchanged {
                    None
                } else {
                    let change = GutzExecutionContextChanged { previous: self.previous, current };
                    self.previous = Some(current);
                    Some(change)
                }
            },
        }
    }
}

/// Observing a batch of transitions in order: the context tracked at the end
/// and the changes reported, oldest first.
pub open spec fn observe_all_spec(
    previous: Option<GutzExecutionContext>,
    entered: Seq<Option<GutzExecutionContext>>,
) -> (Option<GutzExecutionContext>, Seq<GutzExecutionContextChanged>)
    decreases entered.len(),
{
    if entered.len() == 0 {
        (previous, Seq::empty())
    } else {
        let before = observe_all_spec(previous, entered.drop_last());
        let step = observe_spec(before.0, entered.last());
        (
            step.0,
            match step.1 {
                Some(c) => before.1.push(c),
                None => before.1,
            },
        )
    }
}

impl GutzContextTracker {
    /// Observes the transitions of one frame in order and returns the
    /// changes to act on: for each, exit `previous` (if any), enter
    /// `current`, and report it.
    pub fn observe_all(&mut self, entered: &Vec<Option<GutzExecutionContext>>) -> (r: Vec<
        GutzExecutionContextChanged,
    >)
        ensures
            (final(self).previous, r@) == observe_all_spec(old(self).previous, entered@),
    {
        let mut r: Vec<GutzExecutionContextChanged> = Vec::new();
        let mut i: usize = 0;
        while i < entered.len()
            invariant
                i <= entered@.len(),
                (self.previous, r@) == observe_all_spec(old(self).previous, entered@.take(i as int)),
            decreases entered@.len() - i,
        {
            assert(entered@.take(i + 1).drop_last() =~= entered@.take(i as int));
            if let Some(change) = self.observe(entered[i]) {
                r.push(change);
            }
            i = i + 1;
        }
        assert(entered@.take(i as int) =~= entered@);
        r
    }
}

/// Within one batch of transitions, every reported change starts from the
/// context the one before it entered (the first from the context tracked
/// beforehand), and no change stays in the same context.
pub proof fn law_batch_changes_chain(
    previous: Option<GutzExecutionContext>,
    entered: Seq<Option<GutzExecutionContext>>,
)
    ensures
        ({
            let (last, changes) = observe_all_spec(previous, entered);
            &&& forall|i: int|
                0 <= i < changes.len() ==> #[trigger] changes[i].previous != Some(
                    changes[i].current,
                )
            &&& forall|i: int|
                0 < i < changes.len() ==> #[trigger] changes[i].previous == Some(
                    changes[i - 1].current,
                )
            &&& changes.len() > 0 ==> changes[0].previous == previous
            &&& changes.len() > 0 ==> last == Some(changes.last().current)
            &&& changes.len() == 0 ==> last == previous
        }),
    decreases entered.len(),
{
    if entered.len() > 0 {
        law_batch_changes_chain(previous, entered.drop_last());
    }
}

proof fn lemma_observe_all_concat(
    previous: Option<GutzExecutionContext>,
    a: Seq<Option<GutzExecutionContext>>,
    b: Seq<Option<GutzExecutionContext>>,
)
    ensures
        ({
            let first = observe_all_spec(previous, a);
            let second = observe_all_spec(first.0, b);
            observe_all_spec(previous, a + b) == (second.0, first.1 + second.1)
        }),
    decreases b.len(),
{
    let first = observe_all_spec(previous, a);
    if b.len() == 0 {
        assert(a + b =~= a);
        assert(first.1 + Seq::<GutzExecutionContextChanged>::empty() =~= first.1);
    } else {
        lemma_observe_all_concat(previous, a, b.drop_last());
        assert((a + b).drop_last() =~= a + b.drop_last());
        assert((a + b).last() == b.last());
        let mid = observe_all_spec(first.0, b.drop_last());
        let step = observe_spec(mid.0, b.last());
        match step.1 {
            Some(c) => {
                assert(first.1 + mid.1.push(c) =~= (first.1 + mid.1).push(c));
            },
            None => {},
        }
    }
}

/// Observing the transitions of frame after frame, the tracker carried
/// from one frame to the next: the context tracked at the end and every
/// change reported, oldest first.
pub open spec fn observe_frames(
    previous: Option<GutzExecutionContext>,
    frames: Seq<Seq<Option<GutzExecutionContext>>>,
) -> (Option<GutzExecutionContext>, Seq<GutzExecutionContextChanged>)
    decreases frames.len(),
{
    if frames.len() == 0 {
        (previous, Seq::empty())
    } else {
        let before = observe_frames(previous, frames.drop_last());
        let step = observe_all_spec(before.0, frames.last());
        (step.0, before.1 + step.1)
    }
}

/// Over any number of frames, the changes reported chain as they do within
/// one frame: none stays in its context, the first starts from the context
/// tracked at the start (none, for a fresh tracker), each later one starts
/// where the one before it ended, and the tracker ends in the last one's
/// context. Splitting the transitions into frames changes nothing.
pub proof fn law_changes_chain_across_frames(
    previous: Option<GutzExecutionContext>,
    frames: Seq<Seq<Option<GutzExecutionContext>>>,
)
    ensures
        observe_frames(previous, frames) == observe_all_spec(previous, frames.flatten()),
        ({
            let (last, changes) = observe_frames(previous, frames);
            &&& forall|i: int|
                0 <= i < changes.len() ==> #[trigger] changes[i].previous != Some(
                    changes[i].current,
                )
            &&& forall|i: int|
                0 < i < changes.len() ==> #[trigger] changes[i].previous == Some(
                    changes[i - 1].current,
                )
            &&& changes.len() > 0 ==> changes[0].previous == previous
            &&& changes.len() > 0 ==> last == Some(changes.last().current)
            &&& changes.len() == 0 ==> last == previous
        }),
    decreases frames.len(),
{
    if frames.len() == 0 {
        assert(frames.flatten() =~= Seq::<Option<GutzExecutionContext>>::empty());
    } else {
        law_changes_chain_across_frames(previous, frames.drop_last());
        frames.drop_last().lemma_flatten_push(frames.last());
        assert(frames.drop_last().push(frames.last()) =~= frames);
        lemma_observe_all_concat(previous, frames.drop_last().flatten(), frames.last());
    }
    law_batch_changes_chain(previous, frames.flatten());
}

/// Observing a context right after a change into that same context reports
/// nothing more: each change is reported once.
pub proof fn law_change_reported_once(
    previous: Option<GutzExecutionContext>,
    entered: GutzExecutionContext,
)
    ensures
        ({
            let first = observe_spec(previous, Some(entered));
            let second = observe_spec(first.0, Some(entered));
            &&& first.0 == Some(entered)
            &&& second.1 is None
            &&& second.0 == first.0
        }),
{
}

/// Consecutive reported changes chain: each change starts from the context
/// the previous report entered.
pub proof fn law_changes_chain(
    previous: Option<GutzExecutionContext>,
    first: Option<GutzExecutionContext>,
    second: Option<GutzExecutionContext>,
)
    ensures
        ({
            let a = observe_spec(previous, first);
            let b = observe_spec(a.0, second);
            (a.1 is Some && b.1 is Some) ==> b.1->Some_0.previous == Some(a.1->Some_0.current)
                && a.1->Some_0.current != b.1->Some_0.current
        }),
{
}

/// The game-wide pause flag. What toggles it is the game's choice; the
/// virtual clock follows it (see [`time_command`]).
#[derive(Clone, Copy, PartialEq, Eq, Debug, Structural)]
pub struct GutzPaused(pub bool);

impl Default for GutzPaused {
    fn default() -> (r: Self)
        ensures
            r == GutzPaused(false),
    {
        GutzPaused(false)
    }
}

/// Run condition: the game is paused.
pub fn paused(flag: &GutzPaused) -> (r: bool)
    ensures
        r == flag.0,
{
    flag.0
}

/// Run condition: the game is not paused.
pub fn not_paused(flag: &GutzPaused) -> (r: bool)
    ensures
        r == !flag.0,
{
    !flag.0
}

/// What the virtual clock should do about the pause flag.
#[derive(Clone, Copy, PartialEq, Eq, Debug, Structural)]
pub enum TimeCommand {
    /// The flag did not change: leave the clock alone.
    Keep,
    Pause,
    Unpause,
}

/// The clock follows the pause flag, acting only when the flag changed.
pub fn time_command(flag_changed: bool, paused: bool) -> (r: TimeCommand)
    ensures
        !flag_changed ==> r == TimeCommand::Keep,
        flag_changed && paused ==> r == TimeCommand::Pause,
        flag_changed && !paused ==> r == TimeCommand::Unpause,
{
    if !flag_changed {
        TimeCommand::Keep
    } else if paused {
        TimeCommand::Pause
    } else {
        TimeCommand::Unpause
    }
}

/// The label the state debugger shows for a context.
pub fn context_label(context: GutzExecutionContext) -> (r: &'static str)
    ensures
        context == GutzExecutionContext::InGame ==> r@ == "InGame"@,
        context == GutzExecutionContext::OutGame ==> r@ == "OutGame"@,
{
    match context {
        GutzExecutionContext::InGame => "InGame",
        GutzExecutionContext::OutGame => "OutGame",
    }
}

/// The overlay word for a context.
pub open spec fn context_label_spec(context: GutzExecutionContext) -> Seq<char> {
    match context {
        GutzExecutionContext::InGame => "InGame"@,
        GutzExecutionContext::OutGame => "OutGame"@,
    }
}

/// How a flag reads on the overlay, as `bool`'s `Display` writes it.
pub open spec fn flag_text(b: bool) -> Seq<char> {
    if b {
        "true"@
    } else {
        "false"@
    }
}

/// The state debugger's rows after one frame: with a current state, its
/// name (`State`) and context (`Context`); always the pause flag (`Paused`).
pub open spec fn lifecycle_stats_spec(
    rows: Seq<(Seq<char>, Seq<char>)>,
    state: Option<(Seq<char>, GutzExecutionContext)>,
    paused: bool,
) -> Seq<(Seq<char>, Seq<char>)> {
    let with_state = match state {
        Some((name, context)) => stats_set(
            stats_set(rows, "State"@, name),
            "Context"@,
            context_label_spec(context),
        ),
        None => rows,
    };
    stats_set(with_state, "Paused"@, flag_text(paused))
}

/// Publishes the current state (its debug name and context), if there is
/// one, and the pause flag on the developer overlay.
pub fn record_lifecycle_stats(
    stats: &mut GutzDebugStats,
    state: Option<(String, GutzExecutionContext)>,
    paused: bool,
)
    requires
        old(stats).wf(),
    ensures
        final(stats).wf(),
        final(stats)@ == lifecycle_stats_spec(
            old(stats)@,
            match state {
                Some((name, context)) => Some((name@, context)),
                None => None,
            },
            paused,
        ),
{
    match state {
        Some((name, context)) => {
            stats.set("State", name);
            stats.set("Context", context_label(context).to_owned());
        },
        None => {},
    }
    let flag = if paused {
        "true"
    } else {
        "false"
    };
    stats.set("Paused", flag.to_owned());
}

} // verus!
