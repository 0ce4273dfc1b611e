//! The data behind the developer overlay: the debug-stat rows any system can
//! publish, the spawn registry, and the on/off flags the hotkeys flip.
//!
//! Drawing the overlay (egui), the frame-time diagnostics and the hotkeys
//! themselves live with the engine; what is decided here is which rows exist,
//! in which order, and what each one reads.
use crate::text::str_eq;
use vstd::prelude::*;

verus! {

/// A row of the overlay as text: label and value.
pub type StatRow = (Seq<char>, Seq<char>);

/// Whether `key` labels some row of `rows`.
pub open spec fn has_key(rows: Seq<StatRow>, key: Seq<char>) -> bool {
    exists|i: int| 0 <= i < rows.len() && rows[i].0 == key
}

/// The position of the row labelled `key` (meaningful when `has_key`).
pub open spec fn key_position(rows: Seq<StatRow>, key: Seq<char>) -> int {
    choose|i: int| 0 <= i < rows.len() && rows[i].0 == key
}

/// No two rows share a label.
pub open spec fn distinct_keys(rows: Seq<StatRow>) -> bool {
    forall|i: int, j: int| 0 <= i < j < rows.len() ==> rows[i].0 != rows[j].0
}

/// What the overlay shows for `key`, if anything.
pub open spec fn stat_value(rows: Seq<StatRow>, key: Seq<char>) -> Option<Seq<char>> {
    if has_key(rows, key) {
        Some(rows[key_position(rows, key)].1)
    } else {
        None
    }
}

/// Setting `key` to `value`: a known label keeps its place and takes the new
/// value; a new label is added after all the others.
pub open spec fn stats_set(rows: Seq<StatRow>, key: Seq<char>, value: Seq<char>) -> Seq<StatRow> {
    if has_key(rows, key) {
        rows.update(key_position(rows, key), (key, value))
    } else {
        rows.push((key, value))
    }
}

/// The labels in display order.
pub open spec fn stat_keys(rows: Seq<StatRow>) -> Seq<Seq<char>> {
    rows.map_values(|r: StatRow| r.0)
}

/// The generic channel through which any game adds rows to the overlay.
/// Rows are shown in the order their labels were first set.
pub struct GutzDebugStats {
    entries: Vec<(&'static str, String)>,
}

impl View for GutzDebugStats {
    type V = Seq<StatRow>;

    closed spec fn view(&self) -> Seq<StatRow> {
        self.entries@.map_values(|e: (&'static str, String)| (e.0@, e.1@))
    }
}

impl GutzDebugStats {
    /// Labels are unique.
    pub closed spec fn wf(&self) -> bool {
        distinct_keys(self@)
    }

    pub fn new() -> (r: Self)
        ensures
            r.wf(),
            r@ == Seq::<StatRow>::empty(),
    {
        let r = GutzDebugStats { entries: Vec::new() };
        assert(r@ =~= Seq::<StatRow>::empty());
        r
    }

    /// Sets the row labelled `key` to `value`.
    pub fn set(&mut self, key: &'static str, value: String)
        requires
            old(self).wf(),
        ensures
            final(self).wf(),
            final(self)@ == stats_set(old(self)@, key@, value@),
    {
        let ghost rows = self@;
        let mut i: usize = 0;
        while i < self.entries.len()
            invariant
                self@ == rows,
                rows == old(self)@,
                distinct_keys(rows),
                i <= self.entries@.len(),
                self@.len() == self.entries@.len(),
                forall|j: int| 0 <= j < i ==> rows[j].0 != key@,
            decreases self.entries@.len() - i,
        {
            assert(rows[i as int].0 == self.entries@[i as int].0@);
            if str_eq(self.entries[i].0, key) {
                let ghost v = value@;
                assert(has_key(rows, key@));
                assert(key_position(rows, key@) == i) by {
                    let k = key_position(rows, key@);
                    if k != i {
                        if k < i {
                        } else {
                            assert(rows[i as int].0 == rows[k].0);
                        }
                    }
                };
                let stored = self.entries[i].0;
                self.entries.set(i, (stored, value));
                assert(self@ =~= rows.update(i as int, (key@, v)));
                assert forall|a: int, b: int| 0 <= a < b < self@.len() implies self@[a].0
                    != self@[b].0 by {
                    assert(self@[a].0 == rows[a].0);
                    assert(self@[b].0 == rows[b].0);
                };
                return;
            }
            i = i + 1;
        }
        assert(!has_key(rows, key@));
        let ghost v = value@;
        self.entries.push((key, value));
        assert(self@ =~= rows.push((key@, v)));
    }

    /// The rows in display order, as label and value.
    pub fn iter(&self) -> (r: Vec<(&str, &str)>)
        ensures
            r@.map_values(|e: (&str, &str)| (e.0@, e.1@)) == self@,
    {
        let mut r: Vec<(&str, &str)> = Vec::new();
        let mut i: usize = 0;
        while i < self.entries.len()
            invariant
                i <= self.entries@.len(),
                self@.len() == self.entries@.len(),
                r@.len() == i,
                forall|j: int|
                    0 <= j < i ==> (#[trigger] r@[j]).0@ == self@[j].0 && r@[j].1@ == self@[j].1,
            decreases self.entries@.len() - i,
        {
            let label: &str = self.entries[i].0;
            let value: &str = self.entries[i].1.as_str();
            r.push((label, value));
            i = i + 1;
        }
        assert(r@.map_values(|e: (&str, &str)| (e.0@, e.1@)) =~= self@);
        r
    }
}

/// After `set(key, value)`, the overlay shows `value` for `key`.
pub proof fn law_set_then_read(rows: Seq<StatRow>, key: Seq<char>, value: Seq<char>)
    requires
        distinct_keys(rows),
    ensures
        stat_value(stats_set(rows, key, value), key) == Some(value),
{
    let s = stats_set(rows, key, value);
    if has_key(rows, key) {
        let p = key_position(rows, key);
        assert(s[p].0 == key);
        let q = key_position(s, key);
        assert(has_key(s, key));
        if q != p {
            assert(s[q].0 == rows[q].0);
            assert(rows[q].0 == key);
            if q < p {
                assert(rows[q].0 != rows[p].0);
            } else {
                assert(rows[p].0 != rows[q].0);
            }
        }
    } else {
        let p = rows.len() as int;
        assert(s[p].0 == key);
        assert(has_key(s, key));
        let q = key_position(s, key);
        if q != p {
            assert(s[q] == rows[q]);
        }
    }
}

/// Setting one label leaves what every other label shows unchanged.
pub proof fn law_set_leaves_others(
    rows: Seq<StatRow>,
    key: Seq<char>,
    value: Seq<char>,
    other: Seq<char>,
)
    requires
        distinct_keys(rows),
        other != key,
    ensures
        stat_value(stats_set(rows, key, value), other) == stat_value(rows, other),
{
    let s = stats_set(rows, key, value);
    assert forall|i: int| 0 <= i < s.len() && s[i].0 == other implies i < rows.len() && s[i]
        == rows[i] by {
        if has_key(rows, key) {
        } else {
            if i == rows.len() {
                assert(s[i].0 == key);
            }
        }
    };
    if has_key(rows, other) {
        let p = key_position(rows, other);
        assert(s[p] == rows[p]) by {
            if has_key(rows, key) {
                assert(p != key_position(rows, key));
            }
        };
        assert(has_key(s, other));
        let q = key_position(s, other);
        if q != p {
            assert(rows[q].0 == other);
            if q < p {
                assert(rows[q].0 != rows[p].0);
            } else {
                assert(rows[p].0 != rows[q].0);
            }
        }
    } else {
        if has_key(s, other) {
            let q = key_position(s, other);
            assert(rows[q].0 == other);
        }
    }
}

/// Labels keep the order in which they were first set: setting a known label
/// changes no position, and a new label goes last.
pub proof fn law_first_set_order(rows: Seq<StatRow>, key: Seq<char>, value: Seq<char>)
    requires
        distinct_keys(rows),
    ensures
        distinct_keys(stats_set(rows, key, value)),
        stat_keys(stats_set(rows, key, value)) == if has_key(rows, key) {
            stat_keys(rows)
        } else {
            stat_keys(rows).push(key)
        },
{
    let s = stats_set(rows, key, value);
    if has_key(rows, key) {
        let p = key_position(rows, key);
        assert(stat_keys(s) =~= stat_keys(rows));
        assert forall|i: int, j: int| 0 <= i < j < s.len() implies s[i].0 != s[j].0 by {
            assert(s[i].0 == rows[i].0);
            assert(s[j].0 == rows[j].0);
        };
    } else {
        assert(stat_keys(s) =~= stat_keys(rows).push(key));
        assert forall|i: int, j: int| 0 <= i < j < s.len() implies s[i].0 != s[j].0 by {
            if j == rows.len() {
                assert(s[i].0 == rows[i].0);
            }
        };
    }
}

/// The rows after setting each (label, value) of `sets` in order.
pub open spec fn stats_after(rows: Seq<StatRow>, sets: Seq<StatRow>) -> Seq<StatRow>
    decreases sets.len(),
{
    if sets.len() == 0 {
        rows
    } else {
        let before = stats_after(rows, sets.drop_last());
        stats_set(before, sets.last().0, sets.last().1)
    }
}

/// The labels of `sets`, each once, in the order of their first setting.
pub open spec fn first_set_order(sets: Seq<StatRow>) -> Seq<Seq<char>>
    decreases sets.len(),
{
    if sets.len() == 0 {
        Seq::empty()
    } else {
        let before = first_set_order(sets.drop_last());
        if before.contains(sets.last().0) {
            before
        } else {
            before.push(sets.last().0)
        }
    }
}

/// The value last set for `key` in `sets`, if it was set at all.
pub open spec fn last_set_value(sets: Seq<StatRow>, key: Seq<char>) -> Option<Seq<char>>
    decreases sets.len(),
{
    if sets.len() == 0 {
        None
    } else if sets.last().0 == key {
        Some(sets.last().1)
    } else {
        last_set_value(sets.drop_last(), key)
    }
}

proof fn lemma_has_key_keys(rows: Seq<StatRow>, key: Seq<char>)
    ensures
        has_key(rows, key) <==> stat_keys(rows).contains(key),
{
    if has_key(rows, key) {
        let i = choose|i: int| 0 <= i < rows.len() && rows[i].0 == key;
        assert(stat_keys(rows)[i] == key);
    }
    if stat_keys(rows).contains(key) {
        let i = choose|i: int| 0 <= i < stat_keys(rows).len() && stat_keys(rows)[i] == key;
        assert(rows[i].0 == key);
    }
}

/// From no rows, any sequence of `set` calls shows each label once, in the
/// order it was first set, with the value it was last set to.
pub proof fn law_set_sequence(sets: Seq<StatRow>)
    ensures
        distinct_keys(stats_after(Seq::empty(), sets)),
        stat_keys(stats_after(Seq::empty(), sets)) == first_set_order(sets),
        forall|key: Seq<char>|
            #[trigger] stat_value(stats_after(Seq::empty(), sets), key) == last_set_value(sets, key),
    decreases sets.len(),
{
    let empty = Seq::<StatRow>::empty();
    if sets.len() == 0 {
        assert(stat_keys(empty) =~= Seq::<Seq<char>>::empty());
        assert forall|key: Seq<char>| #[trigger] stat_value(empty, key) == last_set_value(sets, key) by {
            assert(!has_key(empty, key));
        }
    } else {
        law_set_sequence(sets.drop_last());
        let before = stats_after(empty, sets.drop_last());
        let (k, v) = (sets.last().0, sets.last().1);
        law_first_set_order(before, k, v);
        law_set_then_read(before, k, v);
        lemma_has_key_keys(before, k);
        assert forall|key: Seq<char>|
            #[trigger] stat_value(stats_after(empty, sets), key) == last_set_value(sets, key) by {
            if key != k {
                law_set_leaves_others(before, k, v, key);
            }
        }
    }
}

/// The "spawn an entity on the spot" registry: games register named spawners,
/// the overlay lists the names and runs the chosen one.
pub struct GutzSpawnRegistry<F> {
    entries: Vec<(String, F)>,
}

impl<F> GutzSpawnRegistry<F> {
    /// The registered names, in registration order.
    pub closed spec fn spec_names(&self) -> Seq<Seq<char>> {
        self.entries@.map_values(|e: (String, F)| e.0@)
    }

    /// The registered spawners, in registration order.
    pub closed spec fn spec_spawners(&self) -> Seq<F> {
        self.entries@.map_values(|e: (String, F)| e.1)
    }

    pub fn new() -> (r: Self)
        ensures
            r.spec_names() == Seq::<Seq<char>>::empty(),
            r.spec_spawners() == Seq::<F>::empty(),
    {
        let r = GutzSpawnRegistry { entries: Vec::new() };
        assert(r.spec_names() =~= Seq::<Seq<char>>::empty());
        assert(r.spec_spawners() =~= Seq::<F>::empty());
        r
    }

    /// Adds a spawner under `name`, after those already registered.
    pub fn register(&mut self, name: String, spawn: F)
        ensures
            final(self).spec_names() == old(self).spec_names().push(name@),
            final(self).spec_spawners() == old(self).spec_spawners().push(spawn),
    {
        let ghost n = name@;
        let ghost s = spawn;
        self.entries.push((name, spawn));
        assert(self.spec_names() =~= old(self).spec_names().push(n));
        assert(self.spec_spawners() =~= old(self).spec_spawners().push(s));
    }

    pub fn is_empty(&self) -> (r: bool)
        ensures
            r == (self.spec_names().len() == 0),
    {
        self.entries.len() == 0
    }

    /// The registered names, in registration order.
    pub fn names(&self) -> (r: Vec<&str>)
        ensures
            r@.map_values(|s: &str| s@) == self.spec_names(),
    {
        let mut r: Vec<&str> = Vec::new();
        let mut i: usize = 0;
        while i < self.entries.len()
            invariant
                i <= self.entries@.len(),
                r@.len() == i,
                forall|j: int| 0 <= j < i ==> (#[trigger] r@[j])@ == self.entries@[j].0@,
            decreases self.entries@.len() - i,
        {
            r.push(self.entries[i].0.as_str());
            i = i + 1;
        }
        assert(r@.map_values(|s: &str| s@) =~= self.spec_names());
        r
    }

    /// The name at `index`, if there is one.
    pub fn name_at(&self, index: usize) -> (r: Option<&str>)
        ensures
            match r {
                Some(s) => index < self.spec_names().len() && s@ == self.spec_names()[index as int],
                None => index >= self.spec_names().len(),
            },
    {
        if index < self.entries.len() {
            Some(self.entries[index].0.as_str())
        } else {
            None
        }
    }

    /// The spawner at `index`, if there is one; the caller runs it.
    pub fn spawner_at(&self, index: usize) -> (r: Option<&F>)
        ensures
            match r {
                Some(f) => index < self.spec_spawners().len() && *f == self.spec_spawners()[index as int],
                None => index >= self.spec_spawners().len(),
            },
    {
        if index < self.entries.len() {
            Some(&self.entries[index].1)
        } else {
            None
        }
    }
}

/// The names and spawners after registering each of `regs` in order.
pub open spec fn registered_after<F>(
    names: Seq<Seq<char>>,
    spawners: Seq<F>,
    regs: Seq<(Seq<char>, F)>,
) -> (Seq<Seq<char>>, Seq<F>)
    decreases regs.len(),
{
    if regs.len() == 0 {
        (names, spawners)
    } else {
        let before = registered_after(names, spawners, regs.drop_last());
        (before.0.push(regs.last().0), before.1.push(regs.last().1))
    }
}

/// From an empty registry, registering `(n_0, f_0), ..., (n_k-1, f_k-1)`
/// lists exactly those names in that order, entry `i` pairs `n_i` with
/// `f_i`, and the registry is empty exactly when nothing was registered.
pub proof fn law_registration_sequence<F>(regs: Seq<(Seq<char>, F)>)
    ensures
        ({
            let (names, spawners) = registered_after(Seq::empty(), Seq::empty(), regs);
            &&& names.len() == regs.len() && spawners.len() == regs.len()
            &&& forall|i: int|
                0 <= i < regs.len() ==> #[trigger] names[i] == regs[i].0 && spawners[i]
                    == regs[i].1
            &&& (names.len() == 0 <==> regs.len() == 0)
        }),
    decreases regs.len(),
{
    if regs.len() > 0 {
        law_registration_sequence(regs.drop_last());
        let (names, spawners) = registered_after(Seq::empty(), Seq::empty(), regs);
        assert forall|i: int| 0 <= i < regs.len() implies #[trigger] names[i] == regs[i].0
            && spawners[i] == regs[i].1 by {
            if i < regs.len() - 1 {
                assert(regs.drop_last()[i] == regs[i]);
            }
        }
    }
}

/// The overlay's own visibility.
#[derive(Clone, Copy, PartialEq, Eq, Debug, Default, Structural)]
pub struct GutzDevtoolsVisible(pub bool);

/// Invincibility flag: damage handling reads it and ignores hits while set.
#[derive(Clone, Copy, PartialEq, Eq, Debug, Default, Structural)]
pub struct GutzGodMode(pub bool);

/// Whether the world inspector window is shown.
#[derive(Clone, Copy, PartialEq, Eq, Debug, Default, Structural)]
pub struct GutzInspectorVisible(pub bool);

/// Hooks the overlay sends for what only the game knows how to do.
#[derive(Clone, Copy, PartialEq, Eq, Debug, Structural)]
pub enum GutzDevtoolsEvent {
    SkipLevel,
    ReloadScene,
}

/// A hotkey flips its flag on the frame it is pressed and leaves it alone
/// otherwise.
pub fn toggle_if_pressed(flag: &mut bool, just_pressed: bool)
    ensures
        *final(flag) == (if just_pressed { !*old(flag) } else { *old(flag) }),
{
    if just_pressed {
        *flag = !*flag;
    }
}

/// What the spawn picker shows for the selected entry: its name, or `-` when
/// nothing valid is selected.
pub fn selected_spawn_label<'a, F>(registry: &'a GutzSpawnRegistry<F>, selected: usize) -> (r: &'a str)
    ensures
        selected < registry.spec_names().len() ==> r@ == registry.spec_names()[selected as int],
        selected >= registry.spec_names().len() ==> r@ == "-"@,
{
    match registry.name_at(selected) {
        Some(name) => name,
        None => "-",
    }
}

} // verus!
