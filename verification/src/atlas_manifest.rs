//! The manifest that maps texture names to atlas images.
use vstd::prelude::*;
use crate::text::{
    chars_lt, lemma_chars_lt_irreflexive, lemma_chars_lt_total, lemma_chars_lt_transitive, str_eq,
    str_lt,
};

verus! {

/// Where a texture's atlas image is and how its frames are laid out.
pub struct AtlasEntry {
    /// Path of the atlas image relative to the manifest, `/`-separated.
    pub image: String,
    pub frame_count: u32,
    pub tile_width: u32,
    pub tile_height: u32,
    /// Frames are packed in one row, so this equals `frame_count`.
    pub columns: u32,
}

/// Mathematical view of an [`AtlasEntry`].
pub struct AtlasEntryView {
    pub image: Seq<char>,
    pub frame_count: u32,
    pub tile_width: u32,
    pub tile_height: u32,
    pub columns: u32,
}

impl View for AtlasEntry {
    type V = AtlasEntryView;

    open spec fn view(&self) -> AtlasEntryView {
        AtlasEntryView {
            image: self.image@,
            frame_count: self.frame_count,
            tile_width: self.tile_width,
            tile_height: self.tile_height,
            columns: self.columns,
        }
    }
}

impl AtlasEntry {
    pub fn clone_entry(&self) -> (r: AtlasEntry)
        ensures
            r@ == self@,
    {
        AtlasEntry {
            image: self.image.clone(),
            frame_count: self.frame_count,
            tile_width: self.tile_width,
            tile_height: self.tile_height,
            columns: self.columns,
        }
    }
}

/// The map that a list of named entries stands for; a later entry of a
/// name replaces an earlier one.
pub open spec fn entries_map(s: Seq<(String, AtlasEntry)>) -> Map<Seq<char>, AtlasEntryView>
    decreases s.len(),
{
    if s.len() == 0 {
        Map::empty()
    } else {
        entries_map(s.drop_last()).insert(s.last().0@, s.last().1@)
    }
}

/// No name occurs twice.
pub open spec fn distinct_names(s: Seq<(String, AtlasEntry)>) -> bool {
    forall|i: int, j: int| 0 <= i < j < s.len() ==> s[i].0@ != s[j].0@
}

/// The names come in the order std gives strings, as in a `BTreeMap`.
pub open spec fn sorted_names(s: Seq<(String, AtlasEntry)>) -> bool {
    forall|i: int, j: int| 0 <= i < j < s.len() ==> chars_lt(#[trigger] s[i].0@, #[trigger] s[j].0@)
}

proof fn lemma_sorted_names_distinct(s: Seq<(String, AtlasEntry)>)
    requires
        sorted_names(s),
    ensures
        distinct_names(s),
{
    assert forall|i: int, j: int| 0 <= i < j < s.len() implies s[i].0@ != s[j].0@ by {
        lemma_chars_lt_irreflexive(s[i].0@);
    }
}

proof fn lemma_sorted_names_insert(s: Seq<(String, AtlasEntry)>, i: int, p: (String, AtlasEntry))
    requires
        sorted_names(s),
        0 <= i <= s.len(),
        forall|j: int| 0 <= j < i ==> chars_lt(#[trigger] s[j].0@, p.0@),
        i < s.len() ==> chars_lt(p.0@, s[i].0@),
    ensures
        sorted_names(s.insert(i, p)),
{
    let u = s.insert(i, p);
    assert forall|a: int, b: int| 0 <= a < b < u.len() implies chars_lt(#[trigger] u[a].0@, #[trigger] u[b].0@) by {
        if b < i {
            assert(u[a] == s[a] && u[b] == s[b]);
        } else if b == i {
            assert(u[a] == s[a] && u[b] == p);
        } else if a < i {
            assert(u[a] == s[a] && u[b] == s[b - 1]);
        } else if a == i {
            assert(u[a] == p && u[b] == s[b - 1]);
            if b - 1 > i {
                lemma_chars_lt_transitive(p.0@, s[i].0@, s[b - 1].0@);
            }
        } else {
            assert(u[a] == s[a - 1] && u[b] == s[b - 1]);
        }
    }
}

proof fn lemma_entries_map_insert_at(s: Seq<(String, AtlasEntry)>, i: int, p: (String, AtlasEntry))
    requires
        0 <= i <= s.len(),
        forall|j: int| 0 <= j < s.len() ==> (#[trigger] s[j]).0@ != p.0@,
    ensures
        entries_map(s.insert(i, p)) == entries_map(s).insert(p.0@, p.1@),
    decreases s.len(),
{
    let u = s.insert(i, p);
    if i == s.len() {
        assert(u.drop_last() =~= s);
    } else {
        assert(u.drop_last() =~= s.drop_last().insert(i, p));
        assert(u.last() == s.last());
        lemma_entries_map_insert_at(s.drop_last(), i, p);
        assert(s.last().0@ != p.0@);
        assert(entries_map(u) =~= entries_map(s).insert(p.0@, p.1@));
    }
}

proof fn lemma_entries_map_update(s: Seq<(String, AtlasEntry)>, i: int, p: (String, AtlasEntry))
    requires
        0 <= i < s.len(),
        distinct_names(s),
        s[i].0@ == p.0@,
    ensures
        entries_map(s.update(i, p)) == entries_map(s).insert(p.0@, p.1@),
    decreases s.len(),
{
    let u = s.update(i, p);
    if i == s.len() - 1 {
        assert(u.drop_last() =~= s.drop_last());
        assert(entries_map(u) =~= entries_map(s).insert(p.0@, p.1@));
    } else {
        assert(u.drop_last() =~= s.drop_last().update(i, p));
        lemma_entries_map_update(s.drop_last(), i, p);
        assert(s.last().0@ != p.0@);
        assert(entries_map(u) =~= entries_map(s).insert(p.0@, p.1@));
    }
}

proof fn lemma_entries_map_keys(s: Seq<(String, AtlasEntry)>, k: Seq<char>)
    ensures
        entries_map(s).contains_key(k) <==> exists|i: int| 0 <= i < s.len() && s[i].0@ == k,
    decreases s.len(),
{
    if s.len() > 0 {
        lemma_entries_map_keys(s.drop_last(), k);
        if entries_map(s.drop_last()).contains_key(k) {
            let i = choose|i: int| 0 <= i < s.drop_last().len() && s.drop_last()[i].0@ == k;
            assert(s[i].0@ == k);
        }
        if exists|i: int| 0 <= i < s.len() && s[i].0@ == k {
            let i = choose|i: int| 0 <= i < s.len() && s[i].0@ == k;
            if i < s.len() - 1 {
                assert(s.drop_last()[i].0@ == k);
            }
        }
    }
}

/// The contents of `manifest.toml`: texture name to atlas entry.
pub struct AtlasManifest {
    pub textures: Vec<(String, AtlasEntry)>,
}

impl View for AtlasManifest {
    type V = Map<Seq<char>, AtlasEntryView>;

    open spec fn view(&self) -> Map<Seq<char>, AtlasEntryView> {
        entries_map(self.textures@)
    }
}

impl AtlasManifest {
    /// Every texture name is listed once, the names in ascending order.
    pub open spec fn wf(&self) -> bool {
        sorted_names(self.textures@)
    }

    pub open spec fn spec_textures(&self) -> Seq<(String, AtlasEntry)> {
        self.textures@
    }

    pub fn new() -> (r: AtlasManifest)
        ensures
            r.wf(),
            r@ == Map::<Seq<char>, AtlasEntryView>::empty(),
    {
        AtlasManifest { textures: Vec::new() }
    }

    /// The textures as (name, entry) pairs, each name once, by ascending
    /// name.
    pub fn textures(&self) -> (r: &Vec<(String, AtlasEntry)>)
        ensures
            r@ == self.spec_textures(),
    {
        &self.textures
    }

    /// Records `entry` under `name`, replacing what was recorded under it;
    /// a new name takes its place in the order of names.
    pub fn insert(&mut self, name: String, entry: AtlasEntry)
        requires
            old(self).wf(),
        ensures
            final(self).wf(),
            final(self)@ == old(self)@.insert(name@, entry@),
    {
        proof {
            lemma_sorted_names_distinct(self.textures@);
        }
        let mut i: usize = 0;
        while i < self.textures.len()
            invariant
                self.wf(),
                distinct_names(self.textures@),
                self == old(self),
                i <= self.textures@.len(),
                forall|j: int| 0 <= j < i ==> chars_lt(#[trigger] self.textures@[j].0@, name@),
            decreases self.textures@.len() - i,
        {
            if str_eq(self.textures[i].0.as_str(), name.as_str()) {
                let ghost before = self.textures@;
                let ghost pair = (name, entry);
                self.textures.set(i, (name, entry));
                proof {
                    lemma_entries_map_update(before, i as int, pair);
                    assert(self.textures@ == before.update(i as int, pair));
                    assert forall|a: int, b: int| 0 <= a < b < self.textures@.len() implies chars_lt(
                        #[trigger] self.textures@[a].0@,
                        #[trigger] self.textures@[b].0@,
                    ) by {
                        assert(before[a].0@ == self.textures@[a].0@);
                        assert(before[b].0@ == self.textures@[b].0@);
                    }
                }
                return;
            }
            if str_lt(name.as_str(), self.textures[i].0.as_str()) {
                let ghost before = self.textures@;
                let ghost pair = (name, entry);
                proof {
                    assert forall|j: int| 0 <= j < before.len() implies (#[trigger] before[j]).0@ != pair.0@ by {
                        if j < i {
                            lemma_chars_lt_irreflexive(name@);
                        } else if j > i {
                            lemma_chars_lt_transitive(name@, before[i as int].0@, before[j].0@);
                            lemma_chars_lt_irreflexive(name@);
                        } else {
                            lemma_chars_lt_irreflexive(name@);
                        }
                    }
                    lemma_sorted_names_insert(before, i as int, pair);
                    lemma_entries_map_insert_at(before, i as int, pair);
                }
                self.textures.insert(i, (name, entry));
                return;
            }
            proof {
                lemma_chars_lt_total(name@, self.textures@[i as int].0@);
            }
            i = i + 1;
        }
        let ghost before = self.textures@;
        let ghost pair = (name, entry);
        proof {
            assert forall|j: int| 0 <= j < before.len() implies (#[trigger] before[j]).0@ != pair.0@ by {
                lemma_chars_lt_irreflexive(name@);
            }
            lemma_sorted_names_insert(before, before.len() as int, pair);
            lemma_entries_map_insert_at(before, before.len() as int, pair);
            assert(before.insert(before.len() as int, pair) =~= before.push(pair));
        }
        self.textures.push((name, entry));
    }

    /// The entry recorded under `name`, if any.
    pub fn get(&self, name: &str) -> (r: Option<&AtlasEntry>)
        requires
            self.wf(),
        ensures
            match r {
                Some(e) => self@.contains_key(name@) && self@[name@] == e@,
                None => !self@.contains_key(name@),
            },
    {
        proof {
            lemma_sorted_names_distinct(self.textures@);
        }
        let mut i: usize = 0;
        while i < self.textures.len()
            invariant
                distinct_names(self.textures@),
                i <= self.textures@.len(),
                forall|j: int| 0 <= j < i ==> self.textures@[j].0@ != name@,
            decreases self.textures@.len() - i,
        {
            if str_eq(self.textures[i].0.as_str(), name) {
                proof {
                    lemma_entries_map_lookup(self.textures@, i as int);
                }
                return Some(&self.textures[i].1);
            }
            i = i + 1;
        }
        proof {
            lemma_entries_map_keys(self.textures@, name@);
        }
        None
    }
}

proof fn lemma_entries_map_lookup(s: Seq<(String, AtlasEntry)>, i: int)
    requires
        0 <= i < s.len(),
        distinct_names(s),
    ensures
        entries_map(s).contains_key(s[i].0@),
        entries_map(s)[s[i].0@] == s[i].1@,
    decreases s.len(),
{
    if i < s.len() - 1 {
        lemma_entries_map_lookup(s.drop_last(), i);
        assert(s.drop_last()[i] == s[i]);
        assert(s.last().0@ != s[i].0@);
    }
}

} // verus!
