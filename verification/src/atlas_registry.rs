//! Name lookup over the packed atlases at run time: texture name and frame
//! number to the atlas image and the frame's cell in it.
//!
//! The registry is generic over the image handle type `H`; what the engine
//! makes of a frame (a sprite rectangle, a UV offset on a mesh) is up to the
//! caller.
use crate::atlas_manifest::{AtlasEntry, AtlasEntryView};
use crate::text::str_eq;
use vstd::prelude::*;

verus! {

/// The map a list of registrations stands for; a later registration of a
/// name replaces an earlier one.
pub open spec fn registry_map<H>(s: Seq<(String, (H, AtlasEntry))>) -> Map<
    Seq<char>,
    (H, AtlasEntryView),
>
    decreases s.len(),
{
    if s.len() == 0 {
        Map::empty()
    } else {
        registry_map(s.drop_last()).insert(s.last().0@, (s.last().1.0, s.last().1.1@))
    }
}

/// No name is registered twice.
pub open spec fn distinct_registered<H>(s: Seq<(String, (H, AtlasEntry))>) -> bool {
    forall|i: int, j: int| 0 <= i < j < s.len() ==> s[i].0@ != s[j].0@
}

proof fn lemma_registry_update<H>(s: Seq<(String, (H, AtlasEntry))>, i: int, p: (String, (H, AtlasEntry)))
    requires
        0 <= i < s.len(),
        distinct_registered(s),
        s[i].0@ == p.0@,
    ensures
        registry_map(s.update(i, p)) == registry_map(s).insert(p.0@, (p.1.0, p.1.1@)),
    decreases s.len(),
{
    let u = s.update(i, p);
    if i == s.len() - 1 {
        assert(u.drop_last() =~= s.drop_last());
        assert(registry_map(u) =~= registry_map(s).insert(p.0@, (p.1.0, p.1.1@)));
    } else {
        assert(u.drop_last() =~= s.drop_last().update(i, p));
        lemma_registry_update(s.drop_last(), i, p);
        assert(s.last().0@ != p.0@);
        assert(registry_map(u) =~= registry_map(s).insert(p.0@, (p.1.0, p.1.1@)));
    }
}

proof fn lemma_registry_keys<H>(s: Seq<(String, (H, AtlasEntry))>, k: Seq<char>)
    ensures
        registry_map(s).contains_key(k) <==> exists|i: int| 0 <= i < s.len() && s[i].0@ == k,
    decreases s.len(),
{
    if s.len() > 0 {
        lemma_registry_keys(s.drop_last(), k);
        if registry_map(s.drop_last()).contains_key(k) {
            let i = choose|i: int| 0 <= i < s.drop_last().len() && s.drop_last()[i].0@ == k;
            assert(s[i].0@ == k);
        }
        if exists|i: int| 0 <= i < s.len() && s[i].0@ == k {
            let i = choose|i: int| 0 <= i < s.len() && s[i].0@ == k;
            if i < s.len() - 1 {
                assert(s.drop_last()[i].0@ == k);
            }
        }
    }
}

proof fn lemma_registry_lookup<H>(s: Seq<(String, (H, AtlasEntry))>, i: int)
    requires
        0 <= i < s.len(),
        distinct_registered(s),
    ensures
        registry_map(s).contains_key(s[i].0@),
        registry_map(s)[s[i].0@] == (s[i].1.0, s[i].1.1@),
    decreases s.len(),
{
    if i < s.len() - 1 {
        lemma_registry_lookup(s.drop_last(), i);
        assert(s.drop_last()[i] == s[i]);
        assert(s.last().0@ != s[i].0@);
    }
}

/// One frame of an atlas: the image it lies in and its cell. Frames are
/// packed left to right in a single row.
pub struct GutzAtlasFrameCell<'a, H> {
    pub image: &'a H,
    /// The frame's number, counted from 0.
    pub index: u32,
    /// How many cells the row holds.
    pub columns: u32,
    pub tile_width: u32,
    pub tile_height: u32,
}

/// The pixel rectangle of cell `index`: left, top, right, bottom.
pub open spec fn cell_pixel_rect(index: u32, tile_width: u32, tile_height: u32) -> (nat, nat, nat, nat) {
    (
        (index * tile_width) as nat,
        0,
        ((index + 1) * tile_width) as nat,
        tile_height as nat,
    )
}

impl<'a, H> GutzAtlasFrameCell<'a, H> {
    /// The frame's rectangle in atlas pixels (top-left origin): left, top,
    /// right, bottom. The UV rectangle is the same cell over `columns`
    /// columns: from `index / columns` to `(index + 1) / columns` across,
    /// and the full height.
    pub fn pixel_rect(&self) -> (r: (u64, u64, u64, u64))
        ensures
            (r.0 as nat, r.1 as nat, r.2 as nat, r.3 as nat) == cell_pixel_rect(
                self.index,
                self.tile_width,
                self.tile_height,
            ),
    {
        let i = self.index as u64;
        let w = self.tile_width as u64;
        assert(i * w <= 0xffff_ffff * 0xffff_ffff) by (nonlinear_arith)
            requires
                i <= 0xffff_ffff,
                w <= 0xffff_ffff,
        ;
        assert((i + 1) * w <= 0x1_0000_0000 * 0xffff_ffff) by (nonlinear_arith)
            requires
                i <= 0xffff_ffff,
                w <= 0xffff_ffff,
        ;
        (i * w, 0, (i + 1) * w, self.tile_height as u64)
    }
}

/// Texture name to (atlas image, manifest entry).
pub struct GutzAtlasRegistry<H> {
    entries: Vec<(String, (H, AtlasEntry))>,
}

impl<H> View for GutzAtlasRegistry<H> {
    type V = Map<Seq<char>, (H, AtlasEntryView)>;

    closed spec fn view(&self) -> Map<Seq<char>, (H, AtlasEntryView)> {
        registry_map(self.entries@)
    }
}

impl<H> GutzAtlasRegistry<H> {
    /// Every name is registered once.
    pub closed spec fn wf(&self) -> bool {
        distinct_registered(self.entries@)
    }

    pub fn new() -> (r: Self)
        ensures
            r.wf(),
            r@ == Map::<Seq<char>, (H, AtlasEntryView)>::empty(),
    {
        GutzAtlasRegistry { entries: Vec::new() }
    }

    /// Registers `name` with its atlas image and manifest entry, replacing
    /// an earlier registration of the same name.
    pub fn insert(&mut self, name: String, image: H, entry: AtlasEntry)
        requires
            old(self).wf(),
        ensures
            final(self).wf(),
            final(self)@ == old(self)@.insert(name@, (image, entry@)),
    {
        let mut i: usize = 0;
        while i < self.entries.len()
            invariant
                self.wf(),
                self == old(self),
                i <= self.entries@.len(),
                forall|j: int| 0 <= j < i ==> self.entries@[j].0@ != name@,
            decreases self.entries@.len() - i,
        {
            if str_eq(self.entries[i].0.as_str(), name.as_str()) {
                let ghost before = self.entries@;
                let ghost pair = (name, (image, entry));
                self.entries.set(i, (name, (image, entry)));
                proof {
                    lemma_registry_update(before, i as int, pair);
                    assert(self.entries@ == before.update(i as int, pair));
                }
                return;
            }
            i = i + 1;
        }
        let ghost before = self.entries@;
        self.entries.push((name, (image, entry)));
        assert(self.entries@.drop_last() =~= before);
    }

    fn lookup(&self, name: &str) -> (r: Option<&(H, AtlasEntry)>)
        requires
            self.wf(),
        ensures
            match r {
                Some(e) => self@.contains_key(name@) && self@[name@] == (e.0, e.1@),
                None => !self@.contains_key(name@),
            },
    {
        let mut i: usize = 0;
        while i < self.entries.len()
            invariant
                self.wf(),
                i <= self.entries@.len(),
                forall|j: int| 0 <= j < i ==> self.entries@[j].0@ != name@,
            decreases self.entries@.len() - i,
        {
            if str_eq(self.entries[i].0.as_str(), name) {
                proof {
                    lemma_registry_lookup(self.entries@, i as int);
                }
                return Some(&self.entries[i].1);
            }
            i = i + 1;
        }
        proof {
            lemma_registry_keys(self.entries@, name@);
        }
        None
    }

    /// Frame `index` (from 0) of `name`. `None` when `name` is not
    /// registered or `index` is not below its frame count: a typo in the
    /// game is an `Option`, not a panic.
    pub fn frame(&self, name: &str, index: u32) -> (r: Option<GutzAtlasFrameCell<'_, H>>)
        requires
            self.wf(),
        ensures
            r is Some <==> (self@.contains_key(name@) && index < self@[name@].1.frame_count),
            r matches Some(cell) ==> {
                &&& *cell.image == self@[name@].0
                &&& cell.index == index
                &&& cell.columns == self@[name@].1.columns
                &&& cell.tile_width == self@[name@].1.tile_width
                &&& cell.tile_height == self@[name@].1.tile_height
            },
    {
        match self.lookup(name) {
            None => None,
            Some(pair) => {
                let entry = &pair.1;
                if index >= entry.frame_count {
                    None
                } else {
                    Some(
                        GutzAtlasFrameCell {
                            image: &pair.0,
                            index,
                            columns: entry.columns,
                            tile_width: entry.tile_width,
                            tile_height: entry.tile_height,
                        },
                    )
                }
            },
        }
    }

    /// How many frames `name` has; `None` when it is not registered.
    pub fn frame_count(&self, name: &str) -> (r: Option<u32>)
        requires
            self.wf(),
        ensures
            match r {
                Some(n) => self@.contains_key(name@) && n == self@[name@].1.frame_count,
                None => !self@.contains_key(name@),
            },
    {
        match self.lookup(name) {
            None => None,
            Some(pair) => Some(pair.1.frame_count),
        }
    }
}

/// The frame a looping animation shows next: one further, wrapping after the
/// last frame (a texture without frames counts as one).
pub fn next_animation_frame(frame: u32, frame_count: u32) -> (r: u32)
    requires
        frame < u32::MAX,
    ensures
        r == (frame + 1) % (if frame_count == 0 { 1 } else { frame_count as int }),
{
    let count = if frame_count == 0 { 1 } else { frame_count };
    (frame + 1) % count
}

/// A looping animation never leaves its texture's frames: the next frame is
/// always one the registry hands out.
pub proof fn law_animation_stays_in_range(frame: u32, frame_count: u32)
    requires
        frame < u32::MAX,
        frame_count > 0,
    ensures
        (frame + 1) % (frame_count as int) < frame_count,
{
}

} // verus!
