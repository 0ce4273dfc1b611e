//! Turning validated texture groups into atlas images and a manifest.
use crate::atlas_build::{
    collect_groups, collect_groups_spec, lemma_collected_groups_declare_frames, BuildError, FrameFile, GroupView, GutzAtlasBuildError,
    SourceDir, TextureGroup,
};
use crate::atlas_image::{compose_atlas, is_strip_of, RgbaFrame};
use crate::atlas_manifest::{AtlasEntry, AtlasEntryView, AtlasManifest};
use crate::text::{join, join_strings};
use vstd::prelude::*;

verus! {

// ---------------------------------------------------------------------------
// Duplicate frame numbers
// ---------------------------------------------------------------------------

/// The texture name: the segments joined with `/`.
pub open spec fn texture_name(segments: Seq<Seq<char>>) -> Seq<char> {
    join(segments, "/"@)
}

/// Position of the first file numbered `index`.
pub open spec fn position_of(files: Seq<FrameFile>, index: u32) -> Option<int>
    decreases files.len(),
{
    if files.len() == 0 {
        None
    } else {
        match position_of(files.drop_last(), index) {
            Some(i) => Some(i),
            None => if files.last().index == index {
                Some(files.len() - 1)
            } else {
                None
            },
        }
    }
}

/// The first file (in listing order) whose number an earlier file already
/// has: (position of that earlier file, position of this one).
pub open spec fn first_duplicate(files: Seq<FrameFile>) -> Option<(int, int)>
    decreases files.len(),
{
    if files.len() == 0 {
        None
    } else {
        match first_duplicate(files.drop_last()) {
            Some(p) => Some(p),
            None => match position_of(files.drop_last(), files.last().index) {
                Some(i) => Some((i, files.len() - 1)),
                None => None,
            },
        }
    }
}

proof fn lemma_position_of_none(files: Seq<FrameFile>, index: u32)
    requires
        forall|j: int| 0 <= j < files.len() ==> files[j].index != index,
    ensures
        position_of(files, index) is None,
    decreases files.len(),
{
    if files.len() > 0 {
        lemma_position_of_none(files.drop_last(), index);
    }
}

proof fn lemma_position_of_found(files: Seq<FrameFile>, index: u32, i: int)
    requires
        0 <= i < files.len(),
        files[i].index == index,
        forall|j: int| 0 <= j < i ==> files[j].index != index,
    ensures
        position_of(files, index) == Some(i),
    decreases files.len(),
{
    if i == files.len() - 1 {
        lemma_position_of_none(files.drop_last(), index);
    } else {
        lemma_position_of_found(files.drop_last(), index, i);
    }
}

proof fn lemma_first_duplicate_prefix(files: Seq<FrameFile>, m: int)
    requires
        0 <= m <= files.len(),
        first_duplicate(files.take(m)) is Some,
    ensures
        first_duplicate(files) == first_duplicate(files.take(m)),
    decreases files.len(),
{
    if m == files.len() {
        assert(files.take(m) =~= files);
    } else {
        assert(files.drop_last().take(m) =~= files.take(m));
        lemma_first_duplicate_prefix(files.drop_last(), m);
    }
}

/// Fails on the first file whose number an earlier file already has.
pub fn index_files(texture_name: &String, files: &Vec<FrameFile>) -> (r: Result<(), GutzAtlasBuildError>)
    ensures
        match first_duplicate(files@) {
            Some((i, j)) => r matches Err(x) && x@ == (BuildError::DuplicateIndex {
                texture_name: texture_name@,
                index: files@[j].index,
                first: files@[i].path@,
                second: files@[j].path@,
            }),
            None => r is Ok,
        },
{
    let n = files.len();
    let mut j: usize = 0;
    while j < n
        invariant
            n == files@.len(),
            j <= n,
            first_duplicate(files@.take(j as int)) is None,
        decreases n - j,
    {
        let mut i: usize = 0;
        while i < j
            invariant
                n == files@.len(),
                j < n,
                i <= j,
                first_duplicate(files@.take(j as int)) is None,
                forall|k: int| 0 <= k < i ==> files@[k].index != files@[j as int].index,
            decreases j - i,
        {
            if files[i].index == files[j].index {
                proof {
                    let prefix = files@.take(j as int);
                    lemma_position_of_found(prefix, files@[j as int].index, i as int);
                    assert(files@.take(j + 1).drop_last() =~= prefix);
                    lemma_first_duplicate_prefix(files@, j + 1);
                }
                return Err(
                    GutzAtlasBuildError::DuplicateIndex {
                        texture_name: texture_name.clone(),
                        index: files[j].index,
                        first: files[i].path.clone(),
                        second: files[j].path.clone(),
                    },
                );
            }
            i = i + 1;
        }
        proof {
            lemma_position_of_none(files@.take(j as int), files@[j as int].index);
            assert(files@.take(j + 1).drop_last() =~= files@.take(j as int));
        }
        j = j + 1;
    }
    assert(files@.take(n as int) =~= files@);
    Ok(())
}

// ---------------------------------------------------------------------------
// The set of frame numbers
// ---------------------------------------------------------------------------

pub open spec fn indices_of(files: Seq<FrameFile>) -> Seq<u32> {
    files.map_values(|f: FrameFile| f.index)
}

/// `{1, ..., max}`.
pub open spec fn expected_indices(max: u32) -> Set<u32> {
    Set::new(|v: u32| 1 <= v && v <= max)
}

/// The frame numbers found are exactly `1..=max`.
pub open spec fn index_set_matches(found: Seq<u32>, max: u32) -> bool {
    found.to_set() == expected_indices(max)
}

/// The numbers in `1..=k` that `found` lacks, ascending.
pub open spec fn missing_upto(found: Seq<u32>, k: nat) -> Seq<u32>
    decreases k,
{
    if k == 0 {
        Seq::empty()
    } else {
        let before = missing_upto(found, (k - 1) as nat);
        if found.contains(k as u32) {
            before
        } else {
            before.push(k as u32)
        }
    }
}

/// The numbers of `found` outside `1..=max`, in the order found.
pub open spec fn beyond(found: Seq<u32>, max: u32) -> Seq<u32>
    decreases found.len(),
{
    if found.len() == 0 {
        Seq::empty()
    } else {
        let before = beyond(found.drop_last(), max);
        let v = found.last();
        if 1 <= v && v <= max {
            before
        } else {
            before.push(v)
        }
    }
}

/// `x` inserted before the first element of `s` that is not smaller.
pub open spec fn insert_sorted(s: Seq<u32>, x: u32) -> Seq<u32>
    decreases s.len(),
{
    if s.len() == 0 {
        seq![x]
    } else if x <= s[0] {
        seq![x] + s
    } else {
        seq![s[0]] + insert_sorted(s.drop_first(), x)
    }
}

/// `s` in ascending order (insertion sort).
pub open spec fn sort_u32(s: Seq<u32>) -> Seq<u32>
    decreases s.len(),
{
    if s.len() == 0 {
        Seq::empty()
    } else {
        insert_sorted(sort_u32(s.drop_last()), s.last())
    }
}

proof fn lemma_insert_sorted_at(s: Seq<u32>, x: u32, p: int)
    requires
        0 <= p <= s.len(),
        forall|q: int| 0 <= q < p ==> s[q] < x,
        p == s.len() || x <= s[p],
    ensures
        insert_sorted(s, x) == s.take(p) + seq![x] + s.skip(p),
    decreases p,
{
    if p == 0 {
        assert(s.take(0) + seq![x] + s.skip(0) =~= seq![x] + s);
        if s.len() == 0 {
            assert(seq![x] + s =~= seq![x]);
        }
    } else {
        lemma_insert_sorted_at(s.drop_first(), x, p - 1);
        assert(seq![s[0]] + (s.drop_first().take(p - 1) + seq![x] + s.drop_first().skip(p - 1))
            =~= s.take(p) + seq![x] + s.skip(p));
    }
}

proof fn lemma_insert_sorted_len(s: Seq<u32>, x: u32)
    ensures
        insert_sorted(s, x).len() == s.len() + 1,
    decreases s.len(),
{
    if s.len() > 0 && !(x <= s[0]) {
        lemma_insert_sorted_len(s.drop_first(), x);
    }
}

proof fn lemma_sort_len(s: Seq<u32>)
    ensures
        sort_u32(s).len() == s.len(),
    decreases s.len(),
{
    if s.len() > 0 {
        lemma_sort_len(s.drop_last());
        lemma_insert_sorted_len(sort_u32(s.drop_last()), s.last());
    }
}

proof fn lemma_missing_empty(found: Seq<u32>, k: nat)
    requires
        k <= u32::MAX,
    ensures
        missing_upto(found, k).len() == 0 <==> forall|v: u32|
            1 <= v <= k ==> #[trigger] found.contains(v),
    decreases k,
{
    if k > 0 {
        lemma_missing_empty(found, (k - 1) as nat);
        if missing_upto(found, k).len() == 0 {
            assert forall|v: u32| 1 <= v <= k implies #[trigger] found.contains(v) by {
                if v < k {
                    assert(missing_upto(found, (k - 1) as nat).len() == 0);
                }
            }
        }
        if forall|v: u32| 1 <= v <= k ==> #[trigger] found.contains(v) {
            assert(found.contains(k as u32));
        }
    }
}

proof fn lemma_beyond_empty(found: Seq<u32>, max: u32)
    ensures
        beyond(found, max).len() == 0 <==> forall|i: int|
            0 <= i < found.len() ==> 1 <= #[trigger] found[i] && found[i] <= max,
    decreases found.len(),
{
    if found.len() > 0 {
        lemma_beyond_empty(found.drop_last(), max);
        if beyond(found, max).len() == 0 {
            assert forall|i: int| 0 <= i < found.len() implies 1 <= #[trigger] found[i]
                && found[i] <= max by {
                if i < found.len() - 1 {
                    assert(found.drop_last()[i] == found[i]);
                }
            }
        }
        if forall|i: int| 0 <= i < found.len() ==> 1 <= #[trigger] found[i] && found[i] <= max {
            assert forall|i: int| 0 <= i < found.drop_last().len() implies 1
                <= #[trigger] found.drop_last()[i] && found.drop_last()[i] <= max by {
                assert(found.drop_last()[i] == found[i]);
            }
            assert(1 <= found[found.len() - 1]);
        }
    }
}

/// The set of frame numbers matches `1..=max` exactly when nothing is
/// missing and nothing lies beyond.
pub proof fn lemma_index_set_matches(found: Seq<u32>, max: u32)
    ensures
        index_set_matches(found, max) <==> (missing_upto(found, max as nat).len() == 0 && beyond(
            found,
            max,
        ).len() == 0),
{
    lemma_missing_empty(found, max as nat);
    lemma_beyond_empty(found, max);
    if index_set_matches(found, max) {
        assert forall|v: u32| 1 <= v <= max implies #[trigger] found.contains(v) by {
            assert(expected_indices(max).contains(v));
            assert(found.to_set().contains(v));
        }
        assert forall|i: int| 0 <= i < found.len() implies 1 <= #[trigger] found[i] && found[i]
            <= max by {
            assert(found.to_set().contains(found[i]));
        }
    }
    if missing_upto(found, max as nat).len() == 0 && beyond(found, max).len() == 0 {
        assert forall|v: u32| found.to_set().contains(v) <==> expected_indices(max).contains(v) by {
            if found.to_set().contains(v) {
                let i = choose|i: int| 0 <= i < found.len() && found[i] == v;
                assert(1 <= found[i] && found[i] <= max);
            }
        }
        assert(found.to_set() =~= expected_indices(max));
    }
}

fn contains_u32(v: &Vec<u32>, x: u32) -> (r: bool)
    ensures
        r == v@.contains(x),
{
    let mut i: usize = 0;
    while i < v.len()
        invariant
            i <= v@.len(),
            forall|j: int| 0 <= j < i ==> v@[j] != x,
        decreases v@.len() - i,
    {
        if v[i] == x {
            return true;
        }
        i = i + 1;
    }
    false
}

fn insert_ascending(v: &mut Vec<u32>, x: u32)
    ensures
        final(v)@ == insert_sorted(old(v)@, x),
{
    let mut p: usize = 0;
    while p < v.len() && v[p] < x
        invariant
            p <= v@.len(),
            v@ == old(v)@,
            forall|q: int| 0 <= q < p ==> v@[q] < x,
        decreases v@.len() - p,
    {
        p = p + 1;
    }
    proof {
        lemma_insert_sorted_at(v@, x, p as int);
    }
    let ghost before = v@;
    v.insert(p, x);
    assert(v@ =~= before.take(p as int) + seq![x] + before.skip(p as int));
}

/// Fails unless the frame numbers are exactly `1..=declared_max`, reporting
/// what is missing and what lies beyond.
pub fn check_index_set(texture_name: &String, declared_max: u32, files: &Vec<FrameFile>) -> (r: Result<
    (),
    GutzAtlasBuildError,
>)
    ensures
        index_set_matches(indices_of(files@), declared_max) ==> r is Ok,
        !index_set_matches(indices_of(files@), declared_max) ==> (r matches Err(x) && x@ == (
        BuildError::IndexSetMismatch {
            texture_name: texture_name@,
            declared_max,
            missing: missing_upto(indices_of(files@), declared_max as nat),
            extra: sort_u32(beyond(indices_of(files@), declared_max)),
        })),
{
    let mut found: Vec<u32> = Vec::new();
    let mut i: usize = 0;
    while i < files.len()
        invariant
            i <= files@.len(),
            found@ == indices_of(files@).take(i as int),
        decreases files@.len() - i,
    {
        found.push(files[i].index);
        assert(found@ =~= indices_of(files@).take(i + 1));
        i = i + 1;
    }
    assert(found@ =~= indices_of(files@));
    let mut missing: Vec<u32> = Vec::new();
    let mut k: u64 = 1;
    while k <= declared_max as u64
        invariant
            1 <= k <= declared_max as u64 + 1,
            missing@ == missing_upto(found@, (k - 1) as nat),
        decreases declared_max as u64 + 1 - k,
    {
        if !contains_u32(&found, k as u32) {
            missing.push(k as u32);
        }
        k = k + 1;
    }
    let mut extra: Vec<u32> = Vec::new();
    let mut j: usize = 0;
    while j < found.len()
        invariant
            j <= found@.len(),
            extra@ == sort_u32(beyond(found@.take(j as int), declared_max)),
        decreases found@.len() - j,
    {
        let v = found[j];
        proof {
            assert(found@.take(j + 1).drop_last() =~= found@.take(j as int));
            assert(found@.take(j + 1).last() == v);
        }
        if !(1 <= v && v <= declared_max) {
            insert_ascending(&mut extra, v);
            proof {
                let b = beyond(found@.take(j as int), declared_max);
                assert(b.push(v).drop_last() =~= b);
            }
        }
        j = j + 1;
    }
    assert(found@.take(found@.len() as int) =~= found@);
    proof {
        lemma_index_set_matches(found@, declared_max);
        lemma_sort_len(beyond(found@, declared_max));
    }
    if missing.len() == 0 && extra.len() == 0 {
        Ok(())
    } else {
        Err(
            GutzAtlasBuildError::IndexSetMismatch {
                texture_name: texture_name.clone(),
                declared_max,
                missing,
                extra,
            },
        )
    }
}

// ---------------------------------------------------------------------------
// Loading frames in number order
// ---------------------------------------------------------------------------

/// `f` inserted before the first file whose number is not smaller.
pub open spec fn insert_by_index(s: Seq<FrameFile>, f: FrameFile) -> Seq<FrameFile>
    decreases s.len(),
{
    if s.len() == 0 {
        seq![f]
    } else if f.index <= s[0].index {
        seq![f] + s
    } else {
        seq![s[0]] + insert_by_index(s.drop_first(), f)
    }
}

/// The files in ascending number order.
pub open spec fn order_by_index(s: Seq<FrameFile>) -> Seq<FrameFile>
    decreases s.len(),
{
    if s.len() == 0 {
        Seq::empty()
    } else {
        insert_by_index(order_by_index(s.drop_last()), s.last())
    }
}

proof fn lemma_insert_by_index_at(s: Seq<FrameFile>, f: FrameFile, p: int)
    requires
        0 <= p <= s.len(),
        forall|q: int| 0 <= q < p ==> s[q].index < f.index,
        p == s.len() || f.index <= s[p].index,
    ensures
        insert_by_index(s, f) == s.take(p) + seq![f] + s.skip(p),
    decreases p,
{
    if p == 0 {
        assert(s.take(0) + seq![f] + s.skip(0) =~= seq![f] + s);
        if s.len() == 0 {
            assert(seq![f] + s =~= seq![f]);
        }
    } else {
        lemma_insert_by_index_at(s.drop_first(), f, p - 1);
        assert(seq![s[0]] + (s.drop_first().take(p - 1) + seq![f] + s.drop_first().skip(p - 1))
            =~= s.take(p) + seq![f] + s.skip(p));
    }
}

proof fn lemma_insert_by_index_members(s: Seq<FrameFile>, f: FrameFile)
    ensures
        insert_by_index(s, f).len() == s.len() + 1,
        forall|k: int|
            0 <= k < s.len() + 1 ==> #[trigger] insert_by_index(s, f)[k] == f || s.contains(
                insert_by_index(s, f)[k],
            ),
    decreases s.len(),
{
    let r = insert_by_index(s, f);
    if s.len() == 0 {
    } else if f.index <= s[0].index {
        assert forall|k: int| 0 <= k < s.len() + 1 implies #[trigger] r[k] == f || s.contains(
            r[k],
        ) by {
            if k > 0 {
                assert(r[k] == s[k - 1]);
            }
        }
    } else {
        lemma_insert_by_index_members(s.drop_first(), f);
        assert forall|k: int| 0 <= k < s.len() + 1 implies #[trigger] r[k] == f || s.contains(
            r[k],
        ) by {
            if k == 0 {
                assert(r[0] == s[0]);
            } else {
                let t = insert_by_index(s.drop_first(), f);
                assert(r[k] == t[k - 1]);
                if t[k - 1] != f {
                    let q = choose|q: int| 0 <= q < s.drop_first().len() && s.drop_first()[q] == t[k
                        - 1];
                    assert(s[q + 1] == t[k - 1]);
                }
            }
        }
    }
}

/// Ordering files by number keeps exactly as many files, each one of the
/// originals.
pub proof fn lemma_order_members(s: Seq<FrameFile>)
    ensures
        order_by_index(s).len() == s.len(),
        forall|k: int| 0 <= k < s.len() ==> s.contains(#[trigger] order_by_index(s)[k]),
    decreases s.len(),
{
    if s.len() > 0 {
        let before = order_by_index(s.drop_last());
        lemma_order_members(s.drop_last());
        lemma_insert_by_index_members(before, s.last());
        assert forall|k: int| 0 <= k < s.len() implies s.contains(#[trigger] order_by_index(s)[k]) by {
            let x = order_by_index(s)[k];
            if x == s.last() {
                assert(s[s.len() - 1] == x);
            } else {
                assert(before.contains(x));
                let q = choose|q: int| 0 <= q < before.len() && before[q] == x;
                assert(s.drop_last().contains(x));
                let r = choose|r: int| 0 <= r < s.drop_last().len() && s.drop_last()[r] == x;
                assert(s[r] == x);
            }
        }
    }
}

fn order_files(files: Vec<FrameFile>) -> (r: Vec<FrameFile>)
    ensures
        r@ == order_by_index(files@),
{
    let ghost all = files@;
    let total = files.len();
    assert(all.len() == total);
    let mut rest = files;
    let mut out: Vec<FrameFile> = Vec::new();
    let mut i: usize = 0;
    while rest.len() > 0
        invariant
            all == files@,
            i <= all.len(),
            all.len() <= usize::MAX,
            all.len() == i + rest.len(),
            rest@ == all.skip(i as int),
            out@ == order_by_index(all.take(i as int)),
        decreases rest.len(),
    {
        let f = rest.remove(0);
        assert(all.take(i + 1).drop_last() =~= all.take(i as int));
        assert(all.take(i + 1).last() == all[i as int]);
        let mut p: usize = 0;
        while p < out.len() && out[p].index < f.index
            invariant
                p <= out@.len(),
                forall|q: int| 0 <= q < p ==> out@[q].index < f.index,
            decreases out@.len() - p,
        {
            p = p + 1;
        }
        proof {
            lemma_insert_by_index_at(out@, f, p as int);
        }
        let ghost before = out@;
        out.insert(p, f);
        assert(out@ =~= before.take(p as int) + seq![f] + before.skip(p as int));
        i = i + 1;
        assert(rest@ =~= all.skip(i as int));
    }
    assert(all.take(i as int) =~= all);
    out
}

/// The decoded frames in order, or the first frame that failed to decode or
/// whose size differs from the first frame's.
pub open spec fn load_spec(ordered: Seq<FrameFile>, texture_name: Seq<char>) -> Result<
    Seq<RgbaFrame>,
    BuildError,
>
    decreases ordered.len(),
{
    if ordered.len() == 0 {
        Ok(Seq::empty())
    } else {
        match load_spec(ordered.drop_last(), texture_name) {
            Err(e) => Err(e),
            Ok(frames) => {
                let f = ordered.last();
                match f.image {
                    Err(source) => Err(BuildError::OpenImage { path: f.path@, source }),
                    Ok(img) => if frames.len() > 0 && (img.width != frames[0].width || img.height
                        != frames[0].height) {
                        Err(
                            BuildError::FrameSizeMismatch {
                                texture_name,
                                first_width: frames[0].width,
                                first_height: frames[0].height,
                                path: f.path@,
                                width: img.width,
                                height: img.height,
                            },
                        )
                    } else {
                        Ok(frames.push(img))
                    },
                }
            },
        }
    }
}

proof fn lemma_load_prefix(s: Seq<FrameFile>, name: Seq<char>, m: int)
    requires
        0 <= m <= s.len(),
        load_spec(s.take(m), name) is Err,
    ensures
        load_spec(s, name) == load_spec(s.take(m), name),
    decreases s.len(),
{
    if m == s.len() {
        assert(s.take(m) =~= s);
    } else {
        assert(s.drop_last().take(m) =~= s.take(m));
        lemma_load_prefix(s.drop_last(), name, m);
    }
}

/// Loaded frames come one per file, each the file's decoded image, all of
/// the first frame's size.
pub proof fn lemma_load_ok(s: Seq<FrameFile>, name: Seq<char>)
    requires
        load_spec(s, name) is Ok,
    ensures
        ({
            let frames = load_spec(s, name)->Ok_0;
            &&& frames.len() == s.len()
            &&& forall|k: int|
                0 <= k < s.len() ==> (#[trigger] s[k]).image == Ok::<
                    RgbaFrame,
                    image::ImageError,
                >(frames[k]) && frames[k].width == frames[0].width && frames[k].height
                    == frames[0].height
        }),
    decreases s.len(),
{
    if s.len() > 0 {
        lemma_load_ok(s.drop_last(), name);
        let frames = load_spec(s, name)->Ok_0;
        let before = load_spec(s.drop_last(), name)->Ok_0;
        assert forall|k: int| 0 <= k < s.len() implies (#[trigger] s[k]).image == Ok::<
            RgbaFrame,
            image::ImageError,
        >(frames[k]) && frames[k].width == frames[0].width && frames[k].height
            == frames[0].height by {
            if k < s.len() - 1 {
                assert(s.drop_last()[k] == s[k]);
                assert(frames[k] == before[k]);
                assert(frames[0] == before[0]);
            }
        }
    }
}

fn load_frames(texture_name: &String, ordered: Vec<FrameFile>) -> (r: Result<
    Vec<RgbaFrame>,
    GutzAtlasBuildError,
>)
    ensures
        match load_spec(ordered@, texture_name@) {
            Ok(frames) => r matches Ok(v) && v@ == frames,
            Err(e) => r matches Err(x) && x@ == e,
        },
{
    let ghost all = ordered@;
    let total = ordered.len();
    assert(all.len() == total);
    let mut rest = ordered;
    let mut frames: Vec<RgbaFrame> = Vec::new();
    let mut i: usize = 0;
    while rest.len() > 0
        invariant
            all == ordered@,
            i <= all.len(),
            all.len() <= usize::MAX,
            all.len() == i + rest.len(),
            rest@ == all.skip(i as int),
            load_spec(all.take(i as int), texture_name@) == Ok::<Seq<RgbaFrame>, BuildError>(
                frames@,
            ),
        decreases rest.len(),
    {
        let f = rest.remove(0);
        assert(all.take(i + 1).drop_last() =~= all.take(i as int));
        assert(all.take(i + 1).last() == all[i as int]);
        let FrameFile { index: _, path, image } = f;
        match image {
            Err(source) => {
                proof {
                    lemma_load_prefix(all, texture_name@, i + 1);
                }
                return Err(GutzAtlasBuildError::OpenImage { path, source });
            },
            Ok(img) => {
                if frames.len() > 0 && (img.width != frames[0].width || img.height
                    != frames[0].height) {
                    proof {
                        lemma_load_prefix(all, texture_name@, i + 1);
                    }
                    return Err(
                        GutzAtlasBuildError::FrameSizeMismatch {
                            texture_name: texture_name.clone(),
                            first_width: frames[0].width,
                            first_height: frames[0].height,
                            path,
                            width: img.width,
                            height: img.height,
                        },
                    );
                }
                frames.push(img);
            },
        }
        i = i + 1;
        assert(rest@ =~= all.skip(i as int));
    }
    assert(all.take(i as int) =~= all);
    Ok(frames)
}

// ---------------------------------------------------------------------------
// Where the atlas image goes
// ---------------------------------------------------------------------------

/// Components of the atlas image path relative to the output folder: the
/// texture's segments, the last one with `.png` appended. Nothing of a leaf
/// name is taken for an extension, so two leaves with different texture
/// names never share an atlas.
pub open spec fn image_components(segments: Seq<Seq<char>>) -> Seq<Seq<char>> {
    if segments.len() == 0 {
        segments
    } else {
        segments.drop_last().push(segments.last() + ".png"@)
    }
}

/// The atlas image path as the manifest records it (`/`-separated).
pub open spec fn image_path(segments: Seq<Seq<char>>) -> Seq<char> {
    join(image_components(segments), "/"@)
}

proof fn lemma_join_append_last(segments: Seq<Seq<char>>, sep: Seq<char>, tail: Seq<char>)
    requires
        segments.len() > 0,
    ensures
        join(segments.drop_last().push(segments.last() + tail), sep) == join(segments, sep) + tail,
{
    let t = segments.drop_last().push(segments.last() + tail);
    assert(t.drop_last() =~= segments.drop_last());
    if segments.len() == 1 {
        assert(t[0] == segments[0] + tail);
    } else {
        assert(join(t, sep) == join(segments.drop_last(), sep) + sep + (segments.last() + tail));
        assert(join(segments, sep) == join(segments.drop_last(), sep) + sep + segments.last());
        assert(join(t, sep) =~= join(segments, sep) + tail);
    }
}

/// The atlas image of a texture lies at its texture name plus `.png`; so
/// textures with different names get different atlas images.
pub proof fn law_image_path_is_texture_name(segments: Seq<Seq<char>>, other: Seq<Seq<char>>)
    requires
        segments.len() > 0,
        other.len() > 0,
    ensures
        image_path(segments) == texture_name(segments) + ".png"@,
        texture_name(segments) != texture_name(other) ==> image_path(segments) != image_path(
            other,
        ),
{
    lemma_join_append_last(segments, "/"@, ".png"@);
    lemma_join_append_last(other, "/"@, ".png"@);
    let a = texture_name(segments);
    let b = texture_name(other);
    if a != b && a + ".png"@ == b + ".png"@ {
        let n = ".png"@.len();
        assert((a + ".png"@).subrange(0, (a + ".png"@).len() - n) =~= a);
        assert((b + ".png"@).subrange(0, (b + ".png"@).len() - n) =~= b);
    }
}

fn atlas_components(segments: &Vec<String>) -> (r: Vec<String>)
    ensures
        crate::atlas_build::strings_view(r@) == image_components(
            crate::atlas_build::strings_view(segments@),
        ),
{
    let ghost segs = crate::atlas_build::strings_view(segments@);
    let mut out = crate::atlas_build::clone_strings(segments);
    if out.len() > 0 {
        let last = out.len() - 1;
        let mut name = segments[last].clone();
        name.append(".png");
        out.set(last, name);
        assert(crate::atlas_build::strings_view(out@) =~= segs.drop_last().push(
            segs.last() + ".png"@,
        ));
    } else {
        assert(crate::atlas_build::strings_view(out@) =~= segs);
    }
    out
}

// ---------------------------------------------------------------------------
// One texture
// ---------------------------------------------------------------------------

/// What packing one texture group gives, as mathematical values.
pub struct PackedTexture {
    pub name: Seq<char>,
    pub entry: AtlasEntryView,
    pub components: Seq<Seq<char>>,
    pub frames: Seq<RgbaFrame>,
}

/// Packing one group: reject duplicate numbers, then a number set other than
/// `1..=max`, then load the frames in number order and record the atlas.
pub open spec fn pack_one_spec(g: GroupView) -> Result<PackedTexture, BuildError> {
    let name = texture_name(g.segments);
    match first_duplicate(g.files) {
        Some((i, j)) => Err(
            BuildError::DuplicateIndex {
                texture_name: name,
                index: g.files[j].index,
                first: g.files[i].path@,
                second: g.files[j].path@,
            },
        ),
        None => {
            let found = indices_of(g.files);
            if !index_set_matches(found, g.max) {
                Err(
                    BuildError::IndexSetMismatch {
                        texture_name: name,
                        declared_max: g.max,
                        missing: missing_upto(found, g.max as nat),
                        extra: sort_u32(beyond(found, g.max)),
                    },
                )
            } else {
                match load_spec(order_by_index(g.files), name) {
                    Err(e) => Err(e),
                    Ok(frames) => {
                        let count = frames.len() as u32;
                        Ok(
                            PackedTexture {
                                name,
                                entry: AtlasEntryView {
                                    image: image_path(g.segments),
                                    frame_count: count,
                                    tile_width: frames[0].width,
                                    tile_height: frames[0].height,
                                    columns: count,
                                },
                                components: image_components(g.segments),
                                frames,
                            },
                        )
                    },
                }
            }
        },
    }
}

/// Every decoded frame of the group is well formed and small enough that an
/// atlas of as many frames as the group has fits the `u32` width and the
/// address space.
pub open spec fn group_fits(g: GroupView) -> bool {
    forall|i: int|
        0 <= i < g.files.len() ==> ((#[trigger] g.files[i]).image matches Ok(img) ==> img.wf()
            && img.width * g.files.len() <= u32::MAX && img.width * g.files.len() * img.height * 4
            <= usize::MAX)
}

/// One atlas image to write: where, relative to the output folder, and what.
pub struct AtlasImage {
    pub components: Vec<String>,
    pub image: RgbaFrame,
}

struct Packed {
    name: String,
    entry: AtlasEntry,
    image: AtlasImage,
}

fn pack_one(group: TextureGroup) -> (r: Result<Packed, GutzAtlasBuildError>)
    requires
        group@.max >= 1,
        group_fits(group@),
    ensures
        match pack_one_spec(group@) {
            Ok(t) => r matches Ok(p) && p.name@ == t.name && p.entry@ == t.entry
                && crate::atlas_build::strings_view(p.image.components@) == t.components
                && is_strip_of(p.image.image, t.frames, t.entry.tile_width, t.entry.tile_height),
            Err(e) => r matches Err(x) && x@ == e,
        },
{
    let ghost g = group@;
    let TextureGroup { segments, max, files } = group;
    let name = join_strings(&segments, "/");
    index_files(&name, &files)?;
    check_index_set(&name, max, &files)?;
    proof {
        assert(expected_indices(max).contains(1u32));
        assert(indices_of(files@).to_set().contains(1u32));
        assert(indices_of(files@).contains(1u32));
        lemma_order_members(files@);
    }
    let ordered = order_files(files);
    let ghost ordered_view = ordered@;
    let frames = load_frames(&name, ordered)?;
    proof {
        lemma_load_ok(ordered_view, name@);
        assert(frames@.len() > 0);
        assert forall|k: int| 0 <= k < frames@.len() implies (#[trigger] frames@[k]).wf()
            && frames@[k].width == frames@[0].width && frames@[k].height == frames@[0].height by {
            assert(files@.contains(ordered_view[k]));
            let j = choose|j: int| 0 <= j < files@.len() && files@[j] == ordered_view[k];
            assert(g.files[j] == ordered_view[k]);
        }
        assert(files@.contains(ordered_view[0]));
        let j0 = choose|j: int| 0 <= j < files@.len() && files@[j] == ordered_view[0];
        assert(g.files[j0] == ordered_view[0]);
    }
    let tile_w = frames[0].width;
    let tile_h = frames[0].height;
    let count = frames.len() as u32;
    let atlas = compose_atlas(tile_w, tile_h, &frames);
    let components = atlas_components(&segments);
    let image = join_strings(&components, "/");
    let entry = AtlasEntry {
        image,
        frame_count: count,
        tile_width: tile_w,
        tile_height: tile_h,
        columns: count,
    };
    Ok(Packed { name, entry, image: AtlasImage { components, image: atlas } })
}

// ---------------------------------------------------------------------------
// The whole tree
// ---------------------------------------------------------------------------

/// Packing the groups in order from a manifest built so far: the textures
/// packed before the first failing group, and either the finished manifest
/// or that group's error.
pub open spec fn pack_groups_spec(
    groups: Seq<GroupView>,
    manifest: Map<Seq<char>, AtlasEntryView>,
) -> (Seq<PackedTexture>, Result<Map<Seq<char>, AtlasEntryView>, BuildError>)
    decreases groups.len(),
{
    if groups.len() == 0 {
        (Seq::empty(), Ok(manifest))
    } else {
        match pack_one_spec(groups[0]) {
            Err(e) => (Seq::empty(), Err(e)),
            Ok(t) => {
                let rest = pack_groups_spec(groups.drop_first(), manifest.insert(t.name, t.entry));
                (seq![t] + rest.0, rest.1)
            },
        }
    }
}

/// What packing a source tree gives: the atlas images to write, in order,
/// and then either the manifest to write or the first problem met.
pub open spec fn pack_spec(root: SourceDir) -> (
    Seq<PackedTexture>,
    Result<Map<Seq<char>, AtlasEntryView>, BuildError>,
) {
    match collect_groups_spec(root) {
        Err(e) => (Seq::empty(), Err(e)),
        Ok(groups) => pack_groups_spec(groups, Map::empty()),
    }
}

/// The atlas images fit in memory: every group the tree holds fits.
pub open spec fn pack_fits(root: SourceDir) -> bool {
    match collect_groups_spec(root) {
        Ok(groups) => forall|i: int| 0 <= i < groups.len() ==> group_fits(#[trigger] groups[i]),
        Err(_) => true,
    }
}

/// The result of packing: the atlas images to write (in order, each before
/// the next group was looked at) and what follows them.
pub struct PackPlan {
    pub atlases: Vec<AtlasImage>,
    pub outcome: Result<AtlasManifest, GutzAtlasBuildError>,
}

/// `plan` carries out `spec`.
pub open spec fn plan_matches(
    plan: PackPlan,
    spec: (Seq<PackedTexture>, Result<Map<Seq<char>, AtlasEntryView>, BuildError>),
) -> bool {
    &&& plan.atlases@.len() == spec.0.len()
    &&& forall|i: int|
        0 <= i < spec.0.len() ==> {
            let t = #[trigger] spec.0[i];
            &&& crate::atlas_build::strings_view(plan.atlases@[i].components@) == t.components
            &&& is_strip_of(
                plan.atlases@[i].image,
                t.frames,
                t.entry.tile_width,
                t.entry.tile_height,
            )
        }
    &&& match spec.1 {
        Ok(m) => plan.outcome matches Ok(manifest) && manifest.wf() && manifest@ == m,
        Err(e) => plan.outcome matches Err(x) && x@ == e,
    }
}

/// Validates the source tree and lays out one atlas image per texture plus
/// the manifest. Every naming-rule violation, gap, trailing shortfall,
/// number beyond the declaration and frame-size mismatch is an error; the
/// first one met stops packing.
pub fn pack(source: SourceDir) -> (plan: PackPlan)
    requires
        pack_fits(source),
    ensures
        plan_matches(plan, pack_spec(source)),
{
    let ghost spec = pack_spec(source);
    let ghost source_view = source;
    let groups = match collect_groups(source) {
        Ok(groups) => groups,
        Err(e) => {
            return PackPlan { atlases: Vec::new(), outcome: Err(e) };
        },
    };
    proof {
        lemma_collected_groups_declare_frames(source_view);
    }
    let ghost all = crate::atlas_build::groups_view(groups@);
    let total = groups.len();
    let mut rest = groups;
    let mut atlases: Vec<AtlasImage> = Vec::new();
    let mut manifest = AtlasManifest::new();
    let mut i: usize = 0;
    let ghost done: Seq<PackedTexture> = Seq::empty();
    proof {
        assert(all.skip(0) =~= all);
        let r = pack_groups_spec(all, manifest@);
        assert(done + r.0 =~= r.0);
    }
    while rest.len() > 0
        invariant
            source_view == source,
            collect_groups_spec(source_view) == Ok::<Seq<GroupView>, BuildError>(all),
            spec == pack_spec(source_view),
            pack_fits(source_view),
            forall|k: int| 0 <= k < all.len() ==> (#[trigger] all[k]).max >= 1,
            all.len() == total,
            i <= total,
            total == i + rest.len(),
            crate::atlas_build::groups_view(rest@) == all.skip(i as int),
            manifest.wf(),
            done.len() == i,
            atlases@.len() == i,
            forall|k: int|
                0 <= k < i ==> {
                    let t = #[trigger] done[k];
                    &&& crate::atlas_build::strings_view(atlases@[k].components@)
                        == t.components
                    &&& is_strip_of(
                        atlases@[k].image,
                        t.frames,
                        t.entry.tile_width,
                        t.entry.tile_height,
                    )
                },
            spec == ({
                let r = pack_groups_spec(all.skip(i as int), manifest@);
                (done + r.0, r.1)
            }),
        decreases rest.len(),
    {
        let group = rest.remove(0);
        let ghost gv = group@;
        assert(gv == all[i as int]);
        assert(all.skip(i as int).drop_first() =~= all.skip(i + 1));
        match pack_one(group) {
            Err(e) => {
                proof {
                    let r = pack_groups_spec(all.skip(i as int), manifest@);
                    assert(all.skip(i as int)[0] == gv);
                    assert(r.0 =~= Seq::<PackedTexture>::empty());
                    assert(r.1 == Err::<Map<Seq<char>, AtlasEntryView>, BuildError>(e@));
                    assert(done + Seq::<PackedTexture>::empty() =~= done);
                    assert(spec.0 =~= done);
                }
                return PackPlan { atlases, outcome: Err(e) };
            },
            Ok(packed) => {
                let ghost t = pack_one_spec(gv)->Ok_0;
                let ghost before = manifest@;
                manifest.insert(packed.name, packed.entry);
                atlases.push(packed.image);
                proof {
                    let r = pack_groups_spec(all.skip(i + 1), manifest@);
                    assert(done.push(t) + r.0 =~= done + (seq![t] + r.0));
                    done = done.push(t);
                }
            },
        }
        i = i + 1;
        proof {
            assert(crate::atlas_build::groups_view(rest@) =~= all.skip(i as int));
        }
    }
    proof {
        assert(all.skip(i as int) =~= Seq::<GroupView>::empty());
        assert(done + Seq::<PackedTexture>::empty() =~= done);
    }
    PackPlan { atlases, outcome: Ok(manifest) }
}

// ---------------------------------------------------------------------------
// What a packed texture holds
// ---------------------------------------------------------------------------

proof fn lemma_insert_by_index_multiset(s: Seq<FrameFile>, f: FrameFile)
    ensures
        insert_by_index(s, f).to_multiset() == s.to_multiset().insert(f),
    decreases s.len(),
{
    broadcast use vstd::seq_lib::group_to_multiset_ensures;
    broadcast use vstd::multiset::group_multiset_axioms;

    let single = seq![f];
    assert(single =~= Seq::<FrameFile>::empty().push(f));
    assert(Seq::<FrameFile>::empty().to_multiset() =~= vstd::multiset::Multiset::empty());
    if s.len() == 0 {
        assert(insert_by_index(s, f) == single);
        assert(s.to_multiset() =~= vstd::multiset::Multiset::empty());
    } else if f.index <= s[0].index {
        vstd::seq_lib::lemma_multiset_commutative(single, s);
        assert(insert_by_index(s, f).to_multiset() =~= s.to_multiset().insert(f));
    } else {
        lemma_insert_by_index_multiset(s.drop_first(), f);
        let head = seq![s[0]];
        assert(head =~= Seq::<FrameFile>::empty().push(s[0]));
        let t = insert_by_index(s.drop_first(), f);
        vstd::seq_lib::lemma_multiset_commutative(head, t);
        vstd::seq_lib::lemma_multiset_commutative(head, s.drop_first());
        assert(s =~= head + s.drop_first());
        assert(insert_by_index(s, f).to_multiset() =~= s.to_multiset().insert(f));
    }
}

proof fn lemma_order_multiset(s: Seq<FrameFile>)
    ensures
        order_by_index(s).to_multiset() == s.to_multiset(),
    decreases s.len(),
{
    broadcast use vstd::seq_lib::group_to_multiset_ensures;

    if s.len() > 0 {
        lemma_order_multiset(s.drop_last());
        lemma_insert_by_index_multiset(order_by_index(s.drop_last()), s.last());
        assert(s.drop_last().push(s.last()) =~= s);
    }
}

/// Files sorted by number, allowing equal numbers.
pub open spec fn sorted_by_index(s: Seq<FrameFile>) -> bool {
    forall|i: int, j: int| 0 <= i < j < s.len() ==> s[i].index <= s[j].index
}

proof fn lemma_insert_by_index_sorted(s: Seq<FrameFile>, f: FrameFile)
    requires
        sorted_by_index(s),
    ensures
        sorted_by_index(insert_by_index(s, f)),
    decreases s.len(),
{
    let r = insert_by_index(s, f);
    if s.len() == 0 {
    } else if f.index <= s[0].index {
        assert forall|i: int, j: int| 0 <= i < j < r.len() implies r[i].index <= r[j].index by {
            if i == 0 {
                assert(r[j] == s[j - 1]);
            } else {
                assert(r[i] == s[i - 1]);
                assert(r[j] == s[j - 1]);
            }
        }
    } else {
        let t = insert_by_index(s.drop_first(), f);
        lemma_insert_by_index_sorted(s.drop_first(), f);
        lemma_insert_by_index_members(s.drop_first(), f);
        assert forall|i: int, j: int| 0 <= i < j < r.len() implies r[i].index <= r[j].index by {
            if i == 0 {
                assert(r[j] == t[j - 1]);
                if t[j - 1] != f {
                    let q = choose|q: int|
                        0 <= q < s.drop_first().len() && s.drop_first()[q] == t[j - 1];
                    assert(s[q + 1] == t[j - 1]);
                }
            } else {
                assert(r[i] == t[i - 1]);
                assert(r[j] == t[j - 1]);
            }
        }
    }
}

proof fn lemma_order_sorted(s: Seq<FrameFile>)
    ensures
        sorted_by_index(order_by_index(s)),
    decreases s.len(),
{
    if s.len() > 0 {
        lemma_order_sorted(s.drop_last());
        lemma_insert_by_index_sorted(order_by_index(s.drop_last()), s.last());
    }
}

proof fn lemma_position_of_none_means_absent(files: Seq<FrameFile>, index: u32, j: int)
    requires
        position_of(files, index) is None,
        0 <= j < files.len(),
    ensures
        files[j].index != index,
    decreases files.len(),
{
    if j < files.len() - 1 {
        lemma_position_of_none_means_absent(files.drop_last(), index, j);
    }
}

/// Without a duplicate, no two files share a number.
proof fn lemma_no_duplicate_distinct(files: Seq<FrameFile>)
    requires
        first_duplicate(files) is None,
    ensures
        forall|i: int, j: int| 0 <= i < j < files.len() ==> files[i].index != files[j].index,
    decreases files.len(),
{
    if files.len() > 0 {
        let rest = files.drop_last();
        lemma_no_duplicate_distinct(rest);
        assert forall|i: int, j: int| 0 <= i < j < files.len() implies files[i].index
            != files[j].index by {
            if j == files.len() - 1 {
                lemma_position_of_none_means_absent(rest, files.last().index, i);
                assert(rest[i] == files[i]);
            } else {
                assert(rest[i] == files[i]);
                assert(rest[j] == files[j]);
            }
        }
    }
}

/// The files of a group that packs, ordered by number, are numbered
/// `1, 2, ..., max` in that order, and there are `max` of them.
proof fn lemma_ordered_numbers(files: Seq<FrameFile>, max: u32)
    requires
        first_duplicate(files) is None,
        index_set_matches(indices_of(files), max),
    ensures
        order_by_index(files).len() == max,
        forall|k: int|
            0 <= k < max ==> (#[trigger] order_by_index(files)[k]).index == k + 1 && files.contains(
                order_by_index(files)[k],
            ),
{
    broadcast use vstd::seq_lib::group_to_multiset_ensures;

    let o = order_by_index(files);
    let n = o.len();
    lemma_no_duplicate_distinct(files);
    lemma_order_multiset(files);
    lemma_order_sorted(files);
    lemma_order_members(files);
    lemma_index_set_matches(indices_of(files), max);
    // Every file of the group appears in the ordered sequence.
    assert forall|j: int| 0 <= j < files.len() implies o.contains(#[trigger] files[j]) by {
        assert(files.to_multiset().count(files[j]) > 0);
    }
    // The files are pairwise different, hence so is their ordering.
    assert(files.no_duplicates()) by {
        assert forall|i: int, j: int| 0 <= i < files.len() && 0 <= j < files.len() && i != j
            implies files[i] != files[j] by {
            if i < j {
                assert(files[i].index != files[j].index);
            } else {
                assert(files[j].index != files[i].index);
            }
        }
    }
    files.lemma_multiset_has_no_duplicates();
    o.lemma_multiset_has_no_duplicates_conv();
    // Numbers in the ordering strictly increase.
    assert forall|i: int, j: int| 0 <= i < j < n implies o[i].index < o[j].index by {
        assert(o[i].index <= o[j].index);
        if o[i].index == o[j].index {
            assert(files.contains(o[i]));
            assert(files.contains(o[j]));
            let a = choose|a: int| 0 <= a < files.len() && files[a] == o[i];
            let b = choose|b: int| 0 <= b < files.len() && files[b] == o[j];
            if a < b {
                assert(files[a].index != files[b].index);
            } else if b < a {
                assert(files[b].index != files[a].index);
            }
            assert(o[i] == o[j]);
        }
    }
    // Each number found lies in 1..=max, and each of 1..=max is found.
    assert forall|k: int| 0 <= k < n implies 1 <= #[trigger] o[k].index <= max by {
        let a = choose|a: int| 0 <= a < files.len() && files[a] == o[k];
        assert(indices_of(files)[a] == o[k].index);
        assert(!beyond(indices_of(files), max).contains(o[k].index) || true);
        assert(indices_of(files).to_set().contains(o[k].index));
        assert(expected_indices(max).contains(o[k].index));
    }
    assert forall|v: u32| 1 <= v <= max implies #[trigger] has_number(o, v) by {
        assert(expected_indices(max).contains(v));
        assert(indices_of(files).to_set().contains(v));
        let a = choose|a: int| 0 <= a < indices_of(files).len() && indices_of(files)[a] == v;
        assert(o.contains(files[a]));
        let p = choose|p: int| 0 <= p < n && o[p] == files[a];
        assert(o[p].index == v);
    }
    lemma_strict_cover(o, max);
}

/// Some file of `o` is numbered `v`.
pub open spec fn has_number(o: Seq<FrameFile>, v: u32) -> bool {
    exists|p: int| 0 <= p < o.len() && o[p].index == v
}

/// A strictly increasing run of numbers from `1..=max` that contains every
/// one of them is exactly `1, 2, ..., max`.
proof fn lemma_strict_cover(o: Seq<FrameFile>, max: u32)
    requires
        forall|i: int, j: int| 0 <= i < j < o.len() ==> o[i].index < o[j].index,
        forall|k: int| 0 <= k < o.len() ==> 1 <= #[trigger] o[k].index <= max,
        forall|v: u32| 1 <= v <= max ==> #[trigger] has_number(o, v),
    ensures
        o.len() == max,
        forall|k: int| 0 <= k < o.len() ==> (#[trigger] o[k]).index == k + 1,
{
    assert forall|k: int| 0 <= k < o.len() implies (#[trigger] o[k]).index == k + 1 by {
        lemma_strict_cover_at(o, max, k);
    }
    if o.len() > 0 {
        assert(o[o.len() - 1].index == o.len());
    }
    if max > o.len() {
        let v = (o.len() + 1) as u32;
        assert(has_number(o, v));
        let p = choose|p: int| 0 <= p < o.len() && o[p].index == v;
        assert(o[p].index == p + 1);
    }
}

proof fn lemma_strict_cover_at(o: Seq<FrameFile>, max: u32, k: int)
    requires
        forall|i: int, j: int| 0 <= i < j < o.len() ==> o[i].index < o[j].index,
        forall|k: int| 0 <= k < o.len() ==> 1 <= #[trigger] o[k].index <= max,
        forall|v: u32| 1 <= v <= max ==> #[trigger] has_number(o, v),
        0 <= k < o.len(),
    ensures
        o[k].index == k + 1,
    decreases k,
{
    if k > 0 {
        lemma_strict_cover_at(o, max, k - 1);
        assert(o[k - 1].index < o[k].index);
    }
    if o[k].index > k + 1 {
        let v = (k + 1) as u32;
        assert(has_number(o, v));
        let p = choose|p: int| 0 <= p < o.len() && o[p].index == v;
        if p < k {
            lemma_strict_cover_at(o, max, p);
        } else if p > k {
            assert(o[k].index < o[p].index);
        }
    }
}

/// Frame `k` (from 0) of `frames` is the image of a file of `g` numbered
/// `k + 1`.
pub open spec fn frame_from_file(g: GroupView, frames: Seq<RgbaFrame>, k: int) -> bool {
    exists|j: int|
        0 <= j < g.files.len() && g.files[j].index == k + 1 && g.files[j].image == Ok::<
            RgbaFrame,
            image::ImageError,
        >(frames[k])
}

/// A texture that packs has exactly the number of frames its folder name
/// declares, and frame `k` of its atlas (counted from 0) is the image of the
/// file numbered `k + 1`.
pub proof fn law_packed_frames_follow_numbers(g: GroupView)
    requires
        pack_one_spec(g) is Ok,
    ensures
        ({
            let t = pack_one_spec(g)->Ok_0;
            &&& t.frames.len() == g.max
            &&& t.entry.frame_count == g.max
            &&& t.entry.columns == g.max
            &&& forall|k: int| 0 <= k < g.max ==> #[trigger] frame_from_file(g, t.frames, k)
        }),
{
    let name = texture_name(g.segments);
    let o = order_by_index(g.files);
    lemma_ordered_numbers(g.files, g.max);
    lemma_load_ok(o, name);
    let frames = load_spec(o, name)->Ok_0;
    assert(pack_one_spec(g)->Ok_0.frames == frames);
    assert forall|k: int| 0 <= k < g.max implies #[trigger] frame_from_file(g, frames, k) by {
        assert(g.files.contains(o[k]));
        let j = choose|j: int| 0 <= j < g.files.len() && g.files[j] == o[k];
        assert(g.files[j].index == k + 1);
        assert(g.files[j].image == Ok::<RgbaFrame, image::ImageError>(frames[k]));
    }
}

/// Some group among `groups` is named `name` and declares `count` frames.
pub open spec fn declared_by_some_group(groups: Seq<GroupView>, name: Seq<char>, count: u32) -> bool {
    exists|i: int|
        0 <= i < groups.len() && texture_name(groups[i].segments) == name && groups[i].max == count
}

proof fn lemma_pack_groups_manifest(groups: Seq<GroupView>, m0: Map<Seq<char>, AtlasEntryView>)
    requires
        pack_groups_spec(groups, m0).1 is Ok,
    ensures
        ({
            let m = pack_groups_spec(groups, m0).1->Ok_0;
            &&& forall|i: int|
                0 <= i < groups.len() ==> m.contains_key(
                    texture_name(#[trigger] groups[i].segments),
                )
            &&& forall|name: Seq<char>|
                #[trigger] m.contains_key(name) ==> (m0.contains_key(name) && m[name] == m0[name])
                    || declared_by_some_group(groups, name, m[name].frame_count)
            &&& forall|name: Seq<char>| #[trigger] m0.contains_key(name) ==> m.contains_key(name)
        }),
    decreases groups.len(),
{
    if groups.len() > 0 {
        let t = pack_one_spec(groups[0])->Ok_0;
        law_packed_frames_follow_numbers(groups[0]);
        let m1 = m0.insert(t.name, t.entry);
        let rest = groups.drop_first();
        lemma_pack_groups_manifest(rest, m1);
        let m = pack_groups_spec(groups, m0).1->Ok_0;
        assert(m == pack_groups_spec(rest, m1).1->Ok_0);
        assert forall|i: int| 0 <= i < groups.len() implies m.contains_key(
            texture_name(#[trigger] groups[i].segments),
        ) by {
            if i > 0 {
                assert(rest[i - 1] == groups[i]);
            } else {
                assert(m1.contains_key(t.name));
            }
        }
        assert forall|name: Seq<char>| #[trigger] m0.contains_key(name) implies m.contains_key(name) by {
            assert(m1.contains_key(name));
        }
        assert forall|name: Seq<char>| #[trigger] m.contains_key(name) implies (m0.contains_key(name)
            && m[name] == m0[name]) || declared_by_some_group(groups, name, m[name].frame_count) by {
            if m1.contains_key(name) && m[name] == m1[name] {
                if name == t.name {
                    assert(texture_name(groups[0].segments) == name);
                    assert(groups[0].max == m[name].frame_count);
                }
            } else {
                assert(declared_by_some_group(rest, name, m[name].frame_count));
                let i = choose|i: int|
                    0 <= i < rest.len() && texture_name(rest[i].segments) == name && rest[i].max
                        == m[name].frame_count;
                assert(groups[i + 1] == rest[i]);
            }
        }
    }
}

/// When a tree packs, its manifest lists every texture of the tree, and
/// each entry's frame count is the count its folder name declares.
pub proof fn law_manifest_counts_declared_frames(root: SourceDir)
    requires
        pack_spec(root).1 is Ok,
    ensures
        collect_groups_spec(root) is Ok,
        ({
            let groups = collect_groups_spec(root)->Ok_0;
            let m = pack_spec(root).1->Ok_0;
            &&& forall|i: int|
                0 <= i < groups.len() ==> m.contains_key(
                    texture_name(#[trigger] groups[i].segments),
                )
            &&& forall|name: Seq<char>|
                #[trigger] m.contains_key(name) ==> declared_by_some_group(
                    groups,
                    name,
                    m[name].frame_count,
                )
        }),
{
    let groups = collect_groups_spec(root)->Ok_0;
    lemma_pack_groups_manifest(groups, Map::empty());
}

} // verus!
