//! Build-time validation of a sprite source tree.
//!
//! A source tree holds nested folders. A folder that directly holds image
//! files (a *leaf*) is one texture (one animation) and must be named
//! `{texture}_{max}`; its files must be named `{n}.png`. Every other folder is
//! a *namespace* with a free name. The texture name is the namespace path and
//! the leaf's texture part joined with `/`. A folder may not mix image files
//! and subfolders, may not hold non-png files, and the root may not hold
//! images directly.
//!
//! The tree is handed over as plain values: what each folder lists, in the
//! order the file system listed it, together with what reading each entry
//! gave.
use crate::atlas_image::RgbaFrame;
use crate::text::{
    all_digits, decimal, is_all_digits, is_digit, lemma_decimal_digits, lemma_parse_decimal,
    parse_u32, parse_unsigned, rsplit_once, split_at_last, str_eq, strip_suffix,
};
use vstd::prelude::*;

verus! {

/// `std::io::Error`, carried through as the reason a folder could not be read.
#[verifier::external_type_specification]
#[verifier::external_body]
pub struct ExIoError(std::io::Error);

/// `image::ImageError`, carried through as the reason a frame could not be decoded.
#[verifier::external_type_specification]
#[verifier::external_body]
pub struct ExImageError(image::ImageError);

/// One folder of the source tree.
pub struct SourceDir {
    /// The folder's path, for reports.
    pub path: String,
    /// The folder's own name, or `None` when it is not valid UTF-8.
    pub name: Option<String>,
    /// The folder's entries in listing order, or why it could not be listed.
    pub entries: Result<Vec<SourceEntry>, std::io::Error>,
}

/// One entry of a folder listing.
pub enum SourceEntry {
    /// The listing failed at this entry.
    Unreadable(std::io::Error),
    /// A subfolder.
    Dir(SourceDir),
    /// A regular file.
    File(SourceFile),
    /// Neither a folder nor a regular file; it is skipped.
    Other,
}

/// A regular file of the source tree.
pub struct SourceFile {
    /// The file's path, for reports.
    pub path: String,
    /// The file name, or `None` when it is not valid UTF-8.
    pub file_name: Option<String>,
    /// The file's extension, or `None` when it has none or it is not valid UTF-8.
    pub extension: Option<String>,
    /// What decoding the file as an image gave.
    pub image: Result<RgbaFrame, image::ImageError>,
}

/// A frame file of a leaf folder, with the number its name declares.
pub struct FrameFile {
    pub index: u32,
    pub path: String,
    pub image: Result<RgbaFrame, image::ImageError>,
}

/// One leaf folder: one texture, one animation.
pub struct TextureGroup {
    /// Namespace path plus the leaf's texture part (without `_{max}`).
    pub segments: Vec<String>,
    /// The frame count that the folder name declares.
    pub max: u32,
    pub files: Vec<FrameFile>,
}

/// Mathematical view of a [`TextureGroup`].
pub struct GroupView {
    pub segments: Seq<Seq<char>>,
    pub max: u32,
    pub files: Seq<FrameFile>,
}

pub open spec fn strings_view(s: Seq<String>) -> Seq<Seq<char>> {
    s.map_values(|x: String| x@)
}

pub open spec fn opt_string_view(o: Option<String>) -> Option<Seq<char>> {
    match o {
        Some(s) => Some(s@),
        None => None,
    }
}

impl View for TextureGroup {
    type V = GroupView;

    open spec fn view(&self) -> GroupView {
        GroupView { segments: strings_view(self.segments@), max: self.max, files: self.files@ }
    }
}

pub open spec fn groups_view(s: Seq<TextureGroup>) -> Seq<GroupView> {
    s.map_values(|g: TextureGroup| g@)
}

/// Why a source tree cannot be packed.
#[allow(inconsistent_fields)]
pub enum GutzAtlasBuildError {
    ReadDir { path: String, source: std::io::Error },
    ReadEntry { dir: String, source: std::io::Error },
    UnexpectedFile { path: String },
    MixedLeafAndNamespace { dir: String },
    ImagesDirectlyUnderRoot { dir: String },
    NonUtf8DirName { dir: String },
    MalformedLeafDirName { dir: String },
    NonUtf8FileName { path: String },
    MalformedFrameFileName { path: String },
    DuplicateIndex { texture_name: String, index: u32, first: String, second: String },
    /// `missing` lists the declared numbers that have no file, ascending;
    /// `extra` the file numbers beyond the declaration, ascending.
    IndexSetMismatch {
        texture_name: String,
        declared_max: u32,
        missing: Vec<u32>,
        extra: Vec<u32>,
    },
    FrameSizeMismatch {
        texture_name: String,
        first_width: u32,
        first_height: u32,
        path: String,
        width: u32,
        height: u32,
    },
    OpenImage { path: String, source: image::ImageError },
    NoTextures { src_dir: String },
}

/// Mathematical view of [`GutzAtlasBuildError`].
#[allow(inconsistent_fields)]
pub enum BuildError {
    ReadDir { path: Seq<char>, source: std::io::Error },
    ReadEntry { dir: Seq<char>, source: std::io::Error },
    UnexpectedFile { path: Seq<char> },
    MixedLeafAndNamespace { dir: Seq<char> },
    ImagesDirectlyUnderRoot { dir: Seq<char> },
    NonUtf8DirName { dir: Seq<char> },
    MalformedLeafDirName { dir: Seq<char> },
    NonUtf8FileName { path: Seq<char> },
    MalformedFrameFileName { path: Seq<char> },
    DuplicateIndex { texture_name: Seq<char>, index: u32, first: Seq<char>, second: Seq<char> },
    IndexSetMismatch {
        texture_name: Seq<char>,
        declared_max: u32,
        missing: Seq<u32>,
        extra: Seq<u32>,
    },
    FrameSizeMismatch {
        texture_name: Seq<char>,
        first_width: u32,
        first_height: u32,
        path: Seq<char>,
        width: u32,
        height: u32,
    },
    OpenImage { path: Seq<char>, source: image::ImageError },
    NoTextures { src_dir: Seq<char> },
}

impl View for GutzAtlasBuildError {
    type V = BuildError;

    open spec fn view(&self) -> BuildError {
        match *self {
            GutzAtlasBuildError::ReadDir { path, source } => BuildError::ReadDir {
                path: path@,
                source,
            },
            GutzAtlasBuildError::ReadEntry { dir, source } => BuildError::ReadEntry {
                dir: dir@,
                source,
            },
            GutzAtlasBuildError::UnexpectedFile { path } => BuildError::UnexpectedFile {
                path: path@,
            },
            GutzAtlasBuildError::MixedLeafAndNamespace { dir } => BuildError::MixedLeafAndNamespace {
                dir: dir@,
            },
            GutzAtlasBuildError::ImagesDirectlyUnderRoot { dir } => BuildError::ImagesDirectlyUnderRoot {
                dir: dir@,
            },
            GutzAtlasBuildError::NonUtf8DirName { dir } => BuildError::NonUtf8DirName { dir: dir@ },
            GutzAtlasBuildError::MalformedLeafDirName { dir } => BuildError::MalformedLeafDirName {
                dir: dir@,
            },
            GutzAtlasBuildError::NonUtf8FileName { path } => BuildError::NonUtf8FileName {
                path: path@,
            },
            GutzAtlasBuildError::MalformedFrameFileName { path } => BuildError::MalformedFrameFileName {
                path: path@,
            },
            GutzAtlasBuildError::DuplicateIndex {
                texture_name,
                index,
                first,
                second,
            } => BuildError::DuplicateIndex {
                texture_name: texture_name@,
                index,
                first: first@,
                second: second@,
            },
            GutzAtlasBuildError::IndexSetMismatch {
                texture_name,
                declared_max,
                missing,
                extra,
            } => BuildError::IndexSetMismatch {
                texture_name: texture_name@,
                declared_max,
                missing: missing@,
                extra: extra@,
            },
            GutzAtlasBuildError::FrameSizeMismatch {
                texture_name,
                first_width,
                first_height,
                path,
                width,
                height,
            } => BuildError::FrameSizeMismatch {
                texture_name: texture_name@,
                first_width,
                first_height,
                path: path@,
                width,
                height,
            },
            GutzAtlasBuildError::OpenImage { path, source } => BuildError::OpenImage {
                path: path@,
                source,
            },
            GutzAtlasBuildError::NoTextures { src_dir } => BuildError::NoTextures {
                src_dir: src_dir@,
            },
        }
    }
}

// ---------------------------------------------------------------------------
// Names
// ---------------------------------------------------------------------------

/// `{texture}_{max}` split at the last underscore: the texture part and the
/// declared frame count; `None` when the name does not follow that rule
/// (no underscore, an empty texture part, or a count that is not a positive
/// `u32`).
pub open spec fn leaf_dir_name(name: Seq<char>) -> Option<(Seq<char>, u32)> {
    match split_at_last(name, '_') {
        None => None,
        Some((texture, count)) => match parse_unsigned(count, u32::MAX as nat) {
            None => None,
            Some(max) => if texture.len() == 0 || max == 0 {
                None
            } else {
                Some((texture, max as u32))
            },
        },
    }
}

/// `{n}.png` with `n` a run of ASCII digits (leading zeros allowed) naming a
/// positive `u32`: the number `n`; otherwise `None`.
pub open spec fn frame_file_index(name: Seq<char>) -> Option<u32> {
    let suffix = ".png"@;
    if suffix.len() <= name.len() && name.subrange(name.len() - suffix.len(), name.len() as int)
        == suffix {
        let stem = name.subrange(0, name.len() - suffix.len());
        if stem.len() == 0 || !all_digits(stem) {
            None
        } else {
            match parse_unsigned(stem, u32::MAX as nat) {
                None => None,
                Some(n) => if n == 0 {
                    None
                } else {
                    Some(n as u32)
                },
            }
        }
    } else {
        None
    }
}

/// `idle_8` gives `("idle", 8)`; only the last `_{number}` is the count.
pub fn parse_leaf_dir_name(dir_name: &str) -> (r: Option<(String, u32)>)
    ensures
        match leaf_dir_name(dir_name@) {
            Some((texture, max)) => r matches Some((t, m)) && t@ == texture && m == max,
            None => r is None,
        },
{
    let (texture, count) = match rsplit_once(dir_name, '_') {
        Some(parts) => parts,
        None => return None,
    };
    let max = match parse_u32(count) {
        Some(max) => max,
        None => return None,
    };
    if texture.is_empty() || max == 0 {
        return None;
    }
    Some((texture.to_owned(), max))
}

/// `1.png` and `001.png` both give `1`.
pub fn parse_frame_file_name(file_name: &str) -> (r: Option<u32>)
    ensures
        r == frame_file_index(file_name@),
{
    let stem = match strip_suffix(file_name, ".png") {
        Some(stem) => stem,
        None => return None,
    };
    if stem.is_empty() || !is_all_digits(stem) {
        return None;
    }
    match parse_u32(stem) {
        Some(index) => if index == 0 {
            None
        } else {
            Some(index)
        },
        None => None,
    }
}

// ---------------------------------------------------------------------------
// Folder listings
// ---------------------------------------------------------------------------

pub open spec fn is_png(f: SourceFile) -> bool {
    f.extension matches Some(ext) && ext@ == "png"@
}

/// The first problem met while going through a listing in order: an entry
/// that could not be read, or a file that is not a png.
pub open spec fn listing_error(dir: Seq<char>, entries: Seq<SourceEntry>) -> Option<BuildError>
    decreases entries.len(),
{
    if entries.len() == 0 {
        None
    } else {
        match listing_error(dir, entries.drop_last()) {
            Some(e) => Some(e),
            None => match entries.last() {
                SourceEntry::Unreadable(source) => Some(BuildError::ReadEntry { dir, source }),
                SourceEntry::File(f) => if is_png(f) {
                    None
                } else {
                    Some(BuildError::UnexpectedFile { path: f.path@ })
                },
                _ => None,
            },
        }
    }
}

/// The png files of a listing, in order.
pub open spec fn pngs_of(entries: Seq<SourceEntry>) -> Seq<SourceFile>
    decreases entries.len(),
{
    if entries.len() == 0 {
        Seq::empty()
    } else {
        let before = pngs_of(entries.drop_last());
        match entries.last() {
            SourceEntry::File(f) => if is_png(f) {
                before.push(f)
            } else {
                before
            },
            _ => before,
        }
    }
}

/// The subfolders of a listing, in order.
pub open spec fn dirs_of(entries: Seq<SourceEntry>) -> Seq<SourceDir>
    decreases entries.len(),
{
    if entries.len() == 0 {
        Seq::empty()
    } else {
        let before = dirs_of(entries.drop_last());
        match entries.last() {
            SourceEntry::Dir(d) => before.push(d),
            _ => before,
        }
    }
}

pub proof fn lemma_dirs_of_member(entries: Seq<SourceEntry>, k: int) -> (j: int)
    requires
        0 <= k < dirs_of(entries).len(),
    ensures
        0 <= j < entries.len(),
        entries[j] == SourceEntry::Dir(dirs_of(entries)[k]),
    decreases entries.len(),
{
    let before = dirs_of(entries.drop_last());
    if k < before.len() {
        let j = lemma_dirs_of_member(entries.drop_last(), k);
        assert(entries[j] == entries.drop_last()[j]);
        j
    } else {
        entries.len() - 1
    }
}

proof fn lemma_listing_error_prefix(dir: Seq<char>, s: Seq<SourceEntry>, i: int)
    requires
        0 <= i <= s.len(),
        listing_error(dir, s.take(i)) is Some,
    ensures
        listing_error(dir, s) == listing_error(dir, s.take(i)),
    decreases s.len(),
{
    if i == s.len() {
        assert(s.take(i) =~= s);
    } else {
        assert(s.drop_last().take(i) =~= s.take(i));
        lemma_listing_error_prefix(dir, s.drop_last(), i);
    }
}

/// Sorts a folder's entries into png files and subfolders, stopping at the
/// first unreadable entry or non-png file.
fn list_dir(dir: &String, entries: Vec<SourceEntry>) -> (r: Result<
    (Vec<SourceFile>, Vec<SourceDir>),
    GutzAtlasBuildError,
>)
    ensures
        match listing_error(dir@, entries@) {
            Some(e) => r matches Err(x) && x@ == e,
            None => r matches Ok((files, dirs)) && files@ == pngs_of(entries@) && dirs@ == dirs_of(
                entries@,
            ),
        },
{
    let ghost all = entries@;
    let total = entries.len();
    assert(all.len() == total);
    let mut rest = entries;
    let mut files: Vec<SourceFile> = Vec::new();
    let mut dirs: Vec<SourceDir> = Vec::new();
    let mut i: usize = 0;
    while rest.len() > 0
        invariant
            all == entries@,
            i <= all.len(),
            all.len() <= usize::MAX,
            all.len() == i + rest.len(),
            rest@ == all.skip(i as int),
            listing_error(dir@, all.take(i as int)) is None,
            files@ == pngs_of(all.take(i as int)),
            dirs@ == dirs_of(all.take(i as int)),
        decreases rest.len(),
    {
        let entry = rest.remove(0);
        assert(all.take(i + 1).drop_last() =~= all.take(i as int));
        assert(all.take(i + 1).last() == all[i as int]);
        assert(entry == all[i as int]);
        match entry {
            SourceEntry::Unreadable(source) => {
                proof {
                    assert(listing_error(dir@, all.take(i + 1)) == Some(
                        BuildError::ReadEntry { dir: dir@, source },
                    ));
                    lemma_listing_error_prefix(dir@, all, i + 1);
                    assert(all == entries@);
                }
                let d = dir.clone();
                let err = GutzAtlasBuildError::ReadEntry { dir: d, source };
                assert(err@ == BuildError::ReadEntry { dir: dir@, source });
                return Err(err);
            },
            SourceEntry::Dir(d) => {
                dirs.push(d);
            },
            SourceEntry::File(f) => {
                let png = match &f.extension {
                    Some(ext) => str_eq(ext.as_str(), "png"),
                    None => false,
                };
                if png {
                    files.push(f);
                } else {
                    proof {
                        assert(!is_png(f));
                        assert(listing_error(dir@, all.take(i + 1)) == Some(
                            BuildError::UnexpectedFile { path: f.path@ },
                        ));
                        lemma_listing_error_prefix(dir@, all, i + 1);
                    }
                    return Err(GutzAtlasBuildError::UnexpectedFile { path: f.path });
                }
            },
            SourceEntry::Other => {},
        }
        i = i + 1;
        assert(rest@ =~= all.skip(i as int));
    }
    assert(all.take(i as int) =~= all);
    Ok((files, dirs))
}

// ---------------------------------------------------------------------------
// Leaf folders
// ---------------------------------------------------------------------------

/// The frame files of a leaf, each with the number its name declares; the
/// first file whose name is not UTF-8 or not `{n}.png` is an error.
pub open spec fn frames_of(files: Seq<SourceFile>) -> Result<Seq<FrameFile>, BuildError>
    decreases files.len(),
{
    if files.len() == 0 {
        Ok(Seq::empty())
    } else {
        match frames_of(files.drop_last()) {
            Err(e) => Err(e),
            Ok(before) => {
                let f = files.last();
                match f.file_name {
                    None => Err(BuildError::NonUtf8FileName { path: f.path@ }),
                    Some(name) => match frame_file_index(name@) {
                        None => Err(BuildError::MalformedFrameFileName { path: f.path@ }),
                        Some(index) => Ok(
                            before.push(FrameFile { index, path: f.path, image: f.image }),
                        ),
                    },
                }
            },
        }
    }
}

proof fn lemma_frames_of_prefix(s: Seq<SourceFile>, i: int)
    requires
        0 <= i <= s.len(),
        frames_of(s.take(i)) is Err,
    ensures
        frames_of(s) == frames_of(s.take(i)),
    decreases s.len(),
{
    if i == s.len() {
        assert(s.take(i) =~= s);
    } else {
        assert(s.drop_last().take(i) =~= s.take(i));
        lemma_frames_of_prefix(s.drop_last(), i);
    }
}

/// What a folder found to hold png files becomes: one texture group, or why
/// it cannot be one.
pub open spec fn finish_leaf_spec(
    dir: Seq<char>,
    own_name: Option<Seq<char>>,
    parent_segments: Seq<Seq<char>>,
    at_root: bool,
    files: Seq<SourceFile>,
) -> Result<GroupView, BuildError> {
    if at_root {
        Err(BuildError::ImagesDirectlyUnderRoot { dir })
    } else {
        match own_name {
            None => Err(BuildError::NonUtf8DirName { dir }),
            Some(name) => match leaf_dir_name(name) {
                None => Err(BuildError::MalformedLeafDirName { dir }),
                Some((texture, max)) => match frames_of(files) {
                    Err(e) => Err(e),
                    Ok(frames) => Ok(
                        GroupView { segments: parent_segments.push(texture), max, files: frames },
                    ),
                },
            },
        }
    }
}

fn frame_files(files: Vec<SourceFile>) -> (r: Result<Vec<FrameFile>, GutzAtlasBuildError>)
    ensures
        match frames_of(files@) {
            Ok(frames) => r matches Ok(v) && v@ == frames,
            Err(e) => r matches Err(x) && x@ == e,
        },
{
    let ghost all = files@;
    let total = files.len();
    assert(all.len() == total);
    let mut rest = files;
    let mut out: Vec<FrameFile> = Vec::new();
    let mut i: usize = 0;
    while rest.len() > 0
        invariant
            all == files@,
            i <= all.len(),
            all.len() <= usize::MAX,
            all.len() == i + rest.len(),
            rest@ == all.skip(i as int),
            frames_of(all.take(i as int)) == Ok::<Seq<FrameFile>, BuildError>(out@),
        decreases rest.len(),
    {
        let f = rest.remove(0);
        assert(all.take(i + 1).drop_last() =~= all.take(i as int));
        assert(all.take(i + 1).last() == all[i as int]);
        assert(f == all[i as int]);
        let index = match &f.file_name {
            None => {
                proof {
                    lemma_frames_of_prefix(all, i + 1);
                }
                return Err(GutzAtlasBuildError::NonUtf8FileName { path: f.path });
            },
            Some(name) => match parse_frame_file_name(name.as_str()) {
                None => {
                    proof {
                        lemma_frames_of_prefix(all, i + 1);
                    }
                    return Err(GutzAtlasBuildError::MalformedFrameFileName { path: f.path });
                },
                Some(index) => index,
            },
        };
        out.push(FrameFile { index, path: f.path, image: f.image });
        i = i + 1;
        assert(rest@ =~= all.skip(i as int));
    }
    assert(all.take(i as int) =~= all);
    Ok(out)
}

/// The strings of `v`, copied.
pub fn clone_strings(v: &Vec<String>) -> (r: Vec<String>)
    ensures
        r@ == v@,
{
    let mut r: Vec<String> = Vec::new();
    let mut i: usize = 0;
    while i < v.len()
        invariant
            i <= v.len(),
            r@ == v@.take(i as int),
        decreases v.len() - i,
    {
        r.push(v[i].clone());
        assert(r@ =~= v@.take(i + 1));
        i = i + 1;
    }
    assert(v@.take(i as int) =~= v@);
    r
}

pub fn finish_leaf(
    dir: String,
    own_name: Option<String>,
    parent_segments: &Vec<String>,
    at_root: bool,
    png_files: Vec<SourceFile>,
    groups: &mut Vec<TextureGroup>,
) -> (r: Result<(), GutzAtlasBuildError>)
    ensures
        match finish_leaf_spec(
            dir@,
            opt_string_view(own_name),
            strings_view(parent_segments@),
            at_root,
            png_files@,
        ) {
            Ok(g) => r is Ok && groups_view(final(groups)@) == groups_view(old(groups)@).push(g),
            Err(e) => r matches Err(x) && x@ == e,
        },
        r is Err ==> final(groups)@ == old(groups)@,
        r is Ok ==> final(groups)@.drop_last() == old(groups)@,
{
    if at_root {
        return Err(GutzAtlasBuildError::ImagesDirectlyUnderRoot { dir });
    }
    let dir_name = match own_name {
        Some(name) => name,
        None => return Err(GutzAtlasBuildError::NonUtf8DirName { dir }),
    };
    let (texture, max) = match parse_leaf_dir_name(dir_name.as_str()) {
        Some(parsed) => parsed,
        None => return Err(GutzAtlasBuildError::MalformedLeafDirName { dir }),
    };
    let files = frame_files(png_files)?;
    let mut segments = clone_strings(parent_segments);
    segments.push(texture);
    let group = TextureGroup { segments, max, files };
    groups.push(group);
    assert(groups@.drop_last() =~= old(groups)@);
    proof {
        assert(strings_view(group.segments@) =~= strings_view(parent_segments@).push(texture@));
        assert(groups_view(groups@) =~= groups_view(old(groups)@).push(group@));
    }
    Ok(())
}

// ---------------------------------------------------------------------------
// Walking the tree
// ---------------------------------------------------------------------------

pub open spec fn n_subdirs(dir: SourceDir) -> nat {
    match dir.entries {
        Ok(v) => dirs_of(v@).len(),
        Err(_) => 0,
    }
}

/// The texture groups found under `dir`, in walk order, or the first problem
/// met. `own_name` is the folder's name (`None` at the root), `parent_segments`
/// the namespace path above it.
pub open spec fn walk_spec(
    dir: SourceDir,
    own_name: Option<Seq<char>>,
    parent_segments: Seq<Seq<char>>,
    at_root: bool,
) -> Result<Seq<GroupView>, BuildError>
    decreases dir, n_subdirs(dir) + 1,
{
    match dir.entries {
        Err(source) => Err(BuildError::ReadDir { path: dir.path@, source }),
        Ok(v) => match listing_error(dir.path@, v@) {
            Some(e) => Err(e),
            None => {
                let files = pngs_of(v@);
                let subdirs = dirs_of(v@);
                if files.len() > 0 && subdirs.len() > 0 {
                    Err(BuildError::MixedLeafAndNamespace { dir: dir.path@ })
                } else if files.len() > 0 {
                    match finish_leaf_spec(dir.path@, own_name, parent_segments, at_root, files) {
                        Ok(g) => Ok(seq![g]),
                        Err(e) => Err(e),
                    }
                } else {
                    let segments = match own_name {
                        Some(name) => parent_segments.push(name),
                        None => parent_segments,
                    };
                    walk_subdirs_spec(dir, segments, 0)
                }
            },
        },
    }
}

/// The groups found under the subfolders of `dir` from the `k`-th on.
pub open spec fn walk_subdirs_spec(dir: SourceDir, segments: Seq<Seq<char>>, k: int) -> Result<
    Seq<GroupView>,
    BuildError,
>
    decreases dir, n_subdirs(dir) - k,
{
    match dir.entries {
        Err(_) => Ok(Seq::empty()),
        Ok(v) => {
            let subdirs = dirs_of(v@);
            if 0 <= k < subdirs.len() {
                let d = subdirs[k];
                proof {
                    let j = lemma_dirs_of_member(v@, k);
                    assert(decreases_to!(dir => v));
                    assert(decreases_to!(v => v@));
                    assert(decreases_to!(v@ => v@[j]));
                    assert(decreases_to!(v@[j] => v@[j]->Dir_0));
                    assert(decreases_to!(dir => d));
                }
                let here = match d.name {
                    None => Err(BuildError::NonUtf8DirName { dir: d.path@ }),
                    Some(name) => walk_spec(d, Some(name@), segments, false),
                };
                match here {
                    Err(e) => Err(e),
                    Ok(groups) => match walk_subdirs_spec(dir, segments, k + 1) {
                        Err(e) => Err(e),
                        Ok(rest) => Ok(groups + rest),
                    },
                }
            } else {
                Ok(Seq::empty())
            }
        },
    }
}

/// The walk of `dir` fails on `dir` itself, before any subfolder is
/// visited: it cannot be listed, its listing fails, it mixes image files and
/// subfolders, or it is a leaf that cannot be read as one.
pub open spec fn fails_at_dir(
    dir: SourceDir,
    own_name: Option<Seq<char>>,
    parent_segments: Seq<Seq<char>>,
    at_root: bool,
) -> bool {
    match dir.entries {
        Err(_) => true,
        Ok(v) => match listing_error(dir.path@, v@) {
            Some(_) => true,
            None => {
                let files = pngs_of(v@);
                let subdirs = dirs_of(v@);
                (files.len() > 0 && subdirs.len() > 0) || (files.len() > 0 && finish_leaf_spec(
                    dir.path@,
                    own_name,
                    parent_segments,
                    at_root,
                    files,
                ) is Err)
            },
        },
    }
}

pub open spec fn prepend(
    before: Seq<GroupView>,
    r: Result<Seq<GroupView>, BuildError>,
) -> Result<Seq<GroupView>, BuildError> {
    match r {
        Ok(rest) => Ok(before + rest),
        Err(e) => Err(e),
    }
}

pub fn walk(
    dir: SourceDir,
    own_name: Option<String>,
    parent_segments: &Vec<String>,
    at_root: bool,
    groups: &mut Vec<TextureGroup>,
) -> (r: Result<(), GutzAtlasBuildError>)
    ensures
        match walk_spec(dir, opt_string_view(own_name), strings_view(parent_segments@), at_root) {
            Ok(gs) => r is Ok && groups_view(final(groups)@) == groups_view(old(groups)@) + gs,
            Err(e) => r matches Err(x) && x@ == e,
        },
        old(groups)@.is_prefix_of(final(groups)@),
        fails_at_dir(dir, opt_string_view(own_name), strings_view(parent_segments@), at_root)
            ==> final(groups)@ == old(groups)@,
    decreases dir,
{
    let ghost whole = dir;
    let SourceDir { path, name: _, entries } = dir;
    let entries = match entries {
        Ok(v) => v,
        Err(source) => {
            return Err(GutzAtlasBuildError::ReadDir { path, source });
        },
    };
    let ghost listed = entries;
    let (png_files, subdirs) = list_dir(&path, entries)?;
    if png_files.len() > 0 && subdirs.len() > 0 {
        return Err(GutzAtlasBuildError::MixedLeafAndNamespace { dir: path });
    }
    if png_files.len() > 0 {
        let ghost before = groups@;
        let r = finish_leaf(path, own_name, parent_segments, at_root, png_files, groups);
        proof {
            if r is Ok {
                assert forall|i: int| 0 <= i < before.len() implies groups@[i] == before[i] by {
                    assert(groups@.drop_last()[i] == groups@[i]);
                }
            }
            if r is Ok {
                let g = finish_leaf_spec(
                    whole.path@,
                    opt_string_view(own_name),
                    strings_view(parent_segments@),
                    at_root,
                    pngs_of(listed@),
                )->Ok_0;
                assert(groups_view(groups@) =~= groups_view(before) + seq![g]);
            }
        }
        return r;
    }
    let mut segments = clone_strings(parent_segments);
    match own_name {
        Some(name) => {
            segments.push(name);
        },
        None => {},
    }
    let ghost segs = strings_view(segments@);
    proof {
        assert(segs =~= match opt_string_view(own_name) {
            Some(name) => strings_view(parent_segments@).push(name),
            None => strings_view(parent_segments@),
        });
    }
    let ghost start = groups@;
    let n_sub = subdirs.len();
    proof {
        assert(walk_spec(dir, opt_string_view(own_name), strings_view(parent_segments@), at_root)
            == walk_subdirs_spec(whole, segs, 0));
        assert(groups_view(groups@).skip(groups_view(start).len() as int) =~= Seq::<GroupView>::empty());
        assert(groups_view(groups@).subrange(0, groups_view(start).len() as int) =~= groups_view(start));
        match walk_subdirs_spec(whole, segs, 0) {
            Ok(x) => { assert(Seq::<GroupView>::empty() + x =~= x); },
            Err(_) => {},
        }
    }
    assert(!fails_at_dir(dir, opt_string_view(own_name), strings_view(parent_segments@), at_root));
    let mut rest = subdirs;
    let mut k: usize = 0;
    while rest.len() > 0
        invariant
            whole == dir,
            whole.entries == Ok::<Vec<SourceEntry>, std::io::Error>(listed),
            walk_spec(dir, opt_string_view(own_name), strings_view(parent_segments@), at_root)
                == walk_subdirs_spec(whole, segs, 0),
            dirs_of(listed@).len() == n_sub,
            n_sub == k + rest.len(),
            k <= dirs_of(listed@).len(),
            rest@ == dirs_of(listed@).skip(k as int),
            segs == strings_view(segments@),
            walk_subdirs_spec(whole, segs, 0) == prepend(
                groups_view(groups@).skip(groups_view(start).len() as int),
                walk_subdirs_spec(whole, segs, k as int),
            ),
            groups_view(groups@).subrange(0, groups_view(start).len() as int) == groups_view(
                start,
            ),
            groups_view(start).len() <= groups_view(groups@).len(),
            start == old(groups)@,
            start.is_prefix_of(groups@),
            !fails_at_dir(dir, opt_string_view(own_name), strings_view(parent_segments@), at_root),
        decreases rest.len(),
    {
        let d = rest.remove(0);
        assert(d == dirs_of(listed@)[k as int]);
        proof {
            let j = lemma_dirs_of_member(listed@, k as int);
            assert(decreases_to!(whole => whole.entries));
            assert(decreases_to!(whole.entries => listed));
            assert(decreases_to!(listed => listed@));
            assert(decreases_to!(listed@ => listed@[j]));
            assert(decreases_to!(listed@[j] => listed@[j]->Dir_0));
            assert(decreases_to!(whole => d));
        }
        let own = match &d.name {
            Some(name) => name.clone(),
            None => {
                return Err(GutzAtlasBuildError::NonUtf8DirName { dir: d.path });
            },
        };
        let ghost before = groups@;
        let ghost dv = d;
        let step = walk(d, Some(own), &segments, false, groups);
        proof {
            assert(start.is_prefix_of(groups@)) by {
                assert forall|i: int| 0 <= i < start.len() implies groups@[i] == start[i] by {
                    assert(before[i] == start[i]);
                }
            }
        }
        step?;
        proof {
            let gs = walk_spec(dv, Some(own@), segs, false)->Ok_0;
            let n0 = groups_view(start).len() as int;
            assert(groups_view(groups@) == groups_view(before) + gs);
            assert(groups_view(groups@).skip(n0) =~= groups_view(before).skip(n0) + gs);
            assert(groups_view(groups@).subrange(0, n0) =~= groups_view(before).subrange(0, n0));
            let acc = groups_view(before).skip(n0);
            match walk_subdirs_spec(whole, segs, k + 1) {
                Ok(more) => {
                    assert(acc + (gs + more) =~= (acc + gs) + more);
                },
                Err(_) => {},
            }
        }
        k = k + 1;
        assert(rest@ =~= dirs_of(listed@).skip(k as int));
    }
    proof {
        let n0 = groups_view(start).len() as int;
        assert(groups_view(groups@) =~= groups_view(start) + groups_view(groups@).skip(n0));
        assert(groups_view(groups@).skip(n0) + Seq::empty() =~= groups_view(groups@).skip(n0));
    }
    Ok(())
}

/// The texture groups of the whole tree, or the first problem met; a tree
/// without any texture is a problem too.
pub open spec fn collect_groups_spec(root: SourceDir) -> Result<Seq<GroupView>, BuildError> {
    match walk_spec(root, None, Seq::empty(), true) {
        Err(e) => Err(e),
        Ok(groups) => if groups.len() == 0 {
            Err(BuildError::NoTextures { src_dir: root.path@ })
        } else {
            Ok(groups)
        },
    }
}

pub fn collect_groups(root: SourceDir) -> (r: Result<Vec<TextureGroup>, GutzAtlasBuildError>)
    ensures
        match collect_groups_spec(root) {
            Ok(gs) => r matches Ok(v) && groups_view(v@) == gs,
            Err(e) => r matches Err(x) && x@ == e,
        },
{
    let src_dir = root.path.clone();
    let mut groups: Vec<TextureGroup> = Vec::new();
    let no_segments: Vec<String> = Vec::new();
    proof {
        assert(strings_view(no_segments@) =~= Seq::<Seq<char>>::empty());
        assert(groups_view(groups@) =~= Seq::<GroupView>::empty());
    }
    walk(root, None, &no_segments, true, &mut groups)?;
    proof {
        assert(groups_view(groups@) =~= Seq::<GroupView>::empty() + groups_view(groups@));
    }
    if groups.len() == 0 {
        return Err(GutzAtlasBuildError::NoTextures { src_dir });
    }
    Ok(groups)
}

proof fn lemma_walk_declares_frames(
    dir: SourceDir,
    own_name: Option<Seq<char>>,
    parent_segments: Seq<Seq<char>>,
    at_root: bool,
)
    ensures
        walk_spec(dir, own_name, parent_segments, at_root) matches Ok(gs) ==> forall|k: int|
            0 <= k < gs.len() ==> (#[trigger] gs[k]).max >= 1,
    decreases dir, n_subdirs(dir) + 1,
{
    match dir.entries {
        Err(_) => {},
        Ok(v) => {
            if listing_error(dir.path@, v@) is None {
                let files = pngs_of(v@);
                let subdirs = dirs_of(v@);
                if !(files.len() > 0 && subdirs.len() > 0) && files.len() == 0 {
                    let segments = match own_name {
                        Some(name) => parent_segments.push(name),
                        None => parent_segments,
                    };
                    lemma_walk_subdirs_declare_frames(dir, segments, 0);
                }
            }
        },
    }
}

proof fn lemma_walk_subdirs_declare_frames(dir: SourceDir, segments: Seq<Seq<char>>, k: int)
    ensures
        walk_subdirs_spec(dir, segments, k) matches Ok(gs) ==> forall|i: int|
            0 <= i < gs.len() ==> (#[trigger] gs[i]).max >= 1,
    decreases dir, n_subdirs(dir) - k,
{
    match dir.entries {
        Err(_) => {},
        Ok(v) => {
            let subdirs = dirs_of(v@);
            if 0 <= k < subdirs.len() {
                let d = subdirs[k];
                let j = lemma_dirs_of_member(v@, k);
                assert(decreases_to!(dir => v));
                assert(decreases_to!(v => v@));
                assert(decreases_to!(v@ => v@[j]));
                assert(decreases_to!(v@[j] => v@[j]->Dir_0));
                assert(decreases_to!(dir => d));
                if let Some(name) = d.name {
                    lemma_walk_declares_frames(d, Some(name@), segments, false);
                }
                lemma_walk_subdirs_declare_frames(dir, segments, k + 1);
                match walk_subdirs_spec(dir, segments, k) {
                    Ok(gs) => {
                        let here = walk_spec(d, Some(d.name->Some_0@), segments, false)->Ok_0;
                        let rest = walk_subdirs_spec(dir, segments, k + 1)->Ok_0;
                        assert(gs == here + rest);
                        assert forall|i: int| 0 <= i < gs.len() implies (#[trigger] gs[i]).max
                            >= 1 by {
                            if i < here.len() {
                                assert(gs[i] == here[i]);
                            } else {
                                assert(gs[i] == rest[i - here.len()]);
                            }
                        }
                    },
                    Err(_) => {},
                }
            }
        },
    }
}

/// Every texture group found declares at least one frame.
pub proof fn lemma_collected_groups_declare_frames(root: SourceDir)
    ensures
        collect_groups_spec(root) matches Ok(gs) ==> forall|k: int|
            0 <= k < gs.len() ==> (#[trigger] gs[k]).max >= 1,
{
    lemma_walk_declares_frames(root, None, Seq::empty(), true);
}

/// Splitting at the last `c` a text that ends with `c` and then a tail free
/// of `c` gives the head and that tail.
proof fn lemma_split_at_last_tail(head: Seq<char>, c: char, tail: Seq<char>)
    requires
        !tail.contains(c),
    ensures
        split_at_last(head + seq![c] + tail, c) == Some((head, tail)),
    decreases tail.len(),
{
    let s = head + seq![c] + tail;
    if tail.len() == 0 {
        assert(s =~= head.push(c));
        assert(s.drop_last() =~= head);
    } else {
        assert(s.drop_last() =~= head + seq![c] + tail.drop_last());
        assert(tail.drop_last().len() < tail.len());
        assert(!tail.drop_last().contains(c)) by {
            if tail.drop_last().contains(c) {
                let i = choose|i: int| 0 <= i < tail.drop_last().len() && tail.drop_last()[i] == c;
                assert(tail[i] == c);
            }
        }
        lemma_split_at_last_tail(head, c, tail.drop_last());
        assert(s.last() == tail.last());
        assert(tail.last() != c) by {
            assert(tail[tail.len() - 1] == tail.last());
        }
        assert(tail.drop_last().push(tail.last()) =~= tail);
    }
}

/// The name of a frame file reads back as its number: `{n}.png` gives `n`
/// for every positive `n`.
pub proof fn law_frame_name_round_trip(n: u32)
    requires
        n >= 1,
    ensures
        frame_file_index(decimal(n as nat) + ".png"@) == Some(n),
{
    reveal_strlit(".png");
    let d = decimal(n as nat);
    let name = d + ".png"@;
    lemma_decimal_digits(n as nat);
    lemma_parse_decimal(n as nat, u32::MAX as nat);
    assert(name.subrange(name.len() - 4, name.len() as int) =~= ".png"@);
    assert(name.subrange(0, name.len() - 4) =~= d);
}

/// A leaf folder named `{texture}_{max}` reads back as that texture and
/// count, for every non-empty texture name (underscores in it included) and
/// positive count.
pub proof fn law_leaf_dir_name_round_trip(texture: Seq<char>, max: u32)
    requires
        texture.len() > 0,
        max >= 1,
    ensures
        leaf_dir_name(texture + "_"@ + decimal(max as nat)) == Some((texture, max)),
{
    reveal_strlit("_");
    let d = decimal(max as nat);
    lemma_decimal_digits(max as nat);
    lemma_parse_decimal(max as nat, u32::MAX as nat);
    assert(!d.contains('_')) by {
        if d.contains('_') {
            let i = choose|i: int| 0 <= i < d.len() && d[i] == '_';
            assert(is_digit(d[i]));
        }
    }
    assert("_"@ =~= seq!['_']);
    lemma_split_at_last_tail(texture, '_', d);
}

} // verus!
