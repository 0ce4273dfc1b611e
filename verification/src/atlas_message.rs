//! The report text of each atlas build error.
use crate::atlas_build::{BuildError, GutzAtlasBuildError};
use crate::text::{decimal, join, u32_text};
use vstd::prelude::*;

verus! {

/// `n.png, m.png, ...` for the numbers `ns`.
pub open spec fn frame_names(ns: Seq<u32>) -> Seq<char> {
    join(ns.map_values(|n: u32| decimal(n as nat) + ".png"@), ", "@)
}

/// The explanation of a frame-number mismatch: what is missing, then what
/// lies beyond the declaration.
pub open spec fn index_detail(missing: Seq<u32>, extra: Seq<u32>) -> Seq<char> {
    (if missing.len() > 0 {
        "不足（中落ちまたは末尾欠け）: "@ + frame_names(missing) + "。"@
    } else {
        Seq::empty()
    }) + (if extra.len() > 0 {
        "宣言を超える番号: "@ + frame_names(extra) + "。"@
    } else {
        Seq::empty()
    })
}

/// The report text of an error; for errors caused by an I/O or decoding
/// failure, the text that precedes that failure's own description.
pub open spec fn message_spec(e: BuildError) -> Seq<char> {
    match e {
        BuildError::ReadDir { path, .. } => path + "を読み取れません: "@,
        BuildError::ReadEntry { dir, .. } => dir + "の走査に失敗: "@,
        BuildError::UnexpectedFile { path } => path + ": png以外のファイルが混じっています"@,
        BuildError::MixedLeafAndNamespace { dir } => dir
            + ": 画像ファイルとサブフォルダが同じフォルダに混在しています（このフォルダは`{texture名}_{最大枚数}`という連番画像フォルダか、サブフォルダだけを持つネームスペースフォルダのどちらかである必要があります）"@,
        BuildError::ImagesDirectlyUnderRoot { dir } => dir
            + ": ルート直下に画像を直接置くことはできません。`{texture名}_{最大枚数}/`という名前のサブフォルダを作り、その中に画像を置いてください"@,
        BuildError::NonUtf8DirName { dir } => dir + ": フォルダ名がUTF-8ではありません"@,
        BuildError::MalformedLeafDirName { dir } => dir
            + ": フォルダ名が命名規約 `{texture名}_{最大枚数}` に一致しません"@,
        BuildError::NonUtf8FileName { path } => path + ": ファイル名がUTF-8ではありません"@,
        BuildError::MalformedFrameFileName { path } => path
            + ": ファイル名が命名規約 `{番号}.png` に一致しません"@,
        BuildError::DuplicateIndex { texture_name, index, first, second } => "texture `"@
            + texture_name + "`: 番号"@ + decimal(index as nat) + "が重複しています（"@ + first
            + "と"@ + second + "）"@,
        BuildError::IndexSetMismatch { texture_name, declared_max, missing, extra } =>
            "texture `"@ + texture_name + "`: 番号の集合がフォルダ名の宣言（1..="@ + decimal(
            declared_max as nat,
        ) + "）と一致しません。"@ + index_detail(missing, extra),
        BuildError::FrameSizeMismatch {
            texture_name,
            first_width,
            first_height,
            path,
            width,
            height,
        } => "texture `"@ + texture_name + "`: フレームサイズが一致しません（1番目は"@ + decimal(
            first_width as nat,
        ) + "x"@ + decimal(first_height as nat) + "だが"@ + path + "は"@ + decimal(width as nat)
            + "x"@ + decimal(height as nat) + "）"@,
        BuildError::OpenImage { path, .. } => path + ": 読み込みに失敗: "@,
        BuildError::NoTextures { src_dir } => src_dir
            + ": 命名規約に沿ったtextureフォルダが1つもありません"@,
    }
}

/// The error carries the description of an I/O or decoding failure.
pub open spec fn has_source(e: BuildError) -> bool {
    e is ReadDir || e is ReadEntry || e is OpenImage
}

/// The description of an I/O error, as its `Display` writes it.
#[verifier::external_body]
fn io_error_text(e: &std::io::Error) -> String {
    e.to_string()
}

/// The description of an image decoding error, as its `Display` writes it.
#[verifier::external_body]
fn image_error_text(e: &image::ImageError) -> String {
    e.to_string()
}

fn frame_names_text(ns: &Vec<u32>) -> (r: String)
    ensures
        r@ == frame_names(ns@),
{
    let ghost parts = ns@.map_values(|n: u32| decimal(n as nat) + ".png"@);
    let mut r = String::new();
    let mut i: usize = 0;
    while i < ns.len()
        invariant
            parts == ns@.map_values(|n: u32| decimal(n as nat) + ".png"@),
            i <= ns@.len(),
            r@ == join(parts.take(i as int), ", "@),
        decreases ns@.len() - i,
    {
        if i != 0 {
            r.append(", ");
        }
        let number = u32_text(ns[i]);
        r.append(number.as_str());
        r.append(".png");
        assert(parts.take(i + 1).drop_last() =~= parts.take(i as int));
        proof {
            if i == 0 {
                assert(parts.take(1) =~= seq![parts[0]]);
            }
        }
        assert(r@ =~= join(parts.take(i + 1), ", "@));
        i = i + 1;
    }
    assert(parts.take(ns@.len() as int) =~= parts);
    r
}

impl GutzAtlasBuildError {
    /// The explanation part of a frame-number mismatch (empty for other errors).
    pub fn detail(&self) -> (r: String)
        ensures
            match self@ {
                BuildError::IndexSetMismatch { missing, extra, .. } => r@ == index_detail(
                    missing,
                    extra,
                ),
                _ => r@ == Seq::<char>::empty(),
            },
    {
        let mut r = String::new();
        match self {
            GutzAtlasBuildError::IndexSetMismatch { missing, extra, .. } => {
                if missing.len() > 0 {
                    r.append("不足（中落ちまたは末尾欠け）: ");
                    let names = frame_names_text(missing);
                    r.append(names.as_str());
                    r.append("。");
                }
                let ghost first = r@;
                if extra.len() > 0 {
                    r.append("宣言を超える番号: ");
                    let names = frame_names_text(extra);
                    r.append(names.as_str());
                    r.append("。");
                }
                assert(r@ =~= index_detail(missing@, extra@));
            },
            _ => {},
        }
        r
    }

    /// The report text. Errors caused by an I/O or decoding failure end with
    /// that failure's own description, as its `Display` writes it.
    pub fn message(&self) -> (r: String)
        ensures
            has_source(self@) ==> message_spec(self@).is_prefix_of(r@),
            !has_source(self@) ==> r@ == message_spec(self@),
    {
        let description = match self {
            GutzAtlasBuildError::ReadDir { source, .. } => io_error_text(source),
            GutzAtlasBuildError::ReadEntry { source, .. } => io_error_text(source),
            GutzAtlasBuildError::OpenImage { source, .. } => image_error_text(source),
            _ => String::new(),
        };
        let r = self.message_with(description.as_str());
        assert(message_spec(self@).is_prefix_of(r@)) by {
            assert(r@.subrange(0, message_spec(self@).len() as int) =~= message_spec(self@));
        }
        r
    }

    /// The report text, with `description` as the description of the I/O or
    /// decoding failure that caused the error (it is not used for other
    /// errors).
    pub fn message_with(&self, description: &str) -> (r: String)
        ensures
            r@ == message_spec(self@) + (if has_source(self@) {
                description@
            } else {
                Seq::<char>::empty()
            }),
    {
        let mut r = String::new();
        match self {
            GutzAtlasBuildError::ReadDir { path, .. } => {
                r.append(path.as_str());
                r.append("を読み取れません: ");
                r.append(description);
            },
            GutzAtlasBuildError::ReadEntry { dir, .. } => {
                r.append(dir.as_str());
                r.append("の走査に失敗: ");
                r.append(description);
            },
            GutzAtlasBuildError::UnexpectedFile { path } => {
                r.append(path.as_str());
                r.append(": png以外のファイルが混じっています");
            },
            GutzAtlasBuildError::MixedLeafAndNamespace { dir } => {
                r.append(dir.as_str());
                r.append(
                    ": 画像ファイルとサブフォルダが同じフォルダに混在しています（このフォルダは`{texture名}_{最大枚数}`という連番画像フォルダか、サブフォルダだけを持つネームスペースフォルダのどちらかである必要があります）",
                );
            },
            GutzAtlasBuildError::ImagesDirectlyUnderRoot { dir } => {
                r.append(dir.as_str());
                r.append(
                    ": ルート直下に画像を直接置くことはできません。`{texture名}_{最大枚数}/`という名前のサブフォルダを作り、その中に画像を置いてください",
                );
            },
            GutzAtlasBuildError::NonUtf8DirName { dir } => {
                r.append(dir.as_str());
                r.append(": フォルダ名がUTF-8ではありません");
            },
            GutzAtlasBuildError::MalformedLeafDirName { dir } => {
                r.append(dir.as_str());
                r.append(": フォルダ名が命名規約 `{texture名}_{最大枚数}` に一致しません");
            },
            GutzAtlasBuildError::NonUtf8FileName { path } => {
                r.append(path.as_str());
                r.append(": ファイル名がUTF-8ではありません");
            },
            GutzAtlasBuildError::MalformedFrameFileName { path } => {
                r.append(path.as_str());
                r.append(": ファイル名が命名規約 `{番号}.png` に一致しません");
            },
            GutzAtlasBuildError::DuplicateIndex { texture_name, index, first, second } => {
                r.append("texture `");
                r.append(texture_name.as_str());
                r.append("`: 番号");
                let number = u32_text(*index);
                r.append(number.as_str());
                r.append("が重複しています（");
                r.append(first.as_str());
                r.append("と");
                r.append(second.as_str());
                r.append("）");
            },
            GutzAtlasBuildError::IndexSetMismatch { texture_name, declared_max, .. } => {
                r.append("texture `");
                r.append(texture_name.as_str());
                r.append("`: 番号の集合がフォルダ名の宣言（1..=");
                let number = u32_text(*declared_max);
                r.append(number.as_str());
                r.append("）と一致しません。");
                let detail = self.detail();
                r.append(detail.as_str());
            },
            GutzAtlasBuildError::FrameSizeMismatch {
                texture_name,
                first_width,
                first_height,
                path,
                width,
                height,
            } => {
                r.append("texture `");
                r.append(texture_name.as_str());
                r.append("`: フレームサイズが一致しません（1番目は");
                let n = u32_text(*first_width);
                r.append(n.as_str());
                r.append("x");
                let n = u32_text(*first_height);
                r.append(n.as_str());
                r.append("だが");
                r.append(path.as_str());
                r.append("は");
                let n = u32_text(*width);
                r.append(n.as_str());
                r.append("x");
                let n = u32_text(*height);
                r.append(n.as_str());
                r.append("）");
            },
            GutzAtlasBuildError::OpenImage { path, .. } => {
                r.append(path.as_str());
                r.append(": 読み込みに失敗: ");
                r.append(description);
            },
            GutzAtlasBuildError::NoTextures { src_dir } => {
                r.append(src_dir.as_str());
                r.append(": 命名規約に沿ったtextureフォルダが1つもありません");
            },
        }
        r
    }
}

} // verus!
