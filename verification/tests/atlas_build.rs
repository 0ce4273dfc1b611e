use bevy_gutzgutz::atlas_build::{
    collect_groups, parse_frame_file_name, parse_leaf_dir_name, GutzAtlasBuildError, SourceDir,
    SourceEntry, SourceFile,
};
use bevy_gutzgutz::atlas_image::{compose_atlas, RgbaFrame};
use bevy_gutzgutz::atlas_pack::{pack, PackPlan};

fn frame(width: u32, height: u32) -> RgbaFrame {
    let mut pixels = Vec::new();
    for _ in 0..(width * height) {
        pixels.extend_from_slice(&[255, 0, 0, 255]);
    }
    RgbaFrame { width, height, pixels }
}

fn png(path: &str, width: u32, height: u32) -> SourceEntry {
    let file_name = path.rsplit('/').next().unwrap().to_string();
    let extension = file_name.rsplit_once('.').map(|(_, e)| e.to_string());
    SourceEntry::File(SourceFile {
        path: path.to_string(),
        file_name: Some(file_name),
        extension,
        image: Ok(frame(width, height)),
    })
}

fn folder(path: &str, entries: Vec<SourceEntry>) -> SourceEntry {
    SourceEntry::Dir(root(path, entries))
}

fn root(path: &str, entries: Vec<SourceEntry>) -> SourceDir {
    let name = path.rsplit('/').next().unwrap().to_string();
    SourceDir { path: path.to_string(), name: Some(name), entries: Ok(entries) }
}

fn leaf(path: &str, numbers: &[u32], width: u32, height: u32) -> SourceEntry {
    let files = numbers.iter().map(|i| png(&format!("{path}/{i}.png"), width, height)).collect();
    folder(path, files)
}

fn error_text(plan: PackPlan) -> String {
    match plan.outcome {
        Ok(_) => panic!("packing was expected to fail"),
        Err(error) => error.message(),
    }
}

#[test]
fn packs_a_nested_complete_sequence() {
    let src = root(
        "src",
        vec![folder(
            "src/character",
            vec![folder("src/character/knight", vec![leaf("src/character/knight/idle_4", &[1, 2, 3, 4], 8, 8)])],
        )],
    );

    let plan = pack(src);

    let manifest = plan.outcome.as_ref().ok().unwrap();
    let entry = manifest.get("character/knight/idle").unwrap();
    assert_eq!(entry.frame_count, 4);
    assert_eq!(entry.image, "character/knight/idle.png");
    assert_eq!(plan.atlases.len(), 1);
    assert_eq!(plan.atlases[0].components, vec!["character", "knight", "idle.png"]);
}

#[test]
fn packs_multiple_sequences_under_the_same_namespace() {
    let src = root(
        "src",
        vec![folder(
            "src/character",
            vec![folder(
                "src/character/knight",
                vec![
                    leaf("src/character/knight/idle_8", &[1, 2, 3, 4, 5, 6, 7, 8], 4, 4),
                    leaf("src/character/knight/walk_6", &[1, 2, 3, 4, 5, 6], 4, 4),
                ],
            )],
        )],
    );

    let plan = pack(src);

    let manifest = plan.outcome.as_ref().ok().unwrap();
    assert_eq!(manifest.get("character/knight/idle").unwrap().frame_count, 8);
    assert_eq!(manifest.get("character/knight/walk").unwrap().frame_count, 6);
}

#[test]
fn rejects_middle_gap() {
    let src = root("src", vec![folder("src/knight", vec![leaf("src/knight/idle_4", &[1, 2, 4], 8, 8)])]);

    let error = error_text(pack(src));
    assert!(error.contains("3.png"), "error was: {error}");
}

#[test]
fn rejects_trailing_shortfall() {
    let src = root("src", vec![folder("src/knight", vec![leaf("src/knight/idle_5", &[1, 2, 3], 8, 8)])]);

    let error = error_text(pack(src));
    assert!(error.contains("4.png"), "error was: {error}");
    assert!(error.contains("5.png"), "error was: {error}");
}

#[test]
fn rejects_numbers_beyond_declared_max() {
    let src =
        root("src", vec![folder("src/knight", vec![leaf("src/knight/idle_4", &[1, 2, 3, 4, 5], 8, 8)])]);

    let error = error_text(pack(src));
    assert!(error.contains("宣言を超える番号"), "error was: {error}");
    assert!(error.contains("5.png"), "error was: {error}");
}

#[test]
fn rejects_malformed_leaf_dir_name() {
    let src = root("src", vec![folder("src/knight", vec![leaf("src/knight/idle", &[1], 8, 8)])]);

    let error = error_text(pack(src));
    assert!(error.contains("命名規約"), "error was: {error}");
}

#[test]
fn rejects_non_numeric_frame_name() {
    let src = root(
        "src",
        vec![folder(
            "src/knight",
            vec![folder(
                "src/knight/idle_2",
                vec![png("src/knight/idle_2/1.png", 8, 8), png("src/knight/idle_2/a.png", 8, 8)],
            )],
        )],
    );

    let error = error_text(pack(src));
    assert!(error.contains("命名規約"), "error was: {error}");
}

#[test]
fn rejects_size_mismatch() {
    let src = root(
        "src",
        vec![folder(
            "src/knight",
            vec![folder(
                "src/knight/idle_2",
                vec![png("src/knight/idle_2/1.png", 8, 8), png("src/knight/idle_2/2.png", 16, 16)],
            )],
        )],
    );

    let error = error_text(pack(src));
    assert!(error.contains("フレームサイズが一致しません"), "error was: {error}");
}

#[test]
fn rejects_files_and_subdirs_mixed_in_one_folder() {
    let src = root(
        "src",
        vec![folder(
            "src/knight",
            vec![folder(
                "src/knight/idle_1",
                vec![
                    png("src/knight/idle_1/1.png", 8, 8),
                    leaf("src/knight/idle_1/nested_1", &[1], 8, 8),
                ],
            )],
        )],
    );

    let error = error_text(pack(src));
    assert!(error.contains("混在"), "error was: {error}");
}

#[test]
fn rejects_images_directly_under_root() {
    let src = root("src", vec![png("src/1.png", 8, 8)]);

    let error = error_text(pack(src));
    assert!(error.contains("ルート直下"), "error was: {error}");
}

#[test]
fn leaf_dir_names_split_at_the_last_underscore() {
    assert_eq!(parse_leaf_dir_name("idle_8"), Some(("idle".to_string(), 8)));
    assert_eq!(parse_leaf_dir_name("big_idle_12"), Some(("big_idle".to_string(), 12)));
    assert_eq!(parse_leaf_dir_name("idle_0"), None);
    assert_eq!(parse_leaf_dir_name("_3"), None);
    assert_eq!(parse_leaf_dir_name("idle"), None);
    assert_eq!(parse_leaf_dir_name("idle_x"), None);
}

#[test]
fn frame_file_names_are_numbered_pngs() {
    assert_eq!(parse_frame_file_name("1.png"), Some(1));
    assert_eq!(parse_frame_file_name("42.png"), Some(42));
    assert_eq!(parse_frame_file_name("a.png"), None);
    assert_eq!(parse_frame_file_name("1.jpg"), None);
    assert_eq!(parse_frame_file_name(".png"), None);
}

#[test]
fn non_png_files_are_rejected() {
    let src = root(
        "src",
        vec![folder(
            "src/knight",
            vec![folder(
                "src/knight/idle_1",
                vec![png("src/knight/idle_1/1.png", 8, 8), png("src/knight/idle_1/notes.txt", 1, 1)],
            )],
        )],
    );

    match pack(src).outcome {
        Err(GutzAtlasBuildError::UnexpectedFile { path }) => {
            assert_eq!(path, "src/knight/idle_1/notes.txt")
        }
        Err(other) => panic!("unexpected error: {}", other.message()),
        Ok(_) => panic!("packing was expected to fail"),
    }
}

#[test]
fn an_empty_tree_has_no_textures() {
    let src = root("src", vec![]);
    let error = error_text(pack(src));
    assert!(error.contains("命名規約に沿ったtextureフォルダが1つもありません"), "error was: {error}");
}

#[test]
fn duplicate_numbers_are_reported() {
    let src = root(
        "src",
        vec![folder(
            "src/knight",
            vec![folder(
                "src/knight/idle_2",
                vec![
                    png("src/knight/idle_2/1.png", 8, 8),
                    png("src/knight/idle_2/01.png", 8, 8),
                    png("src/knight/idle_2/2.png", 8, 8),
                ],
            )],
        )],
    );
    let error = error_text(pack(src));
    assert!(error.contains("番号1が重複しています"), "error was: {error}");
}

#[test]
fn groups_carry_their_namespace_path() {
    let src = root(
        "src",
        vec![folder("src/ui", vec![leaf("src/ui/button_2", &[2, 1], 4, 4)])],
    );
    let groups = collect_groups(src).ok().unwrap();
    assert_eq!(groups.len(), 1);
    assert_eq!(groups[0].segments, vec!["ui", "button"]);
    assert_eq!(groups[0].max, 2);
}

#[test]
fn frames_are_placed_side_by_side() {
    let mut left = frame(2, 1);
    left.pixels = vec![1, 2, 3, 4, 5, 6, 7, 8];
    let mut right = frame(2, 1);
    right.pixels = vec![9, 10, 11, 12, 13, 14, 15, 16];
    let atlas = compose_atlas(2, 1, &vec![left, right]);
    assert_eq!(atlas.width, 4);
    assert_eq!(atlas.height, 1);
    assert_eq!(atlas.pixels, (1..=16).collect::<Vec<u8>>());
}

#[test]
fn frames_are_ordered_by_number_in_the_atlas() {
    let mut one = frame(1, 1);
    one.pixels = vec![1, 1, 1, 1];
    let mut two = frame(1, 1);
    two.pixels = vec![2, 2, 2, 2];
    let entries = vec![
        SourceEntry::File(SourceFile {
            path: "src/a_2/2.png".to_string(),
            file_name: Some("2.png".to_string()),
            extension: Some("png".to_string()),
            image: Ok(two),
        }),
        SourceEntry::File(SourceFile {
            path: "src/a_2/1.png".to_string(),
            file_name: Some("1.png".to_string()),
            extension: Some("png".to_string()),
            image: Ok(one),
        }),
    ];
    let src = root("src", vec![folder("src/a_2", entries)]);
    let plan = pack(src);
    assert!(plan.outcome.is_ok());
    assert_eq!(plan.atlases[0].image.pixels, vec![1, 1, 1, 1, 2, 2, 2, 2]);
    assert_eq!(plan.atlases[0].components, vec!["a.png"]);
}

#[test]
fn dotted_leaf_names_keep_their_own_atlases() {
    let src = root(
        "src",
        vec![folder(
            "src/knight",
            vec![leaf("src/knight/idle.v1_1", &[1], 2, 2), leaf("src/knight/idle.v2_1", &[1], 2, 2)],
        )],
    );
    let plan = pack(src);
    let manifest = plan.outcome.as_ref().ok().unwrap();
    assert_eq!(manifest.get("knight/idle.v1").unwrap().image, "knight/idle.v1.png");
    assert_eq!(manifest.get("knight/idle.v2").unwrap().image, "knight/idle.v2.png");
    let mut paths: Vec<Vec<String>> = plan.atlases.iter().map(|a| a.components.clone()).collect();
    paths.sort();
    assert_eq!(paths, vec![vec!["knight", "idle.v1.png"], vec!["knight", "idle.v2.png"]]);
}

#[test]
fn manifest_paths_join_the_segments_with_slashes() {
    let src = root(
        "src",
        vec![folder("src/we\\ird", vec![leaf("src/we\\ird/idle_1", &[1], 2, 2)])],
    );
    let plan = pack(src);
    let manifest = plan.outcome.as_ref().ok().unwrap();
    assert_eq!(manifest.get("we\\ird/idle").unwrap().image, "we\\ird/idle.png");
    assert_eq!(plan.atlases[0].components, vec!["we\\ird", "idle.png"]);
}

#[test]
fn io_failures_end_with_their_description() {
    let error = GutzAtlasBuildError::ReadDir {
        path: "src".to_string(),
        source: std::io::Error::new(std::io::ErrorKind::NotFound, "gone"),
    };
    assert_eq!(error.message_with("gone"), "srcを読み取れません: gone");
    assert_eq!(error.message(), "srcを読み取れません: gone");
    let plain = GutzAtlasBuildError::NoTextures { src_dir: "src".to_string() };
    assert_eq!(plain.message_with("ignored"), plain.message());
}
