use bevy_gutzgutz::atlas_manifest::{AtlasEntry, AtlasManifest};
use bevy_gutzgutz::atlas_registry::{next_animation_frame, GutzAtlasRegistry};
use bevy_gutzgutz::save::{load_needed, resolve_save_path, GutzSaveError, GutzSavePlugin};
use bevy_gutzgutz::steam::{record_steam_stats, GutzSteamPlugin, GutzSteamStatus};
use bevy_gutzgutz::devtools::GutzDebugStats;
use std::path::PathBuf;

fn entry(image: &str, frame_count: u32, tile: u32) -> AtlasEntry {
    AtlasEntry {
        image: image.to_string(),
        frame_count,
        tile_width: tile,
        tile_height: tile * 2,
        columns: frame_count,
    }
}

#[test]
fn registry_hands_out_frames_below_the_count() {
    let mut registry = GutzAtlasRegistry::new();
    registry.insert("knight/idle".to_string(), 7u32, entry("knight/idle.png", 4, 16));

    assert_eq!(registry.frame_count("knight/idle"), Some(4));
    assert_eq!(registry.frame_count("knight/walk"), None);
    let cell = registry.frame("knight/idle", 3).unwrap();
    assert_eq!(*cell.image, 7);
    assert_eq!(cell.columns, 4);
    assert_eq!(cell.pixel_rect(), (48, 0, 64, 32));
    assert!(registry.frame("knight/idle", 4).is_none());
    assert!(registry.frame("knight/idel", 0).is_none());
}

#[test]
fn registering_a_name_again_replaces_it() {
    let mut registry = GutzAtlasRegistry::new();
    registry.insert("a".to_string(), 1u8, entry("a.png", 2, 8));
    registry.insert("a".to_string(), 2u8, entry("a.png", 5, 8));
    assert_eq!(registry.frame_count("a"), Some(5));
    assert_eq!(*registry.frame("a", 4).unwrap().image, 2);
}

#[test]
fn animation_wraps_after_the_last_frame() {
    assert_eq!(next_animation_frame(0, 4), 1);
    assert_eq!(next_animation_frame(3, 4), 0);
    assert_eq!(next_animation_frame(0, 0), 0);
    assert_eq!(next_animation_frame(5, 1), 0);
}

#[test]
fn steam_failure_degrades_gracefully() {
    let failed: Result<(), String> = Err("no client".to_string());
    let ok: Result<u8, String> = Ok(1);
    assert_eq!(GutzSteamStatus::after_init(&failed), GutzSteamStatus::Unavailable);
    assert_eq!(GutzSteamStatus::after_init(&ok), GutzSteamStatus::Connected);
    assert_eq!(GutzSteamStatus::default(), GutzSteamStatus::Unavailable);
    assert!(GutzSteamStatus::Connected.is_connected());
    assert!(!GutzSteamStatus::Unavailable.is_connected());
    assert_eq!(GutzSteamPlugin::new(GutzSteamPlugin::DEV_APP_ID).app_id(), 480);

    let mut stats = GutzDebugStats::new();
    record_steam_stats(&mut stats, GutzSteamStatus::Connected);
    assert_eq!(stats.iter(), vec![("Steam", "Connected")]);
}

#[test]
fn missing_location_is_refused_without_fallback() {
    let none: Option<PathBuf> = None;
    assert!(matches!(resolve_save_path(&none), Err(GutzSaveError::LocationUnavailable)));
    let some = Some(PathBuf::from("save.toml"));
    assert_eq!(resolve_save_path(&some).ok(), Some(&PathBuf::from("save.toml")));
}

#[test]
fn explicit_save_path_is_kept() {
    let plugin: GutzSavePlugin<u32> = GutzSavePlugin::new(PathBuf::from("saves/slot.toml"));
    assert_eq!(plugin.path(), Some(&PathBuf::from("saves/slot.toml")));
}

#[test]
fn one_read_for_many_load_requests() {
    assert!(!load_needed(0));
    assert!(load_needed(1));
    assert!(load_needed(3));
}

#[test]
fn unresolved_project_dirs_give_no_location() {
    let plugin: GutzSavePlugin<u32> = GutzSavePlugin::in_project_dirs(None, "save.toml");
    assert_eq!(plugin.path(), None);
}

#[test]
fn manifest_lists_textures_by_name_once_each() {
    let mut manifest = AtlasManifest::new();
    manifest.insert("knight/walk".to_string(), entry("knight/walk.png", 3, 8));
    manifest.insert("bee".to_string(), entry("bee.png", 2, 8));
    manifest.insert("knight/idle".to_string(), entry("knight/idle.png", 4, 8));
    manifest.insert("bee".to_string(), entry("bee.png", 6, 8));
    let names: Vec<&str> = manifest.textures().iter().map(|(n, _)| n.as_str()).collect();
    assert_eq!(names, vec!["bee", "knight/idle", "knight/walk"]);
    assert_eq!(manifest.get("bee").unwrap().frame_count, 6);
    assert!(manifest.get("knight").is_none());
}
