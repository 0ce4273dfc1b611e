use bevy_gutzgutz::devtools::{selected_spawn_label, toggle_if_pressed, GutzDebugStats, GutzSpawnRegistry};

#[test]
fn rows_keep_their_first_order_and_latest_value() {
    let mut stats = GutzDebugStats::new();
    stats.set("FPS", "60.0".to_string());
    stats.set("Frame", "16.6 ms".to_string());
    stats.set("FPS", "59.9".to_string());
    stats.set("Steam", "Unavailable".to_string());
    assert_eq!(
        stats.iter(),
        vec![("FPS", "59.9"), ("Frame", "16.6 ms"), ("Steam", "Unavailable")]
    );
}

#[test]
fn no_rows_at_first() {
    assert!(GutzDebugStats::new().iter().is_empty());
}

#[test]
fn spawn_registry_lists_names_in_order() {
    let mut registry: GutzSpawnRegistry<u32> = GutzSpawnRegistry::new();
    assert!(registry.is_empty());
    registry.register("crate".to_string(), 1);
    registry.register("enemy".to_string(), 2);
    assert!(!registry.is_empty());
    assert_eq!(registry.names(), vec!["crate", "enemy"]);
    assert_eq!(registry.name_at(1), Some("enemy"));
    assert_eq!(registry.name_at(2), None);
    assert_eq!(registry.spawner_at(0), Some(&1));
    assert_eq!(registry.spawner_at(5), None);
    assert_eq!(selected_spawn_label(&registry, 0), "crate");
    assert_eq!(selected_spawn_label(&registry, 9), "-");
}

#[test]
fn hotkeys_flip_flags_only_when_pressed() {
    let mut visible = false;
    toggle_if_pressed(&mut visible, true);
    assert!(visible);
    toggle_if_pressed(&mut visible, false);
    assert!(visible);
    toggle_if_pressed(&mut visible, true);
    assert!(!visible);
}
