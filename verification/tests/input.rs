use bevy_gutzgutz::input_config::{plan_bindings, GutzInputConfigSkip};
use bevy_gutzgutz::input_map::{GutzAction, GutzInputContexts};
use bevy_gutzgutz::input_source::{
    parse_key_code, GamepadButton, GutzButtonSet, GutzInputSource, KeyCode, MouseButton,
};
use bevy_gutzgutz::lifecycle::GutzExecutionContext;

#[derive(Clone, Copy, Debug, PartialEq, Eq)]
enum Action {
    Jump,
    Fire,
    Menu,
}

impl GutzAction for Action {
    fn same_action(&self, other: &Self) -> bool {
        self == other
    }
}

#[test]
fn parses_the_documented_names() {
    assert_eq!(GutzInputSource::parse("KeyA"), Some(GutzInputSource::Key(KeyCode::KeyA)));
    assert_eq!(GutzInputSource::parse("Space"), Some(GutzInputSource::Key(KeyCode::Space)));
    assert_eq!(
        GutzInputSource::parse("MouseLeft"),
        Some(GutzInputSource::MouseButton(MouseButton::Left))
    );
    assert_eq!(
        GutzInputSource::parse("GamepadSouth"),
        Some(GutzInputSource::GamepadButton(GamepadButton::South))
    );
}

#[test]
fn parses_digits_function_keys_and_named_keys() {
    assert_eq!(GutzInputSource::parse("Digit7"), Some(GutzInputSource::Key(KeyCode::Digit7)));
    assert_eq!(GutzInputSource::parse("F1"), Some(GutzInputSource::Key(KeyCode::F1)));
    assert_eq!(GutzInputSource::parse("F12"), Some(GutzInputSource::Key(KeyCode::F12)));
    assert_eq!(GutzInputSource::parse("F13"), None);
    assert_eq!(GutzInputSource::parse("F0"), None);
    assert_eq!(GutzInputSource::parse("Escape"), Some(GutzInputSource::Key(KeyCode::Escape)));
    assert_eq!(GutzInputSource::parse("ArrowLeft"), Some(GutzInputSource::Key(KeyCode::ArrowLeft)));
    assert_eq!(GutzInputSource::parse("KeyAA"), None);
    assert_eq!(GutzInputSource::parse("Digit10"), None);
    assert_eq!(GutzInputSource::parse(""), None);
}

#[test]
fn parses_numbered_mouse_buttons() {
    assert_eq!(
        GutzInputSource::parse("Mouse5"),
        Some(GutzInputSource::MouseButton(MouseButton::Other(5)))
    );
    assert_eq!(
        GutzInputSource::parse("Mouse65535"),
        Some(GutzInputSource::MouseButton(MouseButton::Other(65535)))
    );
    assert_eq!(GutzInputSource::parse("Mouse65536"), None);
    assert_eq!(GutzInputSource::parse("MouseTop"), None);
    assert_eq!(GutzInputSource::parse("GamepadNorthEast"), None);
}

#[test]
fn pressed_follows_the_button_sets() {
    let held = GutzButtonSet {
        keys: vec![KeyCode::KeyW],
        mouse: vec![MouseButton::Right],
        gamepads: vec![vec![], vec![GamepadButton::South]],
    };
    assert!(GutzInputSource::Key(KeyCode::KeyW).pressed(&held));
    assert!(!GutzInputSource::Key(KeyCode::KeyS).pressed(&held));
    assert!(GutzInputSource::MouseButton(MouseButton::Right).just_pressed(&held));
    assert!(!GutzInputSource::MouseButton(MouseButton::Left).just_released(&held));
    assert!(GutzInputSource::GamepadButton(GamepadButton::South).pressed(&held));
    assert!(!GutzInputSource::GamepadButton(GamepadButton::East).pressed(&held));
}

#[test]
fn config_binds_known_names_and_skips_the_rest() {
    let lines = vec![
        (Some(Action::Jump), "jump".to_string(), vec!["Space".to_string(), "Bogus".to_string()]),
        (None, "dance".to_string(), vec!["KeyD".to_string()]),
        (
            Some(Action::Fire),
            "fire".to_string(),
            vec!["MouseLeft".to_string(), "GamepadSouth".to_string()],
        ),
    ];
    let plan = plan_bindings(&lines);
    assert_eq!(
        plan.bindings,
        vec![
            (Action::Jump, GutzInputSource::Key(KeyCode::Space)),
            (Action::Fire, GutzInputSource::MouseButton(MouseButton::Left)),
            (Action::Fire, GutzInputSource::GamepadButton(GamepadButton::South)),
        ]
    );
    assert_eq!(plan.skipped.len(), 2);
    match &plan.skipped[0] {
        GutzInputConfigSkip::UnknownSource { source, action } => {
            assert_eq!(source, "Bogus");
            assert_eq!(action, "jump");
        }
        _ => panic!("expected an unknown source first"),
    }
    match &plan.skipped[1] {
        GutzInputConfigSkip::UnknownAction { action } => assert_eq!(action, "dance"),
        _ => panic!("expected an unknown action second"),
    }
}

#[test]
fn empty_config_binds_nothing() {
    let lines: Vec<(Option<Action>, String, Vec<String>)> = vec![];
    let plan = plan_bindings(&lines);
    assert!(plan.bindings.is_empty());
    assert!(plan.skipped.is_empty());
}

#[test]
fn restricted_actions_follow_the_context() {
    let mut contexts = GutzInputContexts::new();
    contexts
        .restrict_to(Action::Jump, GutzExecutionContext::InGame)
        .restrict_to(Action::Menu, GutzExecutionContext::OutGame);

    assert_eq!(
        contexts.decisions(Some(GutzExecutionContext::InGame)),
        vec![(Action::Jump, true), (Action::Menu, false)]
    );
    assert_eq!(
        contexts.decisions(Some(GutzExecutionContext::OutGame)),
        vec![(Action::Jump, false), (Action::Menu, true)]
    );
    assert_eq!(contexts.decisions(None), vec![(Action::Jump, false), (Action::Menu, false)]);
}

#[test]
fn the_latest_restriction_of_an_action_wins() {
    let mut contexts = GutzInputContexts::new();
    contexts.restrict_to(Action::Fire, GutzExecutionContext::InGame);
    contexts.restrict_to(Action::Jump, GutzExecutionContext::InGame);
    contexts.restrict_to(Action::Fire, GutzExecutionContext::OutGame);

    assert_eq!(
        contexts.decisions(Some(GutzExecutionContext::InGame)),
        vec![(Action::Fire, false), (Action::Jump, true)]
    );
    assert_eq!(
        contexts.restrictions(),
        &vec![(Action::Fire, GutzExecutionContext::OutGame), (Action::Jump, GutzExecutionContext::InGame)]
    );
}

#[test]
fn every_key_reads_back_from_its_name() {
    let keys = [
        (KeyCode::KeyZ, "KeyZ"),
        (KeyCode::Digit0, "Digit0"),
        (KeyCode::F10, "F10"),
        (KeyCode::Backspace, "Backspace"),
        (KeyCode::ControlRight, "ControlRight"),
    ];
    for (key, name) in keys {
        assert_eq!(GutzInputSource::parse(name), Some(GutzInputSource::Key(key)));
        assert_eq!(parse_key_code(name), Some(key));
    }
    assert_eq!(parse_key_code("KeyAA"), None);
    assert_eq!(parse_key_code("Digit10"), None);
    assert_eq!(parse_key_code("F13"), None);
    assert_eq!(GutzInputSource::parse("F01"), Some(GutzInputSource::Key(KeyCode::F1)));
    assert_eq!(GutzInputSource::parse("keya"), None);
}
