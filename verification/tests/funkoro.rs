use bevy_gutzgutz::funkoro;
use bevy_gutzgutz::funkoro_nest::{
    self, start_from, Arrival, ClearScore, GameState, PuzzleProgress, RunLayout, SaveData, UiScreen,
};
use bevy_gutzgutz::input_map::GutzInputContexts;
use bevy_gutzgutz::input_source::{GutzInputSource, KeyCode};
use bevy_gutzgutz::lifecycle::{GutzExecutionContext, GutzLifecycleState};

#[test]
fn three_fitting_nests_clear_the_run() {
    let mut progress = PuzzleProgress::default();
    assert_eq!(progress.arrive(true), (Arrival::NextStage, Some(SaveData { best_stage: 1 })));
    assert_eq!(progress.arrive(true), (Arrival::NextStage, Some(SaveData { best_stage: 2 })));
    assert_eq!(progress.arrive(true), (Arrival::Cleared, Some(SaveData { best_stage: 3 })));
}

#[test]
fn a_ball_that_does_not_fit_gets_stuck() {
    let mut progress = PuzzleProgress { stage: 1, best_stage: 2 };
    assert_eq!(progress.arrive(false), (Arrival::Stuck, None));
    assert_eq!(progress, PuzzleProgress { stage: 1, best_stage: 2 });
}

#[test]
fn the_first_clear_is_kept() {
    let mut score = ClearScore::default();
    score.record_clear(152);
    score.record_clear(200);
    assert_eq!(score.first_clear_diameter_cm, Some(152));
}

#[test]
fn starting_from_the_menu_resumes() {
    let mut progress = PuzzleProgress { stage: 2, best_stage: 2 };
    let mut score = ClearScore { first_clear_diameter_cm: Some(90) };
    assert!(!start_from(GameState::Menu, &mut progress, &mut score));
    assert_eq!(progress.stage, 2);
    assert!(start_from(GameState::Cleared, &mut progress, &mut score));
    assert_eq!(progress, PuzzleProgress { stage: 0, best_stage: 2 });
    assert_eq!(score.first_clear_diameter_cm, None);
}

#[test]
fn the_generator_matches_its_recurrence() {
    let mut layout: RunLayout<()> = RunLayout::with_seed(0);
    let bits = layout.next_random_bits();
    assert_eq!(layout.random_state, 1_442_695_040_888_963_407);
    assert_eq!(bits, (1_442_695_040_888_963_407u64 >> 40) as u32);
    let next = layout.next_random_bits();
    let expected = 1_442_695_040_888_963_407u64
        .wrapping_mul(6_364_136_223_846_793_005)
        .wrapping_add(1_442_695_040_888_963_407);
    assert_eq!(layout.random_state, expected);
    assert_eq!(next, (expected >> 40) as u32);
    assert!(next < (1 << 24));
}

#[test]
fn a_stage_keeps_its_hole_on_reset() {
    let mut layout: RunLayout<u8> = RunLayout::with_seed(1);
    assert!(layout.needs_new_hole(0, false));
    layout.hole = Some(funkoro_nest::HoleLayout { stage: 0, placement: 9 });
    assert!(!layout.needs_new_hole(0, false));
    assert!(layout.needs_new_hole(0, true));
    assert!(layout.needs_new_hole(1, false));
}

#[test]
fn nest_screens_and_hud() {
    assert_eq!(
        funkoro_nest::screen_text(UiScreen::Title, None),
        ("FUNKORO", "THE SOIL REMEMBERS".to_string())
    );
    assert_eq!(funkoro_nest::screen_text(UiScreen::Menu, Some(3)), ("PAUSED", String::new()));
    assert_eq!(
        funkoro_nest::screen_text(UiScreen::Cleared, Some(152)),
        ("NEST SEALED", "BALL 152 cm".to_string())
    );
    assert_eq!(funkoro_nest::screen_text(UiScreen::Cleared, None), ("NEST SEALED", String::new()));
    assert_eq!(funkoro_nest::screen_text(UiScreen::Stuck, None), ("STUCK", String::new()));
    assert_eq!(funkoro_nest::hole_hud_text(148), "HOLE 148 cm");
    assert_eq!(funkoro_nest::tilt_hud_text(0), "TILT 0%");
    assert_eq!(funkoro_nest::stage_slot(4), 1);
}

#[test]
fn nest_controls_are_restricted_by_context() {
    let mut contexts = GutzInputContexts::new();
    let bindings = funkoro_nest::configure_controls(&mut contexts);
    assert_eq!(bindings.len(), 7);
    assert_eq!(bindings[0], (funkoro_nest::BeetleAction::PushBackward, GutzInputSource::Key(KeyCode::KeyS)));
    assert_eq!(bindings[6], (funkoro_nest::BeetleAction::Start, GutzInputSource::Key(KeyCode::Space)));
    let decisions = contexts.decisions(Some(GutzExecutionContext::InGame));
    assert_eq!(decisions.len(), 6);
    assert_eq!(decisions[5], (funkoro_nest::BeetleAction::Start, false));
    assert_eq!(decisions[0], (funkoro_nest::BeetleAction::PushBackward, true));
}

#[test]
fn game_states_sort_into_contexts() {
    assert_eq!(GameState::Playing.execution_context(), GutzExecutionContext::InGame);
    assert_eq!(GameState::Stuck.execution_context(), GutzExecutionContext::OutGame);
    assert_eq!(funkoro::GameState::Cleared.execution_context(), GutzExecutionContext::OutGame);
    assert_eq!(funkoro::GameState::default(), funkoro::GameState::Title);
}

#[test]
fn classic_run_progress() {
    let mut progress = funkoro::PuzzleProgress::default();
    assert_eq!(progress.reach_nest(), (funkoro::StageOutcome::NextStage, funkoro::SaveData { best_stage: 1 }));
    assert_eq!(progress.reach_nest(), (funkoro::StageOutcome::NextStage, funkoro::SaveData { best_stage: 2 }));
    assert_eq!(progress.reach_nest(), (funkoro::StageOutcome::Cleared, funkoro::SaveData { best_stage: 3 }));
    progress.start_from(funkoro::GameState::Cleared);
    assert_eq!(progress, funkoro::PuzzleProgress { stage: 0, best_stage: 3 });

    let mut fresh = funkoro::PuzzleProgress { stage: 1, best_stage: 1 };
    fresh.start_from(funkoro::GameState::Cleared);
    assert_eq!(fresh.best_stage, 3);
    let mut title = funkoro::PuzzleProgress { stage: 1, best_stage: 1 };
    title.start_from(funkoro::GameState::Title);
    assert_eq!(title, funkoro::PuzzleProgress { stage: 0, best_stage: 1 });
}

#[test]
fn classic_texts() {
    let progress = funkoro::PuzzleProgress { stage: 1, best_stage: 1 };
    assert_eq!(
        funkoro::hud_text(&progress),
        "フンコロ  |  巣穴 2/3\nWASD: 歩く  マウス / Q E: 見回す  R: やり直し"
    );
    assert_eq!(
        funkoro::screen_text(funkoro::UiScreen::Title),
        ("フンコロ", "玉を巣穴まで押し運べ。\n\nEnter / Space で地中へ")
    );
    assert_eq!(
        funkoro::screen_text(funkoro::UiScreen::Cleared),
        ("巣穴完成", "三つの玉を運び終えた。\n\nEnter / Space でもう一度")
    );
}

#[test]
fn classic_controls() {
    let mut contexts = GutzInputContexts::new();
    let bindings = funkoro::configure_controls(&mut contexts);
    assert_eq!(bindings.len(), 9);
    assert_eq!(bindings[0], (funkoro::BeetleAction::Forward, GutzInputSource::Key(KeyCode::KeyW)));
    assert_eq!(
        contexts.decisions(Some(GutzExecutionContext::OutGame)).last(),
        Some(&(funkoro::BeetleAction::Start, true))
    );
}
