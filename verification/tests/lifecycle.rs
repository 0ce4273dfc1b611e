use bevy_gutzgutz::devtools::GutzDebugStats;
use bevy_gutzgutz::lifecycle::{
    context_label, context_matches, in_context, in_game, not_paused, out_game, paused,
    record_lifecycle_stats, time_command, GutzContextTracker, GutzExecutionContext,
    GutzExecutionContextChanged, GutzPaused, TimeCommand,
};
use bevy_gutzgutz::funkoro_nest::GameState;

#[test]
fn a_change_inside_one_context_reports_nothing() {
    let mut tracker = GutzContextTracker::default();
    let first = tracker.observe(Some(GutzExecutionContext::OutGame));
    assert_eq!(
        first,
        Some(GutzExecutionContextChanged { previous: None, current: GutzExecutionContext::OutGame })
    );
    // Title -> Menu: both out of game.
    assert_eq!(tracker.observe(Some(GutzExecutionContext::OutGame)), None);
    let second = tracker.observe(Some(GutzExecutionContext::InGame));
    assert_eq!(
        second,
        Some(GutzExecutionContextChanged {
            previous: Some(GutzExecutionContext::OutGame),
            current: GutzExecutionContext::InGame,
        })
    );
}

#[test]
fn a_transition_without_entered_state_is_ignored() {
    let mut tracker = GutzContextTracker::default();
    assert_eq!(tracker.observe(None), None);
    assert_eq!(tracker.previous, None);
}

#[test]
fn a_frame_of_transitions_reports_the_changes_in_order() {
    let mut tracker = GutzContextTracker::default();
    let changes = tracker.observe_all(&vec![
        Some(GutzExecutionContext::OutGame),
        Some(GutzExecutionContext::OutGame),
        None,
        Some(GutzExecutionContext::InGame),
        Some(GutzExecutionContext::OutGame),
    ]);
    assert_eq!(changes.len(), 3);
    assert_eq!(changes[0].previous, None);
    assert_eq!(changes[1].previous, Some(GutzExecutionContext::OutGame));
    assert_eq!(changes[1].current, GutzExecutionContext::InGame);
    assert_eq!(changes[2].previous, Some(GutzExecutionContext::InGame));
    assert_eq!(tracker.previous, Some(GutzExecutionContext::OutGame));
}

#[test]
fn run_conditions_follow_the_game_state() {
    let playing = GameState::Playing;
    let menu = GameState::Menu;
    assert!(in_game(Some(&playing)));
    assert!(!out_game(Some(&playing)));
    assert!(out_game(Some(&menu)));
    assert!(!in_game::<GameState>(None));
    assert!(!in_context::<GameState>(None, GutzExecutionContext::OutGame));
    assert!(context_matches(Some(GutzExecutionContext::InGame), GutzExecutionContext::InGame));
    assert!(!context_matches(None, GutzExecutionContext::InGame));
}

#[test]
fn pause_flag_and_clock() {
    assert!(!paused(&GutzPaused::default()));
    assert!(not_paused(&GutzPaused(false)));
    assert!(paused(&GutzPaused(true)));
    assert_eq!(time_command(false, true), TimeCommand::Keep);
    assert_eq!(time_command(true, true), TimeCommand::Pause);
    assert_eq!(time_command(true, false), TimeCommand::Unpause);
}

#[test]
fn state_debugger_rows() {
    let mut stats = GutzDebugStats::new();
    record_lifecycle_stats(&mut stats, Some(("Playing".to_string(), GutzExecutionContext::InGame)), false);
    assert_eq!(stats.iter(), vec![("State", "Playing"), ("Context", "InGame"), ("Paused", "false")]);
    record_lifecycle_stats(&mut stats, None, true);
    assert_eq!(stats.iter(), vec![("State", "Playing"), ("Context", "InGame"), ("Paused", "true")]);
    assert_eq!(context_label(GutzExecutionContext::OutGame), "OutGame");
}

#[test]
fn changes_chain_across_frames() {
    let mut tracker = GutzContextTracker::default();
    let first = tracker.observe_all(&vec![Some(GutzExecutionContext::OutGame)]);
    let second = tracker.observe_all(&vec![None, Some(GutzExecutionContext::OutGame)]);
    let third = tracker.observe_all(&vec![Some(GutzExecutionContext::InGame)]);
    assert_eq!(first.len(), 1);
    assert!(second.is_empty());
    assert_eq!(third.len(), 1);
    assert_eq!(third[0].previous, Some(first[0].current));
    assert_eq!(third[0].current, GutzExecutionContext::InGame);
}
