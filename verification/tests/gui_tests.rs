//! The observer-side state and configuration resumption.

use provola::catalog::AvailableTests;
use provola::gui::merge;
use provola::gui::State;
use provola::server::FeedbackMessage;
use provola::GuiConfig;
use provola::Reason;
use provola::TestResult;

#[test]
fn feedback_updates_the_observer_state() {
    let mut state = State::default();
    assert!(state.last_result.is_none());
    assert!(state.available_tests.is_none());

    let rerun = state.handle_message(FeedbackMessage::AvailableTests(AvailableTests::new()), false);
    assert!(!rerun);
    assert!(state.available_tests.is_some());

    let rerun = state.handle_message(
        FeedbackMessage::Result(TestResult::Pass(Reason::Unknown)),
        false,
    );
    assert!(!rerun);
    assert!(state.last_result.is_some());

    let rerun = state.handle_message(FeedbackMessage::WatchedChanged, false);
    assert!(!rerun);
    assert!(state.last_result.is_some());

    let rerun = state.handle_message(FeedbackMessage::WatchedChanged, true);
    assert!(rerun);
    assert!(state.last_result.is_none());
    assert!(state.available_tests.is_some());

    let rerun = state.handle_message(FeedbackMessage::Error("boom".to_string()), true);
    assert!(!rerun);
}

#[test]
fn the_current_configuration_wins_over_the_stored_one() {
    let mut current = GuiConfig {
        watch_path: Some("cur".to_string()),
        watch: true,
        action: None,
    };
    let stored = GuiConfig {
        watch_path: Some("old".to_string()),
        watch: false,
        action: None,
    };
    merge(&mut current, stored);
    assert_eq!(current.watch_path.as_deref(), Some("cur"));
    assert!(current.watch);

    let mut empty = GuiConfig {
        watch_path: None,
        watch: false,
        action: None,
    };
    let stored = GuiConfig {
        watch_path: Some("old".to_string()),
        watch: true,
        action: None,
    };
    merge(&mut empty, stored);
    assert_eq!(empty.watch_path.as_deref(), Some("old"));
    assert!(!empty.watch);
}
