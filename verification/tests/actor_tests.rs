//! The orchestration actor: command handling, ordering, and survival of
//! failed commands.

use provola::catalog::AvailableTests;
use provola::config::ActionConfig;
use provola::config::Only;
use provola::config::TestRunnerInfo;
use provola::config::TestRunnerOpt;
use provola::config::TestRunnerType;
use provola::exec::Executable;
use provola::server::on_list_result;
use provola::server::on_run_result;
use provola::server::ActionMessage;
use provola::server::Effect;
use provola::server::FeedbackMessage;
use provola::server::Server;
use provola::Error;
use provola::GuiConfig;
use provola::Reason;
use provola::TestResult;

fn runner_config(watch_path: Option<String>) -> GuiConfig {
    let info = TestRunnerInfo::new(
        Executable::Simple("./tests_bin".to_string()),
        TestRunnerType::GoogleTest,
    );
    GuiConfig {
        watch_path,
        watch: false,
        action: Some(ActionConfig::TestRunner(info, TestRunnerOpt::default())),
    }
}

#[test]
fn commands_are_answered_in_arrival_order() {
    let mut server = Server::new();
    let (fbs, effs) = server.handle_message(ActionMessage::UpdateConfig(runner_config(None)));
    assert!(fbs.is_empty());
    assert!(effs.is_empty());

    let responses = server.handle_messages(vec![
        ActionMessage::ReqAvailableTests,
        ActionMessage::RunAll,
        ActionMessage::ReqAvailableTests,
    ]);

    assert_eq!(responses.len(), 3);
    assert!(responses[0].0.is_empty());
    assert!(matches!(responses[0].1[..], [Effect::ListTests]));
    assert!(matches!(responses[1].1[..], [Effect::RunAction]));
    assert!(matches!(responses[2].1[..], [Effect::ListTests]));
}

#[test]
fn a_failed_command_reports_and_the_actor_goes_on() {
    let mut server = Server::new();

    let (fbs, effs) = server.handle_message(ActionMessage::RunAll);
    assert!(effs.is_empty());
    assert_eq!(fbs.len(), 1);
    match &fbs[0] {
        FeedbackMessage::Error(message) => assert_eq!(message, "no test result available"),
        _ => panic!("expected an error event"),
    }

    let (fbs, effs) = server.handle_message(ActionMessage::UpdateConfig(runner_config(None)));
    assert!(fbs.is_empty() && effs.is_empty());

    let (fbs, effs) = server.handle_message(ActionMessage::RunAll);
    assert!(fbs.is_empty());
    assert!(matches!(effs[..], [Effect::RunAction]));
}

#[test]
fn a_config_without_action_has_nothing_to_do() {
    let mut server = Server::new();
    let config = GuiConfig {
        watch_path: None,
        watch: false,
        action: None,
    };
    server.handle_message(ActionMessage::UpdateConfig(config));
    let (fbs, effs) = server.handle_message(ActionMessage::ReqAvailableTests);
    assert!(effs.is_empty());
    match &fbs[0] {
        FeedbackMessage::Error(message) => assert_eq!(message, "nothing to do"),
        _ => panic!("expected an error event"),
    }
}

#[test]
fn setup_starts_the_watcher_and_scans() {
    let mut server = Server::new();
    let (fbs, effs) =
        server.handle_message(ActionMessage::Setup(runner_config(Some("src".to_string()))));
    assert!(matches!(fbs[0], FeedbackMessage::WatchedChanged));
    match &effs[0] {
        Effect::StartWatch(path) => assert_eq!(path, "src"),
        _ => panic!("expected the watch directive first"),
    }
    assert!(matches!(effs[1], Effect::ListTests));
}

#[test]
fn selecting_a_single_test_changes_the_stored_selection() {
    let mut server = Server::new();
    server.handle_message(ActionMessage::Setup(runner_config(None)));
    let id = provola::FullyQualifiedTestCaseId(7);
    let (fbs, effs) = server.handle_message(ActionMessage::SelectSingleTest(id));
    assert!(fbs.is_empty() && effs.is_empty());
    match &server.opt {
        Some(GuiConfig {
            action: Some(ActionConfig::TestRunner(_, opt)),
            ..
        }) => assert!(matches!(opt.only, Only::SingleByFqtc(i) if i.0 == 7)),
        _ => panic!("expected a runner selection"),
    }

    let (fbs, effs) = server.handle_message(ActionMessage::RunSelected);
    assert!(fbs.is_empty());
    assert!(matches!(effs[..], [Effect::RunAction]));

    server.handle_message(ActionMessage::RunAll);
    match &server.opt {
        Some(GuiConfig {
            action: Some(ActionConfig::TestRunner(_, opt)),
            ..
        }) => assert!(matches!(opt.only, Only::All)),
        _ => panic!("expected a runner selection"),
    }
}

#[test]
fn run_and_list_outcomes_become_feedback() {
    let report = provola::CoreReport {
        name: None,
        disabled: None,
        errors: None,
        failures: Some(0),
        tests: None,
        testsuites: Vec::new(),
        time_millis: None,
        timestamp: None,
    };
    let feedback = on_run_result(Ok(TestResult::from(report)));
    assert!(matches!(
        feedback,
        FeedbackMessage::Result(TestResult::Pass(Reason::Report(_)))
    ));

    let feedback = on_run_result(Err(Error::ReportUnavailable));
    match feedback {
        FeedbackMessage::Error(message) => assert_eq!(message, "report unavailable"),
        _ => panic!("expected an error event"),
    }

    let feedback = on_list_result(Ok(AvailableTests::new()));
    assert!(matches!(feedback, FeedbackMessage::AvailableTests(_)));

    let feedback = on_list_result(Err(Error::BuildFailed("cc exited".to_string())));
    match feedback {
        FeedbackMessage::Error(message) => assert_eq!(message, "cannot build: cc exited"),
        _ => panic!("expected an error event"),
    }
}
