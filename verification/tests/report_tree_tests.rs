//! The tree-shaped report model and its aggregation rules.

use provola::aggregate::sum_durations;
use provola::aggregate::Report;
use provola::aggregate::TestResult;

#[test]
fn test_report_with_children() {
    let children = vec![Report::skipped(), Report::pass(), Report::fail()];

    let report = Report::with_children(children);
    assert!(matches!(report.result, TestResult::Mixed));
}

#[test]
fn test_report_with_only_passed() {
    let children = vec![Report::pass(), Report::pass(), Report::pass()];

    let report = Report::with_children(children);
    assert!(matches!(report.result, TestResult::Passed));
}

#[test]
fn test_sum_durations_of_nothings_gives_zero() {
    assert_eq!(Some(0), sum_durations(&vec![]));
}

#[test]
fn test_sum_durations_of_reports_with_duration() {
    let reports = vec![
        Report::pass_with_duration(1000),
        Report::pass_with_duration(2000),
        Report::pass_with_duration(3),
    ];
    assert_eq!(Some(3003), sum_durations(&reports));
}

#[test]
fn test_sum_durations_of_reports_without_duration() {
    let reports = vec![Report::pass_with_duration(1000), Report::pass()];
    assert_eq!(None, sum_durations(&reports));
}

#[test]
fn test_sum_durations_of_reports_with_children() {
    let reports = vec![
        Report::pass_with_duration(1000),
        Report::with_children(vec![
            Report::pass_with_duration(2000),
            Report::pass_with_duration(3000),
        ]),
    ];
    assert_eq!(Some(6000), sum_durations(&reports));
}

#[test]
fn test_test_suite() {
    // let test_suite = TestSuite::new("suite");
    // assert_eq!("suite", test_suite.name.unwrap());
}

#[test]
fn all_failed_children_fold_to_mixed_without_failing_grandchildren() {
    let children = vec![Report::fail(), Report::fail()];
    let report = Report::with_children(children);
    assert!(matches!(report.result, TestResult::Mixed));
}

#[test]
fn is_passed_and_is_failed_look_at_the_variant() {
    assert!(TestResult::Passed.is_passed());
    assert!(!TestResult::Passed.is_failed());
    assert!(Report::fail().result.is_failed());
    assert!(!TestResult::Mixed.is_passed());
}
