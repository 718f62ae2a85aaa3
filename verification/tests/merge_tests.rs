//! The merger: overlaying a run outcome onto the catalog, the skeleton
//! report, and the published verdict.

use provola::catalog::AvailableTests;
use provola::merge::generate_complete_report;
use provola::merge::merge_available_tests_and_result;
use provola::merge::to_skeleton_report;
use provola::CoreReport;
use provola::CoreStatus;
use provola::CoreTestCase;
use provola::CoreTestSuite;
use provola::Reason;
use provola::TestResult;

fn ran_case(name: &str, status: CoreStatus) -> CoreTestCase {
    CoreTestCase {
        name: name.to_string(),
        classname: None,
        status,
        time_millis: None,
        failures: Vec::new(),
        fqtc: None,
    }
}

fn one_suite_report(suite: &str, cases: Vec<CoreTestCase>, failures: Option<usize>) -> CoreReport {
    CoreReport {
        name: None,
        disabled: None,
        errors: None,
        failures,
        tests: None,
        testsuites: vec![CoreTestSuite {
            name: suite.to_string(),
            tests: cases.len(),
            disabled: None,
            errors: None,
            failures,
            testcases: cases,
            time_millis: None,
            timestamp: None,
        }],
        time_millis: None,
        timestamp: None,
    }
}

#[test]
fn merge_scenario_adds_unknown_for_unrun_case() {
    let mut catalog = AvailableTests::new();
    catalog.push("MathTests".to_string(), "Add".to_string());
    catalog.push("MathTests".to_string(), "Sub".to_string());

    let partial = one_suite_report("MathTests", vec![ran_case("Add", CoreStatus::Pass)], Some(0));
    let full = generate_complete_report(&partial, &catalog);

    assert_eq!(full.testsuites.len(), 1);
    let suite = &full.testsuites[0];
    assert_eq!(suite.name, "MathTests");
    assert_eq!(suite.testcases.len(), 2);
    assert_eq!(suite.testcases[0].name, "Add");
    assert!(matches!(suite.testcases[0].status, CoreStatus::Pass));
    assert_eq!(suite.testcases[1].name, "Sub");
    assert!(matches!(suite.testcases[1].status, CoreStatus::Unknown));
    assert!(suite.testcases[1].fqtc.is_some());
}

#[test]
fn merge_creates_a_suite_the_report_does_not_know() {
    let mut catalog = AvailableTests::new();
    catalog.push("Other".to_string(), "Case".to_string());

    let partial = one_suite_report("MathTests", vec![ran_case("Add", CoreStatus::Pass)], Some(0));
    let full = generate_complete_report(&partial, &catalog);

    assert_eq!(full.testsuites.len(), 2);
    assert_eq!(full.testsuites[1].name, "Other");
    assert_eq!(full.testsuites[1].testcases.len(), 1);
    assert!(matches!(full.testsuites[1].testcases[0].status, CoreStatus::Unknown));
}

#[test]
fn merge_with_empty_catalog_changes_nothing() {
    let catalog = AvailableTests::new();
    let partial = one_suite_report("MathTests", vec![ran_case("Add", CoreStatus::Fail)], Some(1));
    let full = generate_complete_report(&partial, &catalog);

    assert_eq!(full.testsuites.len(), 1);
    assert_eq!(full.testsuites[0].testcases.len(), 1);
    assert_eq!(full.testsuites[0].testcases[0].name, "Add");
    assert_eq!(full.failures, Some(1));
}

#[test]
fn merge_does_not_duplicate_a_case_listed_twice() {
    let mut catalog = AvailableTests::new();
    catalog.push("MathTests".to_string(), "Add".to_string());
    catalog.push("MathTests".to_string(), "Add".to_string());

    let partial = one_suite_report("MathTests", vec![], None);
    let full = generate_complete_report(&partial, &catalog);

    assert_eq!(full.testsuites[0].testcases.len(), 1);
}

#[test]
fn merge_without_result_shows_the_skeleton_as_a_pass() {
    let mut catalog = AvailableTests::new();
    catalog.push("MathTests".to_string(), "Add".to_string());

    let merged = merge_available_tests_and_result(&None, &Some(catalog));
    match merged {
        Some(TestResult::Pass(Reason::Report(report))) => {
            assert_eq!(report.testsuites.len(), 1);
            assert_eq!(report.testsuites[0].name, "MathTests");
            assert!(matches!(
                report.testsuites[0].testcases[0].status,
                CoreStatus::Unknown
            ));
        }
        _ => panic!("expected a pass carrying the skeleton report"),
    }
}

#[test]
fn merge_without_catalog_keeps_the_result() {
    let partial = one_suite_report("MathTests", vec![ran_case("Add", CoreStatus::Pass)], Some(0));
    let result = TestResult::from(partial);
    let merged = merge_available_tests_and_result(&Some(result), &None);
    match merged {
        Some(TestResult::Pass(Reason::Report(report))) => {
            assert_eq!(report.testsuites.len(), 1);
            assert_eq!(report.testsuites[0].testcases.len(), 1);
        }
        _ => panic!("expected the result unchanged"),
    }
}

#[test]
fn merge_with_nothing_shows_nothing() {
    assert!(merge_available_tests_and_result(&None, &None).is_none());
}

#[test]
fn skeleton_report_lists_every_known_case_as_unknown() {
    let mut catalog = AvailableTests::new();
    catalog.push("B".to_string(), "one".to_string());
    catalog.push("A".to_string(), "two".to_string());

    let report = to_skeleton_report(&catalog);
    assert_eq!(report.testsuites.len(), 2);
    assert_eq!(report.testsuites[0].name, "A");
    assert_eq!(report.testsuites[1].name, "B");
    assert!(report.failures.is_none());
    for suite in &report.testsuites {
        for case in &suite.testcases {
            assert!(matches!(case.status, CoreStatus::Unknown));
            assert!(case.fqtc.is_some());
        }
    }
}
