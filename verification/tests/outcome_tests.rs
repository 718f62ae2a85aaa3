//! Outcome derivation, failure counting, sorting, and error messages.

use provola::result::verdict_from_output;
use provola::CoreFailure;
use provola::CoreReport;
use provola::CoreStatus;
use provola::CoreTestCase;
use provola::CoreTestSuite;
use provola::Error;
use provola::Reason;
use provola::TestResult;

fn case_with_failures(name: &str, n_failures: usize) -> CoreTestCase {
    let mut failures = Vec::new();
    let mut i = 0;
    while i < n_failures {
        failures.push(CoreFailure {
            message: format!("boom {}", i),
            ttype: "assertion".to_string(),
        });
        i += 1;
    }
    CoreTestCase {
        name: name.to_string(),
        classname: None,
        status: if n_failures == 0 { CoreStatus::Pass } else { CoreStatus::Fail },
        time_millis: None,
        failures,
        fqtc: None,
    }
}

fn suite(name: &str, cases: Vec<CoreTestCase>) -> CoreTestSuite {
    CoreTestSuite {
        name: name.to_string(),
        tests: cases.len(),
        disabled: None,
        errors: None,
        failures: None,
        testcases: cases,
        time_millis: None,
        timestamp: None,
    }
}

fn report(failures: Option<usize>, suites: Vec<CoreTestSuite>) -> CoreReport {
    CoreReport {
        name: None,
        disabled: None,
        errors: None,
        failures,
        tests: None,
        testsuites: suites,
        time_millis: None,
        timestamp: None,
    }
}

#[test]
fn zero_or_absent_failures_yield_pass() {
    assert!(matches!(
        TestResult::from(report(Some(0), vec![])),
        TestResult::Pass(Reason::Report(_))
    ));
    assert!(matches!(
        TestResult::from(report(None, vec![])),
        TestResult::Pass(Reason::Report(_))
    ));
}

#[test]
fn positive_failures_yield_fail() {
    assert!(matches!(
        TestResult::from(report(Some(2), vec![])),
        TestResult::Fail(Reason::Report(_))
    ));
}

#[test]
fn failures_are_counted_per_suite_and_per_report() {
    let s1 = suite("A", vec![case_with_failures("a", 0), case_with_failures("b", 2)]);
    let s2 = suite("B", vec![case_with_failures("c", 1)]);
    assert_eq!(s1.failures_count(), 1);
    assert_eq!(s2.failures_count(), 1);
    let r = report(None, vec![s1, s2]);
    assert_eq!(r.failures_count(), 2);
}

#[test]
fn sorting_orders_suites_and_cases_by_name() {
    let r = report(
        Some(0),
        vec![
            suite("Zeta", vec![case_with_failures("b", 0), case_with_failures("a", 0)]),
            suite("Alpha", vec![case_with_failures("z", 1), case_with_failures("y", 0)]),
        ],
    );
    let sorted = r.sort();
    assert_eq!(sorted.failures, Some(0));
    assert_eq!(sorted.testsuites.len(), 2);
    assert_eq!(sorted.testsuites[0].name, "Alpha");
    assert_eq!(sorted.testsuites[1].name, "Zeta");
    assert_eq!(sorted.testsuites[0].testcases[0].name, "y");
    assert_eq!(sorted.testsuites[0].testcases[1].name, "z");
    assert_eq!(sorted.testsuites[1].testcases[0].name, "a");
    assert_eq!(sorted.testsuites[1].testcases[1].name, "b");
    assert_eq!(sorted.testsuites[0].testcases[0].failures.len(), 0);
    assert_eq!(sorted.testsuites[0].testcases[1].failures.len(), 1);
}

#[test]
fn sorting_twice_changes_nothing_more() {
    let r = report(
        None,
        vec![
            suite("B", vec![case_with_failures("two", 0), case_with_failures("one", 0)]),
            suite("A", vec![]),
        ],
    );
    let once = r.sort();
    let names_once: Vec<String> = once.testsuites.iter().map(|s| s.name.clone()).collect();
    let twice = once.sort();
    let names_twice: Vec<String> = twice.testsuites.iter().map(|s| s.name.clone()).collect();
    assert_eq!(names_once, names_twice);
}

#[test]
fn every_error_renders_its_message() {
    assert_eq!(Error::NoResult.message(), "no test result available");
    assert_eq!(Error::NoExecutable.message(), "executable not available");
    assert_eq!(Error::BuildFailed("gcc".to_string()).message(), "cannot build: gcc");
    assert_eq!(Error::IoError("broken pipe".to_string()).message(), "i/o error");
    assert_eq!(
        Error::LangNotSupported("cobol".to_string()).message(),
        "language not supported: cobol"
    );
    assert_eq!(Error::ExecError("spawn".to_string()).message(), "cannot execute");
    assert_eq!(Error::InvalidInputData("bad in".to_string()).message(), "bad in");
    assert_eq!(Error::InvalidOutputData("bad out".to_string()).message(), "bad out");
    assert_eq!(Error::NothingToDo.message(), "nothing to do");
    assert_eq!(Error::NotImplemented.message(), "not implemented");
    assert_eq!(Error::NotAvailable.message(), "not available");
    assert_eq!(
        Error::CannotWatch("src".to_string()).message(),
        "cannot watch file: src"
    );
    assert_eq!(
        Error::TestRunnerNotSupported("xunit".to_string()).message(),
        "test runner not supported: xunit"
    );
    assert_eq!(Error::ReporterError("tty".to_string()).message(), "reporter error");
    assert_eq!(Error::ReportUnavailable.message(), "report unavailable");
    assert_eq!(
        Error::ReportParseError("bad xml".to_string()).message(),
        "cannot parse report: bad xml"
    );
}

#[test]
fn data_test_verdicts_compare_the_outputs() {
    assert!(matches!(
        verdict_from_output("out\n".to_string(), "out\n".to_string()),
        TestResult::Pass(Reason::Unknown)
    ));
    match verdict_from_output("got".to_string(), "want".to_string()) {
        TestResult::Fail(Reason::NotExpected { actual, expected }) => {
            assert_eq!(actual, "got");
            assert_eq!(expected, "want");
        }
        _ => panic!("expected a failure with both texts"),
    }
}
