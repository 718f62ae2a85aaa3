//! Terminal rendering and build-command generation.

use provola::compile::gen_command;
use provola::compile::BuildStep;
use provola::actions::Source;
use provola::exec::Executable;
use provola::lang::Language;
use provola::reporter::render_test_result;
use provola::reporter::text_from_result;
use provola::Error;
use provola::Reason;
use provola::TestResult;
use provola::{CoreFailure, CoreReport, CoreStatus, CoreTestCase, CoreTestSuite};

#[test]
fn report_pass() {
    let res = TestResult::Pass(Reason::Unknown);
    assert_eq!(render_test_result(&res), "PASS\n");
}

#[test]
fn report_fail_reason() {
    let reason = Reason::not_expected("foo".to_string(), "bar".to_string());
    let res = TestResult::Fail(reason);
    assert_eq!(
        render_test_result(&res),
        "FAIL\n\nExpected\n\nbar\n\nActual\n\nfoo\n"
    );
}

#[test]
fn report_renders_suites_and_cases() {
    let report = CoreReport {
        name: Some("all".to_string()),
        disabled: None,
        errors: None,
        failures: Some(1),
        tests: Some(2),
        testsuites: vec![CoreTestSuite {
            name: "S".to_string(),
            tests: 2,
            disabled: None,
            errors: None,
            failures: Some(1),
            testcases: vec![
                CoreTestCase {
                    name: "a".to_string(),
                    classname: None,
                    status: CoreStatus::Pass,
                    time_millis: None,
                    failures: Vec::new(),
                    fqtc: None,
                },
                CoreTestCase {
                    name: "b".to_string(),
                    classname: None,
                    status: CoreStatus::Fail,
                    time_millis: None,
                    failures: vec![CoreFailure {
                        message: "boom".to_string(),
                        ttype: "assertion".to_string(),
                    }],
                    fqtc: None,
                },
            ],
            time_millis: None,
            timestamp: None,
        }],
        time_millis: None,
        timestamp: None,
    };
    let res = TestResult::Fail(Reason::Report(report));
    assert_eq!(
        render_test_result(&res),
        "FAIL\n\nall | tests: 2 | failures: 1 | \n    S | tests: 2 | failures: 1 | \n        a PASS\n        b FAIL\n\n"
    );
}

#[test]
fn the_one_word_verdict() {
    assert_eq!(text_from_result(&None), "-");
    assert_eq!(text_from_result(&Some(TestResult::Pass(Reason::Unknown))), "PASS");
    assert_eq!(text_from_result(&Some(TestResult::Fail(Reason::Unknown))), "FAIL");
}

#[test]
fn build_commands_per_language() {
    let source = Source::new("m.rs".to_string());
    match gen_command(Language::Rust, &source, "./tmp.exe") {
        Ok(BuildStep::Compile(argv)) => assert_eq!(argv, vec!["rustc", "m.rs", "-o", "./tmp.exe"]),
        _ => panic!("expected a compile step"),
    }
    match gen_command(Language::Haskell, &source, "out") {
        Ok(BuildStep::Compile(argv)) => {
            assert_eq!(argv, vec!["stack", "ghc", "--", "m.rs", "-o", "out"])
        }
        _ => panic!("expected a compile step"),
    }
    match gen_command(Language::Bash, &Source::new("run.sh".to_string()), "x") {
        Ok(BuildStep::Ready(Executable::Multiple(argv))) => {
            assert_eq!(argv, vec!["bash", "run.sh"])
        }
        _ => panic!("expected an interpreter line"),
    }
    assert!(matches!(
        gen_command(Language::Lisp, &source, "x"),
        Err(Error::NotImplemented)
    ));
    match gen_command(Language::Ada, &source, "x") {
        Err(Error::LangNotSupported(name)) => assert_eq!(name, "Ada"),
        _ => panic!("expected an unsupported language"),
    }
}
