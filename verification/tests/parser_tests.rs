//! The runner-output parsers, argument builders and language recognition.

use provola::catch2;
use provola::config::Only;
use provola::config::TestRunnerOpt;
use provola::googletest::add_list_argv;
use provola::googletest::add_run_argv;
use provola::googletest::extract_test_case_name;
use provola::googletest::extract_test_suite_name;
use provola::googletest::make_test_filter;
use provola::googletest::parse_available_tests;
use provola::googletest::parse_duration;
use provola::googletest::parse_duration_millis;
use provola::lang::Language;

#[test]
fn parse_gtest_list_tests_output() {
    let s = r#"Running main() from provola-googletest/examples/data/googletest/googletest/src/gtest_main.cc
Foo.
  Foo1
  Foo2
Bar.
  Bar1
  Bar2"#;
    let list = parse_available_tests(s).unwrap();
    assert_eq!(list.len(), 4);
    let flat = list.iter();
    assert_eq!(flat[0].test_suite.0, "Foo");
    assert_eq!(flat[0].test_case.0, "Foo1");
    assert_eq!(flat[1].test_case.0, "Foo2");
    assert_eq!(flat[2].test_suite.0, "Bar");
    assert_eq!(flat[3].test_case.0, "Bar2");
    let groups = list.test_suites();
    assert_eq!(groups.len(), 2);
    assert_eq!(groups[0].name, "Bar");
    assert_eq!(groups[1].name, "Foo");
}

#[test]
fn parse_duration_from_str() {
    assert_eq!(parse_duration(""), None);
    assert_eq!(parse_duration("s"), None);
    assert_eq!(parse_duration("ss"), None);
    assert_eq!(
        parse_duration("1s"),
        Some(std::time::Duration::from_secs(1))
    );
}

#[test]
fn durations_parse_to_milliseconds() {
    assert_eq!(parse_duration_millis("1s"), Some(1000));
    assert_eq!(parse_duration_millis("0.5s"), Some(500));
    assert_eq!(parse_duration_millis("2.s"), Some(2000));
    assert_eq!(parse_duration_millis(".25s"), Some(250));
    assert_eq!(parse_duration_millis("1.2344s"), Some(1234));
    assert_eq!(parse_duration_millis("1.2345s"), Some(1235));
    assert_eq!(parse_duration_millis(".s"), None);
    assert_eq!(parse_duration_millis("1.2.3s"), None);
    assert_eq!(parse_duration_millis("x1s"), None);
}

#[test]
fn catch2_durations_are_whole_seconds() {
    assert_eq!(
        catch2::parse_duration("3"),
        Some(std::time::Duration::from_secs(3))
    );
    assert_eq!(
        catch2::parse_duration("+7"),
        Some(std::time::Duration::from_secs(7))
    );
    assert_eq!(catch2::parse_duration(""), None);
    assert_eq!(catch2::parse_duration("x"), None);
    assert_eq!(catch2::parse_duration("1.5"), None);
}

#[test]
fn whole_numbers_parse_exactly() {
    assert_eq!(catch2::parse_u64("0"), Some(0));
    assert_eq!(catch2::parse_u64("18446744073709551615"), Some(u64::MAX));
    assert_eq!(catch2::parse_u64("18446744073709551616"), None);
    assert_eq!(catch2::parse_u64("+"), None);
}

#[test]
fn names_split_at_the_dot_and_the_indent() {
    assert_eq!(extract_test_suite_name("Foo."), "Foo");
    assert_eq!(extract_test_suite_name("NoDot"), "NoDot");
    assert_eq!(extract_test_case_name("  Bar1"), "Bar1");
    assert_eq!(extract_test_case_name("x"), "");
}

#[test]
fn list_and_run_arguments_are_appended() {
    let argv = add_list_argv(vec!["./t".to_string()]);
    assert_eq!(argv, vec!["./t", "--gtest_list_tests", "--gtest_color=no"]);
    let argv = add_run_argv(vec!["./t".to_string()], "report.json");
    assert_eq!(
        argv,
        vec!["./t", "--gtest_output=json:report.json", "--gtest_color=no"]
    );
    let argv = catch2::add_arguments(vec!["./t".to_string()]);
    assert_eq!(argv, vec!["./t", "-r", "junit"]);
}

#[test]
fn selections_resolve_to_filters() {
    let mut tests = provola::AvailableTests::new();
    tests.push("Foo".to_string(), "Foo1".to_string());
    tests.push("Bar".to_string(), "Bar1".to_string());

    let all = TestRunnerOpt { only: Only::All };
    assert!(make_test_filter(&all, &tests).is_none());

    let by_index = TestRunnerOpt {
        only: Only::SingleByIndex(1),
    };
    assert_eq!(make_test_filter(&by_index, &tests).unwrap(), "Bar.Bar1");

    let out_of_range = TestRunnerOpt {
        only: Only::SingleByIndex(9),
    };
    assert!(make_test_filter(&out_of_range, &tests).is_none());

    let id = tests.get(0).unwrap().id;
    let by_id = TestRunnerOpt {
        only: Only::SingleByFqtc(id),
    };
    assert_eq!(make_test_filter(&by_id, &tests).unwrap(), "Foo.Foo1");
}

#[test]
fn languages_parse_case_insensitively() {
    assert!(matches!(Language::from_str("Rust"), Ok(Language::Rust)));
    assert!(matches!(Language::from_str("CPP"), Ok(Language::CPlusPlus)));
    assert!(matches!(Language::from_str("c#"), Ok(Language::CSharp)));
    assert!(Language::from_str("klingon").is_err());
    assert_eq!(Language::Rust.name(), "Rust");
    assert_eq!(Language::CPlusPlus.name(), "C++");
}

#[test]
fn languages_are_guessed_from_the_extension() {
    assert!(matches!(
        Language::from_source("dir/app.cpp"),
        Some(Language::CPlusPlus)
    ));
    assert!(matches!(Language::from_source("run.sh"), Some(Language::Bash)));
    assert!(matches!(Language::from_source("m.hs"), Some(Language::Haskell)));
    assert!(Language::from_source("dir/.bashrc").is_none());
    assert!(Language::from_source("noext").is_none());
    assert!(Language::from_source("main.rs").is_none());
}
