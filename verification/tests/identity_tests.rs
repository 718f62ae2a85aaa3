//! The identity scheme and the catalog: stable identifiers, the flat list
//! and the suite-indexed view.

use provola::catalog::AvailableTests;
use provola::identity::FullyQualifiedTestCase;
use provola::identity::TestCase;
use provola::identity::TestSuite;

#[test]
fn xunit_id_from_fqtc() {
    let fqtc = FullyQualifiedTestCase::from_test_suite_test_case("foo".to_string(), "bar".to_string());

    let id = fqtc.id;

    assert_eq!(id.to_string(), "48730E17FEB9A107");
}

#[test]
fn test_runners_id_from_fqtc() {
    let fqtc = FullyQualifiedTestCase::from_test_suite_test_case("foo".to_string(), "bar".to_string());

    let id = fqtc.id;

    assert_eq!(id.to_string(), "48730E17FEB9A107");
}

#[test]
fn xunit_push_test_suite_test_case() {
    let mut available_tests = AvailableTests::default();
    assert!(available_tests.is_empty());
    available_tests.push("foo".to_string(), "bar".to_string());
    assert_eq!(available_tests.len(), 1);
}

#[test]
fn test_runners_push_test_suite_test_case() {
    let mut available_tests = AvailableTests::default();
    assert!(available_tests.is_empty());
    available_tests.push("foo".to_string(), "bar".to_string());
    assert_eq!(available_tests.len(), 1);
}

#[test]
fn xunit_enumerate_available_tests() {
    let mut available_tests = AvailableTests::default();
    assert!(available_tests.is_empty());
    available_tests.push("foo".to_string(), "bar".to_string());
    assert_eq!(available_tests.len(), 1);
}

#[test]
fn test_runners_enumerate_available_tests() {
    let mut available_tests = AvailableTests::default();
    assert!(available_tests.is_empty());
    available_tests.push("foo".to_string(), "bar".to_string());
    assert_eq!(available_tests.len(), 1);
}

#[test]
fn identity_is_deterministic_across_calls() {
    let a = provola::calculate_id(
        &TestSuite("MathTests".to_string()),
        &TestCase("Add".to_string()),
    );
    let b = provola::calculate_id(
        &TestSuite("MathTests".to_string()),
        &TestCase("Add".to_string()),
    );
    assert_eq!(a, b);
}

#[test]
fn identity_renders_as_suite_dot_case() {
    let fqtc = FullyQualifiedTestCase::from_test_suite_test_case("foo".to_string(), "bar".to_string());
    assert_eq!(fqtc.to_string(), "foo.bar");
}

#[test]
fn fresh_catalog_is_empty() {
    let available_tests = AvailableTests::new();
    assert!(available_tests.is_empty());
    assert_eq!(available_tests.len(), 0);
    assert_eq!(available_tests.test_suites().len(), 0);
}

#[test]
fn push_updates_both_views() {
    let mut available_tests = AvailableTests::new();
    available_tests.push("foo".to_string(), "bar".to_string());
    assert_eq!(available_tests.len(), 1);
    let groups = available_tests.test_suites();
    assert_eq!(groups.len(), 1);
    assert_eq!(groups[0].name, "foo");
    assert_eq!(groups[0].cases.len(), 1);
    assert_eq!(groups[0].cases[0].test_case.0, "bar");
}

#[test]
fn suites_are_indexed_in_ascending_name_order() {
    let mut available_tests = AvailableTests::new();
    available_tests.push("zeta".to_string(), "one".to_string());
    available_tests.push("alpha".to_string(), "two".to_string());
    available_tests.push("zeta".to_string(), "three".to_string());
    assert_eq!(available_tests.len(), 3);
    let groups = available_tests.test_suites();
    assert_eq!(groups.len(), 2);
    assert_eq!(groups[0].name, "alpha");
    assert_eq!(groups[1].name, "zeta");
    assert_eq!(groups[1].cases.len(), 2);
    assert_eq!(groups[1].cases[0].test_case.0, "one");
    assert_eq!(groups[1].cases[1].test_case.0, "three");
}

#[test]
fn get_and_enumerate_follow_encounter_order() {
    let mut available_tests = AvailableTests::new();
    available_tests.push("b".to_string(), "one".to_string());
    available_tests.push("a".to_string(), "two".to_string());
    let first = available_tests.get(0).unwrap();
    assert_eq!(first.test_suite.0, "b");
    assert!(available_tests.get(2).is_none());
    let enumerated = available_tests.enumerate();
    assert_eq!(enumerated.len(), 2);
    assert_eq!(enumerated[0].0, 0);
    assert_eq!(enumerated[1].1.test_suite.0, "a");
}

#[test]
fn cases_compare_by_identifier_alone() {
    let a = FullyQualifiedTestCase::from_test_suite_test_case("foo".to_string(), "bar".to_string());
    let b = FullyQualifiedTestCase::from_test_suite_test_case("foo".to_string(), "bar".to_string());
    let c = FullyQualifiedTestCase::from_test_suite_test_case("foo".to_string(), "baz".to_string());
    assert!(a == b);
    assert!(a != c);
}
