//! Tests of the equality matcher through the check entry point.

use test_rust::internal::test_outcome::TestAssertionFailure;
use test_rust::matchers::eq_matcher::{is_multiline_string_debug, to_display_output};
use test_rust::prelude::{check, eq, Matcher, MatcherResult};

#[test]
fn eq_matches_string_reference_with_string_reference() -> Result<(), TestAssertionFailure> {
    check("A string", eq("A string"), "\"A string\"", "eq_matcher_tests.rs", 8)
}

#[test]
fn eq_matches_owned_string_with_string_reference() -> Result<(), TestAssertionFailure> {
    let value = "A string".to_string();
    check(&value, eq("A string"), "value", "eq_matcher_tests.rs", 14)
}

#[test]
fn eq_matches_owned_string_reference_with_string_reference() -> Result<(), TestAssertionFailure> {
    let value = "A string".to_string();
    check(&value, eq("A string"), "&value", "eq_matcher_tests.rs", 20)
}

#[test]
fn eq_matches_i32_with_i32() -> Result<(), TestAssertionFailure> {
    check(123, eq(123), "123", "eq_matcher_tests.rs", 25)
}

#[test]
fn eq_rejects_unequal_i32() {
    let result = check(5, eq(6), "x", "eq_matcher_tests.rs", 30);
    assert!(result.is_err());
}

#[test]
fn eq_rejects_unequal_string() {
    let result = check("left", eq("right"), "x", "eq_matcher_tests.rs", 36);
    assert!(result.is_err());
}

#[test]
fn eq_matcher_matches_reports_match_result() {
    let matcher = eq(7);
    assert!(matcher.matches(7).is_match());
    assert!(matcher.matches(8).is_no_match());
}

#[test]
fn eq_matcher_describe_phrases_both_directions() {
    let matcher = eq(6);
    let matched: MatcherResult = MatcherResult::Match;
    let not_matched: MatcherResult = MatcherResult::NoMatch;
    let positive = Matcher::<i32>::describe(&matcher, matched).to_display_string();
    let negative = Matcher::<i32>::describe(&matcher, not_matched).to_display_string();
    assert_eq!(positive, "is equal to 6");
    assert_eq!(negative, "isn't equal to 6");
}

#[test]
fn eq_matcher_explain_match_opens_with_which() {
    let matcher = eq(6);
    let explanation = Matcher::<i32>::explain_match(&matcher, 5).to_display_string();
    assert_eq!(explanation, "which isn't equal to 6");
}

#[test]
fn multiline_string_debug_is_detected() {
    assert!(is_multiline_string_debug("\"a\\nb\""));
    assert!(!is_multiline_string_debug("\"plain\""));
    assert!(!is_multiline_string_debug("plain"));
    assert!(!is_multiline_string_debug(""));
}

#[test]
fn to_display_output_unescapes_newlines() {
    assert_eq!(to_display_output("\"a\\nb\""), Some("a\nb".to_string()));
    assert_eq!(to_display_output("\"ab\""), Some("ab".to_string()));
    assert_eq!(to_display_output("no quotes"), None);
}
