//! Tests of the matcher-result conversions, the check entry point, and the
//! displayed form of a failure.

use test_rust::internal::test_outcome::TestAssertionFailure;
use test_rust::prelude::{check, eq, Matcher, MatcherResult};

#[test]
fn matcher_result_bool_round_trip() {
    let m: MatcherResult = MatcherResult::Match;
    let n: MatcherResult = MatcherResult::NoMatch;
    assert_eq!(MatcherResult::from(bool::from(m)), m);
    assert_eq!(MatcherResult::from(bool::from(n)), n);
    assert!(bool::from(MatcherResult::from(true)));
    assert!(!bool::from(MatcherResult::from(false)));
}

#[test]
fn matcher_result_predicates() {
    assert!(MatcherResult::Match.is_match());
    assert!(!MatcherResult::Match.is_no_match());
    assert!(MatcherResult::NoMatch.is_no_match());
    assert!(!MatcherResult::NoMatch.is_match());
}

#[test]
fn check_of_equal_values_succeeds() {
    let result = check(5, eq(5), "x", "assertion_tests.rs", 26);
    assert!(result.is_ok());
}

#[test]
fn check_of_unequal_values_reports_all_four_lines() {
    let failure = check(5, eq(6), "x", "assertion_tests.rs", 32).unwrap_err();
    let lines: Vec<&str> = failure.description.split('\n').collect();
    assert_eq!(
        lines,
        vec!["Value of: x", "Expected: is equal to 6", "Actual: 5,", "  which isn't equal to 6"],
    );
}

#[test]
fn check_of_multiline_strings_exercises_the_diff_path() {
    let failure = check("a\nb", eq("a\nc"), "s", "assertion_tests.rs", 43).unwrap_err();
    assert!(failure.description.contains("Value of: s"));
    assert!(failure.description.contains("Expected: is equal to \"a\\nc\""));
    assert!(failure.description.contains("Actual: \"a\\nb\","));
    assert!(failure.description.contains("  which isn't equal to \"a\\nc\""));
    // The diff summary shows the un-escaped lines of both texts.
    assert!(failure.description.contains("  Difference(-actual / +expected):"));
    assert!(failure.description.contains("  - a\n  - b"));
    assert!(failure.description.contains("  + a\n  + c"));
}

#[test]
fn diff_of_distant_texts_is_not_shown() {
    let actual = "a0\na1\na2\na3\na4\na5\na6\na7\na8\na9\na10\na11\na12\na13\na14\na15\na16\na17\na18\na19\na20\na21\na22\na23\na24\na25\na26";
    let expected = "b0\nb1\nb2\nb3\nb4\nb5\nb6\nb7\nb8\nb9\nb10\nb11\nb12\nb13\nb14\nb15\nb16\nb17\nb18\nb19\nb20\nb21\nb22\nb23\nb24\nb25\nb26";
    let failure = check(actual, eq(expected), "t", "assertion_tests.rs", 60).unwrap_err();
    assert!(!failure.description.contains("Difference"));
    assert!(failure.description.contains("which isn't equal to"));
}

#[test]
fn diff_of_equal_texts_states_that_they_are_equal() {
    let matcher = eq("a\nb");
    let explanation = Matcher::<&str>::explain_match(&matcher, "a\nb").to_display_string();
    assert!(explanation.starts_with("which is equal to \"a\\nb\""));
    assert!(explanation.contains("No difference found between the two texts."));
}

#[test]
fn displayed_failure_ends_with_the_location_line() {
    let failure = check(1, eq(2), "one", "assertion_tests.rs", 52).unwrap_err();
    let displayed = failure.to_display_string();
    assert!(displayed.ends_with("\n  at assertion_tests.rs:52\n"));
    assert!(displayed.starts_with("Value of: one\n"));
}

#[test]
fn custom_message_appears_between_description_and_location() {
    let mut failure = check(1, eq(2), "one", "assertion_tests.rs", 61).unwrap_err();
    failure.custom_message = Some("extra context".to_string());
    let displayed = failure.to_display_string();
    let expected_tail = format!("{}\nextra context\n  at assertion_tests.rs:61\n", failure.description);
    assert_eq!(displayed, expected_tail);
}

#[test]
fn long_actual_values_are_pretty_printed() {
    let long = [
        "a long entry", "a long entry", "a long entry", "a long entry", "a long entry",
    ];
    let failure = check(long, eq(["short"; 5]), "long", "assertion_tests.rs", 71).unwrap_err();
    // The single-line rendering exceeds the threshold, so the actual value
    // appears in its multi-line pretty form.
    assert!(failure.description.contains("Actual: [\n"));
}

#[test]
fn failure_create_records_description_and_location() {
    let failure = TestAssertionFailure::create("boom".to_string(), "deep/file.rs", 4294967295);
    assert_eq!(failure.description, "boom");
    assert_eq!(failure.custom_message, None);
    assert_eq!(failure.to_display_string(), "boom\n  at deep/file.rs:4294967295\n");
}

#[test]
fn single_digit_and_multi_digit_lines_render_in_decimal() {
    let low = TestAssertionFailure::create("d".to_string(), "f.rs", 0);
    assert_eq!(low.to_display_string(), "d\n  at f.rs:0\n");
    let mid = TestAssertionFailure::create("d".to_string(), "f.rs", 107);
    assert_eq!(mid.to_display_string(), "d\n  at f.rs:107\n");
}

#[test]
fn check_reports_the_recorded_location() {
    let failure = check(3, eq(4), "three", "some_file.rs", 99).unwrap_err();
    let displayed = failure.to_display_string();
    assert!(displayed.ends_with("  at some_file.rs:99\n"));
}
