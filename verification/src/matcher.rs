//! The matcher protocol: the outcome type of a match attempt, the capability
//! marker, the `Matcher` trait that every comparison predicate implements,
//! and the construction of a failure report from a failed match.

use crate::description::Description;
use crate::internal::test_outcome::TestAssertionFailure;
use vstd::prelude::*;
use vstd::string::StrSliceExecFns;
use vstd::string::StringExecFns;

verus! {

/// The result of applying a matcher to an actual value.
#[derive(Debug, PartialEq, Eq, Structural, Clone, Copy)]
pub enum MatcherResult {
    /// The actual value matches according to the matcher definition.
    Match,
    /// The actual value does not match according to the matcher definition.
    NoMatch,
}

impl MatcherResult {
    /// Returns `true` if `self` is `MatcherResult::Match`, otherwise `false`.
    pub fn is_match(self) -> (r: bool)
        ensures
            r == (self is Match),
    {
        matches!(self, MatcherResult::Match)
    }

    /// Returns `true` if `self` is `MatcherResult::NoMatch`, otherwise `false`.
    pub fn is_no_match(self) -> (r: bool)
        ensures
            r == (self is NoMatch),
    {
        matches!(self, MatcherResult::NoMatch)
    }
}

impl From<bool> for MatcherResult {
    fn from(b: bool) -> (r: MatcherResult)
        ensures
            r == (if b {
                MatcherResult::Match
            } else {
                MatcherResult::NoMatch
            }),
    {
        if b {
            MatcherResult::Match
        } else {
            MatcherResult::NoMatch
        }
    }
}

impl vstd::std_specs::convert::FromSpecImpl<bool> for MatcherResult {
    open spec fn obeys_from_spec() -> bool {
        true
    }

    open spec fn from_spec(b: bool) -> MatcherResult {
        if b {
            MatcherResult::Match
        } else {
            MatcherResult::NoMatch
        }
    }
}

impl From<MatcherResult> for bool {
    fn from(matcher_result: MatcherResult) -> (r: bool)
        ensures
            r == (matcher_result is Match),
    {
        matcher_result.is_match()
    }
}

impl vstd::std_specs::convert::FromSpecImpl<MatcherResult> for bool {
    open spec fn obeys_from_spec() -> bool {
        true
    }

    open spec fn from_spec(matcher_result: MatcherResult) -> bool {
        matcher_result is Match
    }
}

/// Law: the conversions between `MatcherResult` and `bool` are exact inverses.
/// Taking a result to its boolean form and back yields the original result,
/// and taking a boolean to a result and back yields the original boolean.
pub proof fn lemma_matcher_result_bool_round_trip(matcher_result: MatcherResult, b: bool)
    ensures
        <MatcherResult as vstd::std_specs::convert::FromSpec<bool>>::from_spec(
            <bool as vstd::std_specs::convert::FromSpec<MatcherResult>>::from_spec(matcher_result),
        ) == matcher_result,
        <bool as vstd::std_specs::convert::FromSpec<MatcherResult>>::from_spec(
            <MatcherResult as vstd::std_specs::convert::FromSpec<bool>>::from_spec(b),
        ) == b,
{
}

/// The behaviour-free capability marker: a type must declare itself a
/// `MatcherBase` before it can implement the full `Matcher` protocol.
pub trait MatcherBase {

}

/// The capability set of a comparison predicate over actual values of type
/// `ActualT`.
///
/// A matcher is pure and reusable: it carries only the expected value(s)
/// needed for the comparison. `spec_matches` is the predicate it decides, as
/// a specification; `obeys_match_spec` says whether that specification is
/// known to pin down what `matches` returns (for the equality matcher this
/// holds whenever the actual type's equality has a known specification).
pub trait Matcher<ActualT: core::fmt::Debug + Copy>: MatcherBase {
    /// The predicate this matcher decides, as a specification.
    spec fn spec_matches(&self, actual: ActualT) -> bool;

    /// Whether `spec_matches` pins down what `matches` returns.
    spec fn obeys_match_spec(&self) -> bool;

    /// Evaluates this matcher against an actual value: a pure predicate.
    fn matches(&self, actual: ActualT) -> (r: MatcherResult)
        ensures
            self.obeys_match_spec() ==> (r is Match <==> self.spec_matches(actual)),
    ;

    /// Whether `blocks` is a description this matcher may return from
    /// `describe` for `matcher_result`: each matcher pins the phrasing of
    /// its own descriptions through this specification.
    spec fn spec_describes(&self, matcher_result: MatcherResult, blocks: Seq<Seq<Seq<char>>>) -> bool;

    /// A value-independent statement of what matching (for
    /// `MatcherResult::Match`) or not matching (for `MatcherResult::NoMatch`)
    /// means; the two phrasings read naturally in both directions, and
    /// `spec_describes` says what they are.
    fn describe(&self, matcher_result: MatcherResult) -> (r: Description)
        ensures
            r.indentation() == 0,
            self.spec_describes(matcher_result, r.blocks()),
    ;

    /// Explains why `actual` matched or failed to match: the statement of
    /// the evaluated outcome, opened with "which " so it reads as a clause of
    /// a larger sentence.
    fn explain_match(&self, actual: ActualT) -> (r: Description)
        ensures
            r.indentation() == 0,
            exists|rest: Seq<char>| r.blocks() == spec_which_clause(rest),
    {
        let result = self.matches(actual);
        let description = self.describe(result);
        let rendered = description.to_display_string();
        let mut text = "which ".to_owned();
        text.append(rendered.as_str());
        let r = Description::from_text(text.as_str());
        proof {
            assert(r.blocks() == spec_which_clause(rendered@));
        }
        r
    }
}

/// The blocks of a description that opens with "which " and continues with
/// `rest`: a single block holding the lines of the whole clause.
pub open spec fn spec_which_clause(rest: Seq<char>) -> Seq<Seq<Seq<char>>> {
    seq![crate::internal::description_renderer::spec_lines("which "@ + rest)]
}

/// Any actual value whose rendering is longer than this many characters is
/// pretty-printed in a failure report; a shorter one keeps the single-line
/// form.
pub const PRETTY_PRINT_LENGTH_THRESHOLD: usize = 60;

/// Relies on `format!` with `core::fmt::Debug`: renders `value` through its
/// `Debug` implementation, single-line. Nothing is assumed of the text that
/// comes back.
#[verifier::external_body]
pub(crate) fn debug_format<T: core::fmt::Debug>(value: &T) -> String {
    format!("{value:?}")
}

/// Relies on `format!` with `core::fmt::Debug` in its alternate, pretty,
/// multi-line form. Nothing is assumed of the text that comes back.
#[verifier::external_body]
pub(crate) fn debug_format_pretty<T: core::fmt::Debug>(value: &T) -> String {
    format!("{value:#?}")
}

/// The shape of every failure description: the checked expression, the
/// expectation, the actual value (pretty-printed or not), and the indented
/// explanation of the mismatch.
pub open spec fn spec_failure_description(
    expr: Seq<char>,
    expected: Seq<char>,
    actual: Seq<char>,
    explanation: Seq<char>,
) -> Seq<char> {
    "Value of: "@ + expr + seq!['\n'] + "Expected: "@ + expected + seq!['\n'] + "Actual: "@
        + actual + seq![','] + seq!['\n'] + explanation
}

/// Composes the failure description from its already-rendered parts.
pub fn compose_failure_description(
    actual_expr: &str,
    expected: &str,
    actual_formatted: &str,
    explanation: &str,
) -> (r: String)
    ensures
        r@ == spec_failure_description(actual_expr@, expected@, actual_formatted@, explanation@),
        r@.len() > 0,
{
    let mut out = "Value of: ".to_owned();
    out.append(actual_expr);
    out.append("\n");
    out.append("Expected: ");
    out.append(expected);
    out.append("\n");
    out.append("Actual: ");
    out.append(actual_formatted);
    out.append(",\n");
    out.append(explanation);
    proof {
        reveal_strlit("Value of: ");
        reveal_strlit("\n");
        reveal_strlit(",\n");
        assert("\n"@ =~= seq!['\n']);
        assert(",\n"@ =~= seq![','] + seq!['\n']);
        assert(out@ =~= spec_failure_description(
            actual_expr@,
            expected@,
            actual_formatted@,
            explanation@,
        ));
    }
    out
}

/// Constructs a `TestAssertionFailure` reporting that `matcher` does not
/// match the value `actual`.
///
/// `actual_expr` is the source text of the expression which was evaluated to
/// obtain `actual`; `file` and `line` locate that expression. The actual
/// value is rendered through its single-line form unless that exceeds
/// `PRETTY_PRINT_LENGTH_THRESHOLD` characters, in which case the
/// pretty-printed form is used instead.
pub(crate) fn create_assertion_failure<T: core::fmt::Debug + Copy, M: Matcher<T>>(
    matcher: &M,
    actual: T,
    actual_expr: &'static str,
    file: &'static str,
    line: u32,
) -> (r: TestAssertionFailure)
    ensures
        r.custom_message is None,
        r.location_file() == file@,
        r.location_line() == line,
        r.description@.len() > 0,
        exists|expected: Seq<char>, shown: Seq<char>, rest: Seq<char>|
            r.description@ == spec_failure_description(
                actual_expr@,
                expected,
                shown,
                crate::internal::description_renderer::spec_render_list(
                    spec_which_clause(rest),
                    crate::internal::description_renderer::INDENTATION_SIZE as nat,
                ),
            ),
{
    let actual_formatted = debug_format(&actual);
    let actual_formatted = if actual_formatted.as_str().unicode_len()
        > PRETTY_PRINT_LENGTH_THRESHOLD {
        debug_format_pretty(&actual)
    } else {
        actual_formatted
    };
    let expected_rendered = matcher.describe(MatcherResult::Match).to_display_string();
    let explanation = matcher.explain_match(actual);
    let ghost rest = choose|rest: Seq<char>| explanation.blocks() == spec_which_clause(rest);
    let explanation_rendered = explanation.indent().to_display_string();
    proof {
        assert(explanation_rendered@ == crate::internal::description_renderer::spec_render_list(
            spec_which_clause(rest),
            crate::internal::description_renderer::INDENTATION_SIZE as nat,
        ));
    }
    let description = compose_failure_description(
        actual_expr,
        expected_rendered.as_str(),
        actual_formatted.as_str(),
        explanation_rendered.as_str(),
    );
    let ghost expected = expected_rendered@;
    let ghost shown = actual_formatted@;
    let r = TestAssertionFailure::create(description, file, line);
    proof {
        assert(r.description@ == spec_failure_description(
            actual_expr@,
            expected,
            shown,
            crate::internal::description_renderer::spec_render_list(
                spec_which_clause(rest),
                crate::internal::description_renderer::INDENTATION_SIZE as nat,
            ),
        ));
    }
    r
}

} // verus!
