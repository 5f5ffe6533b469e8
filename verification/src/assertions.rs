//! The check entry point: the generic bridge from an actual value and a
//! matcher to either success or a captured `TestAssertionFailure`.

use crate::internal::description_renderer::{spec_render_list, INDENTATION_SIZE};
use crate::internal::test_outcome::TestAssertionFailure;
use crate::matcher::{
    create_assertion_failure, spec_failure_description, spec_which_clause, Matcher, MatcherResult,
};
use vstd::prelude::*;

verus! {

/// Checks `actual` against `expected` and reports the outcome.
///
/// On a match the result carries no payload; on a mismatch it carries a
/// fully formatted failure, annotated with `actual_expr` (the source text of
/// the expression that produced `actual`) and with the place that expression
/// was written, `file` and `line`. This is the seam the public assertion
/// macro plugs into.
pub fn check<T: core::fmt::Debug + Copy, M: Matcher<T>>(
    actual: T,
    expected: M,
    actual_expr: &'static str,
    file: &'static str,
    line: u32,
) -> (r: Result<(), TestAssertionFailure>)
    ensures
        expected.obeys_match_spec() ==> ((r is Ok) <==> expected.spec_matches(actual)),
        r matches Err(f) ==> f.custom_message is None && f.location_file() == file@
            && f.location_line() == line && f.description@.len() > 0,
        r matches Err(f) ==> exists|e: Seq<char>, shown: Seq<char>, rest: Seq<char>|
            f.description@ == spec_failure_description(
                actual_expr@,
                e,
                shown,
                spec_render_list(spec_which_clause(rest), INDENTATION_SIZE as nat),
            ),
{
    match expected.matches(actual) {
        MatcherResult::Match => Ok(()),
        MatcherResult::NoMatch => Err(
            create_assertion_failure(&expected, actual, actual_expr, file, line),
        ),
    }
}

} // verus!
