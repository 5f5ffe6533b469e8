//! The equality matcher: matches a value equal to an expected value under
//! the actual type's own equality.

use crate::description::Description;
use crate::matcher::{debug_format, debug_format_pretty, Matcher, MatcherBase, MatcherResult};
use crate::matcher_support::edit_distance::Mode;
use crate::matcher_support::summarize_diff::{create_diff, spec_create_diff};
use vstd::prelude::*;
use vstd::std_specs::cmp::PartialEqSpec;
use vstd::string::StrSliceExecFns;
use vstd::string::StringExecFns;

verus! {

/// Creates a matcher which matches a value equal to `expected`.
pub fn eq<T>(expected: T) -> (r: EqMatcher<T>)
    ensures
        r.spec_expected() == expected,
{
    EqMatcher { expected }
}

/// A matcher which matches a value equal to `expected`.
///
/// See [`eq`].
pub struct EqMatcher<T> {
    pub(crate) expected: T,
}

impl<T> EqMatcher<T> {
    /// The value this matcher compares against.
    pub closed spec fn spec_expected(&self) -> T {
        self.expected
    }
}

impl<T> MatcherBase for EqMatcher<T> {

}

impl<T: core::fmt::Debug, A: core::fmt::Debug + Copy + PartialEq<T>> Matcher<A> for EqMatcher<T> {
    /// Law: the equality matcher matches `actual` exactly when `actual`
    /// equals the expected value under the actual type's equality.
    open spec fn spec_matches(&self, actual: A) -> bool {
        actual.eq_spec(&self.spec_expected())
    }

    open spec fn obeys_match_spec(&self) -> bool {
        A::obeys_eq_spec()
    }

    fn matches(&self, actual: A) -> (r: MatcherResult) {
        MatcherResult::from(actual == self.expected)
    }

    /// The equality matcher's descriptions open with "is equal to " for a
    /// match and "isn't equal to " for a mismatch, followed by some
    /// rendering of the expected value.
    open spec fn spec_describes(&self, matcher_result: MatcherResult, blocks: Seq<Seq<Seq<char>>>) -> bool {
        exists|e: Seq<char>| blocks == spec_equality_phrase(matcher_result, e)
    }

    fn describe(&self, matcher_result: MatcherResult) -> (r: Description) {
        match matcher_result {
            MatcherResult::Match => {
                let rendered = debug_format(&self.expected);
                let mut text = "is equal to ".to_owned();
                text.append(rendered.as_str());
                let r = Description::from_text(text.as_str());
                proof {
                    assert(r.blocks() == spec_equality_phrase(matcher_result, rendered@));
                }
                r
            },
            MatcherResult::NoMatch => {
                let rendered = debug_format(&self.expected);
                let mut text = "isn't equal to ".to_owned();
                text.append(rendered.as_str());
                let r = Description::from_text(text.as_str());
                proof {
                    assert(r.blocks() == spec_equality_phrase(matcher_result, rendered@));
                }
                r
            },
        }
    }

    fn explain_match(&self, actual: A) -> (r: Description)
        ensures
            exists|desc: Seq<char>, ad: Seq<char>, ed: Seq<char>|
                r.blocks() == crate::matcher::spec_which_clause(
                    spec_explanation_rest(desc, ad, ed),
                ),
            Matcher::<A>::obeys_match_spec(self) ==> exists|
                mr: MatcherResult,
                e: Seq<char>,
                ad: Seq<char>,
                ed: Seq<char>,
            |
                mr == (if self.spec_matches(actual) {
                    MatcherResult::Match
                } else {
                    MatcherResult::NoMatch
                }) && r.blocks() == crate::matcher::spec_which_clause(
                    #[trigger] spec_explanation_rest(
                        crate::internal::description_renderer::spec_render_list(
                            spec_equality_phrase(mr, e),
                            0,
                        ),
                        ad,
                        ed,
                    ),
                ),
    {
        let expected_debug = debug_format_pretty(&self.expected);
        let actual_debug = debug_format_pretty(&actual);
        let ghost ad = actual_debug@;
        let ghost ed = expected_debug@;
        let result = Matcher::<A>::matches(self, actual);
        let description = Matcher::<A>::describe(self, result);

        let diff = if is_multiline_string_debug(actual_debug.as_str())
            && is_multiline_string_debug(expected_debug.as_str()) {
            // The two conversions below succeed exactly when their inputs
            // are enclosed in quotes, which the two checks above guarantee.
            let actual_display = to_display_output(actual_debug.as_str()).unwrap();
            let expected_display = to_display_output(expected_debug.as_str()).unwrap();
            create_diff(actual_display.as_str(), expected_display.as_str(), Mode::Exact)
        } else {
            create_diff(actual_debug.as_str(), expected_debug.as_str(), Mode::Exact)
        };
        proof {
            assert(diff@ == spec_eq_diff(ad, ed));
        }

        let rendered = description.to_display_string();
        let ghost desc = rendered@;
        let mut text = "which ".to_owned();
        text.append(rendered.as_str());
        if !diff.as_str().is_empty() {
            text.append("\n\n");
            text.append(diff.as_str());
        }
        proof {
            assert(text@ =~= "which "@ + spec_explanation_rest(desc, ad, ed));
        }
        let r = Description::from_text(text.as_str());
        proof {
            assert(r.blocks() == crate::matcher::spec_which_clause(
                spec_explanation_rest(desc, ad, ed),
            ));
            let e = choose|e: Seq<char>| description.blocks() == spec_equality_phrase(result, e);
            if Matcher::<A>::obeys_match_spec(self) {
                assert(result == (if self.spec_matches(actual) {
                    MatcherResult::Match
                } else {
                    MatcherResult::NoMatch
                }));
                assert(desc == crate::internal::description_renderer::spec_render_list(
                    spec_equality_phrase(result, e),
                    0,
                ));
                assert(r.blocks() == crate::matcher::spec_which_clause(spec_explanation_rest(
                    crate::internal::description_renderer::spec_render_list(
                        spec_equality_phrase(result, e),
                        0,
                    ),
                    ad,
                    ed,
                )));
            }
        }
        r
    }
}

/// The blocks of an equality matcher's description: a single block holding
/// the lines of "is equal to {expected}" for a match, or of "isn't equal to
/// {expected}" for a mismatch, where `e` is the rendering of the expected
/// value.
pub open spec fn spec_equality_phrase(matcher_result: MatcherResult, e: Seq<char>) -> Seq<
    Seq<Seq<char>>,
> {
    seq![
        crate::internal::description_renderer::spec_lines(
            (if matcher_result is Match {
                "is equal to "@
            } else {
                "isn't equal to "@
            }) + e,
        ),
    ]
}

/// The text a quoted, escaped debug form displays as: its interior with
/// every escaped newline made real.
pub open spec fn spec_display_text(s: Seq<char>) -> Seq<char> {
    spec_unescape_nl(s.subrange(1, s.len() - 1))
}

/// The diff consulted for an equality mismatch with debug forms `ad`
/// (actual) and `ed` (expected): taken over the un-escaped texts when both
/// forms are single-line quoted multi-line strings, else over the forms
/// themselves.
pub open spec fn spec_eq_diff(ad: Seq<char>, ed: Seq<char>) -> Seq<char> {
    if spec_is_multiline_string_debug(ad) && spec_is_multiline_string_debug(ed) {
        spec_create_diff(spec_display_text(ad), spec_display_text(ed))
    } else {
        spec_create_diff(ad, ed)
    }
}

/// What follows "which " in an equality-mismatch explanation built from the
/// description rendering `desc` and the debug forms `ad` and `ed`: the
/// description alone when the diff is empty, else the description, a blank
/// line and the diff.
pub open spec fn spec_explanation_rest(desc: Seq<char>, ad: Seq<char>, ed: Seq<char>) -> Seq<
    char,
> {
    if spec_eq_diff(ad, ed).len() == 0 {
        desc
    } else {
        desc + "\n\n"@ + spec_eq_diff(ad, ed)
    }
}

/// Law: the equality matcher's predicate is exactly equality of the actual
/// value with the expected value, under the actual type's own equality
/// specification.
pub proof fn lemma_eq_matcher_matches_iff_equal<
    T: core::fmt::Debug,
    A: core::fmt::Debug + Copy + PartialEq<T>,
>(m: EqMatcher<T>, actual: A)
    ensures
        m.spec_matches(actual) <==> actual.eq_spec(&m.spec_expected()),
{
}

/// Whether `s` is the single-line debug form of a text spanning several
/// logical lines: enclosed in quotes, free of real newlines, and containing
/// at least one escaped newline.
pub open spec fn spec_is_multiline_string_debug(s: Seq<char>) -> bool {
    &&& s.len() >= 1
    &&& s[0] == '"'
    &&& s[s.len() - 1] == '"'
    &&& (forall|i: int| 0 <= i < s.len() ==> s[i] != '\n')
    &&& (exists|i: int| 0 <= i < s.len() - 1 && #[trigger] s[i] == '\\' && s[i + 1] == 'n')
}

/// Decides whether `string` is the debug rendering of a multi-line text:
/// it starts and ends with a quote, contains no newline, and contains an
/// escaped newline.
pub fn is_multiline_string_debug(string: &str) -> (r: bool)
    ensures
        r == spec_is_multiline_string_debug(string@),
{
    let n = string.unicode_len();
    if n == 0 {
        return false;
    }
    if string.get_char(0) != '"' {
        return false;
    }
    if string.get_char(n - 1) != '"' {
        return false;
    }
    let mut i: usize = 0;
    let mut found = false;
    while i < n
        invariant
            n == string@.len(),
            i <= n,
            forall|t: int| 0 <= t < i ==> string@[t] != '\n',
            found == (exists|t: int|
                0 <= t < i && t < n - 1 && #[trigger] string@[t] == '\\' && string@[t + 1] == 'n'),
        decreases n - i,
    {
        let c = string.get_char(i);
        if c == '\n' {
            return false;
        }
        if !found && c == '\\' && i + 1 < n && string.get_char(i + 1) == 'n' {
            found = true;
            proof {
                assert(string@[i as int] == '\\' && string@[i + 1] == 'n');
            }
        }
        i += 1;
    }
    found
}

/// The interior of a debug-escaped text with every escaped newline made
/// real: each two-character `\n` escape becomes one newline character.
pub open spec fn spec_unescape_nl(s: Seq<char>) -> Seq<char>
    decreases s.len(),
{
    if s.len() >= 2 && s[0] == '\\' && s[1] == 'n' {
        seq!['\n'] + spec_unescape_nl(s.skip(2))
    } else if s.len() > 0 {
        seq![s[0]] + spec_unescape_nl(s.skip(1))
    } else {
        Seq::empty()
    }
}

/// Strips the enclosing quotes from a debug rendering and turns every
/// escaped newline into a real one; yields nothing when the input is not
/// enclosed in quotes.
pub fn to_display_output(string: &str) -> (r: Option<String>)
    ensures
        match r {
            Some(out) => string@.len() >= 2 && string@[0] == '"' && string@[string@.len() - 1]
                == '"' && out@ == spec_unescape_nl(string@.subrange(1, string@.len() - 1)),
            None => !(string@.len() >= 2 && string@[0] == '"' && string@[string@.len() - 1]
                == '"'),
        },
{
    let n = string.unicode_len();
    if n < 2 || string.get_char(0) != '"' || string.get_char(n - 1) != '"' {
        return None;
    }
    let ghost inner = string@.subrange(1, n - 1);
    let mut out = String::new();
    let mut i: usize = 1;
    proof {
        assert(inner.skip(0) =~= inner);
    }
    while i < n - 1
        invariant
            n == string@.len(),
            n >= 2,
            1 <= i <= n - 1,
            inner == string@.subrange(1, n - 1),
            spec_unescape_nl(inner) == out@ + spec_unescape_nl(inner.skip(i - 1)),
        decreases n - i,
    {
        let ghost rest = inner.skip(i - 1);
        proof {
            assert(rest[0] == string@[i as int]);
            if i + 1 < n - 1 {
                assert(rest[1] == string@[i + 1]);
            }
        }
        let c = string.get_char(i);
        if c == '\\' && i + 1 < n - 1 && string.get_char(i + 1) == 'n' {
            out.append("\n");
            proof {
                reveal_strlit("\n");
                assert("\n"@ =~= seq!['\n']);
                assert(rest.len() >= 2 && rest[0] == '\\' && rest[1] == 'n');
                assert(rest.skip(2) =~= inner.skip(i + 1));
                assert(out@ + spec_unescape_nl(inner.skip(i + 1)) =~= spec_unescape_nl(inner));
            }
            i += 2;
        } else {
            let piece = string.substring_char(i, i + 1);
            out.append(piece);
            proof {
                assert(!(rest.len() >= 2 && rest[0] == '\\' && rest[1] == 'n'));
                assert(rest.len() > 0);
                assert(piece@ =~= seq![rest[0]]);
                assert(rest.skip(1) =~= inner.skip(i as int));
                assert(out@ + spec_unescape_nl(inner.skip(i as int)) =~= spec_unescape_nl(inner));
            }
            i += 1;
        }
    }
    proof {
        assert(inner.skip(n - 2) =~= inner.skip(i - 1));
        assert(spec_unescape_nl(inner.skip(i - 1)) =~= Seq::<char>::empty());
        assert(out@ =~= spec_unescape_nl(inner));
    }
    Some(out)
}

} // verus!
