//! The diff extension point: a pluggable summary of how an expected and an
//! actual text differ, consulted by match explanations when both compared
//! values span several lines.

use crate::internal::description_renderer::{frag_views, spec_lines, split_lines, Fragment};
use crate::matcher_support::edit_distance::{edit_distance, lines_edit_distance, Mode};
use vstd::prelude::*;
use vstd::string::StrSliceExecFns;
use vstd::string::StringExecFns;

verus! {

/// Maximum edit distance, in lines, at which a comparison view is still
/// worth showing; two texts further apart share too little to compare
/// usefully.
pub const MAX_WORTHWHILE_EDIT_DISTANCE: usize = 25;

/// Whether two strings hold the same characters.
pub(crate) fn str_eq(a: &str, b: &str) -> (r: bool)
    ensures
        r == (a@ == b@),
{
    let n = a.unicode_len();
    if n != b.unicode_len() {
        return false;
    }
    let mut i: usize = 0;
    while i < n
        invariant
            n == a@.len(),
            n == b@.len(),
            i <= n,
            forall|t: int| 0 <= t < i ==> a@[t] == b@[t],
        decreases n - i,
    {
        if a.get_char(i) != b.get_char(i) {
            return false;
        }
        i += 1;
    }
    proof {
        assert(a@ =~= b@);
    }
    true
}

/// The lines of `ls`, each on a fresh line opened by `marker`.
pub open spec fn marked_lines(ls: Seq<Seq<char>>, marker: Seq<char>) -> Seq<char>
    decreases ls.len(),
{
    if ls.len() == 0 {
        Seq::empty()
    } else {
        seq!['\n'] + marker + ls[0] + marked_lines(ls.skip(1), marker)
    }
}

proof fn lemma_marked_lines_push(ls: Seq<Seq<char>>, l: Seq<char>, marker: Seq<char>)
    ensures
        marked_lines(ls.push(l), marker) == marked_lines(ls, marker) + seq!['\n'] + marker + l,
    decreases ls.len(),
{
    if ls.len() == 0 {
        assert(ls.push(l).skip(1) =~= Seq::<Seq<char>>::empty());
        assert(ls.push(l)[0] == l);
        assert(ls.push(l).len() == 1);
        assert(marked_lines(Seq::<Seq<char>>::empty(), marker) == Seq::<char>::empty());
        assert(marked_lines(ls.push(l), marker) == seq!['\n'] + marker + l + marked_lines(
            ls.push(l).skip(1),
            marker,
        ));
        assert(marked_lines(ls.push(l), marker) =~= marked_lines(ls, marker) + seq!['\n']
            + marker + l);
    } else {
        lemma_marked_lines_push(ls.skip(1), l, marker);
        assert(ls.push(l).skip(1) =~= ls.skip(1).push(l));
        assert(ls.push(l)[0] == ls[0]);
        assert(marked_lines(ls.push(l), marker) =~= marked_lines(ls, marker) + seq!['\n']
            + marker + l);
    }
}

/// Appends each of `lines` to `out`, each on a fresh line opened by
/// `marker`.
fn append_marked_lines(out: &mut String, lines: &Vec<Fragment>, marker: &str)
    ensures
        final(out)@ == old(out)@ + marked_lines(frag_views(lines@), marker@),
{
    let mut i: usize = 0;
    proof {
        assert(frag_views(lines@).take(0) =~= Seq::<Seq<char>>::empty());
        assert(out@ =~= old(out)@ + marked_lines(frag_views(lines@).take(0), marker@));
    }
    while i < lines.len()
        invariant
            i <= lines@.len(),
            out@ == old(out)@ + marked_lines(frag_views(lines@).take(i as int), marker@),
        decreases lines@.len() - i,
    {
        out.append("\n");
        out.append(marker);
        out.append(lines[i].text());
        proof {
            reveal_strlit("\n");
            assert("\n"@ =~= seq!['\n']);
            let lv = frag_views(lines@);
            lemma_marked_lines_push(lv.take(i as int), lv[i as int], marker@);
            assert(lv.take(i + 1) =~= lv.take(i as int).push(lv[i as int]));
            assert(lv[i as int] == lines@[i as int]@);
            assert(out@ =~= old(out)@ + marked_lines(lv.take(i + 1), marker@));
        }
        i += 1;
    }
    proof {
        assert(frag_views(lines@).take(lines@.len() as int) =~= frag_views(lines@));
    }
}

/// What the diff summary shows: nothing when either text has fewer than two
/// lines, or when the two texts' edit distance is past the worthwhile
/// threshold; an explicit statement when the texts are identical; otherwise
/// the full line-by-line comparison view.
pub open spec fn spec_create_diff(actual: Seq<char>, expected: Seq<char>) -> Seq<char> {
    if spec_lines(actual).len() < 2 || spec_lines(expected).len() < 2 {
        Seq::empty()
    } else if actual == expected {
        "No difference found between the two texts."@
    } else if edit_distance(spec_lines(actual), spec_lines(expected))
        > MAX_WORTHWHILE_EDIT_DISTANCE as nat {
        Seq::empty()
    } else {
        "Difference(-actual / +expected):"@ + marked_lines(spec_lines(actual), "- "@)
            + marked_lines(spec_lines(expected), "+ "@)
    }
}

/// Returns a string describing how the expected and actual lines differ.
///
/// This is included in a match explanation for the equality matcher. If
/// either value has fewer than two lines, or the two differ by more than the
/// maximum worthwhile edit distance, this returns the empty string. If the
/// two are equal, it returns a simple statement that they are equal.
/// Otherwise it returns a line-oriented view of the full comparison, every
/// actual line marked `-` and every expected line marked `+`.
pub(crate) fn create_diff(actual_debug: &str, expected_debug: &str, _mode: Mode) -> (r: String)
    ensures
        r@ == spec_create_diff(actual_debug@, expected_debug@),
{
    let actual_lines = split_lines(actual_debug);
    let expected_lines = split_lines(expected_debug);
    if actual_lines.len() < 2 || expected_lines.len() < 2 {
        return String::new();
    }
    if str_eq(actual_debug, expected_debug) {
        return "No difference found between the two texts.".to_owned();
    }
    let distance = lines_edit_distance(&actual_lines, &expected_lines);
    if distance > MAX_WORTHWHILE_EDIT_DISTANCE {
        return String::new();
    }
    let mut out = "Difference(-actual / +expected):".to_owned();
    append_marked_lines(&mut out, &actual_lines, "- ");
    append_marked_lines(&mut out, &expected_lines, "+ ");
    out
}

} // verus!
