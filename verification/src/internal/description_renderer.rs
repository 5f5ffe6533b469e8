//! The rendering primitive behind `Description`: lists of blocks of text
//! lines, laid out with a uniform indentation.
//!
//! The specification model is plain sequences: a fragment is a sequence of
//! characters (one line of text), a block is a sequence of fragments, and a
//! list is a sequence of blocks. Rendering joins the lines of the non-empty
//! blocks with single newlines, prefixing every line with the indentation.

use vstd::prelude::*;
use vstd::string::StrSliceExecFns;
use vstd::string::StringExecFns;

verus! {

/// Number of spaces used to indent lines when no alignment is required.
pub const INDENTATION_SIZE: usize = 2;

/// A sequence of `n` spaces.
pub open spec fn spec_spaces(n: nat) -> Seq<char> {
    Seq::new(n, |i: int| ' ')
}

/// The index of the first newline in `s`, or `s.len()` if there is none.
pub open spec fn first_nl(s: Seq<char>) -> nat
    decreases s.len(),
{
    if s.len() == 0 {
        0
    } else if s[0] == '\n' {
        0
    } else {
        1 + first_nl(s.skip(1))
    }
}

/// A line with a trailing carriage return loses it: this is how a line
/// ending in `\r\n` is reduced to its text.
pub open spec fn strip_cr(line: Seq<char>) -> Seq<char> {
    if line.len() > 0 && line[line.len() - 1] == '\r' {
        line.take(line.len() - 1)
    } else {
        line
    }
}

/// The lines of `s`: pieces separated by `\n` (a preceding `\r` belongs to
/// the separator), where a trailing line terminator does not open a final
/// empty line, and the empty text has no lines at all.
pub open spec fn spec_lines(s: Seq<char>) -> Seq<Seq<char>>
    decreases s.len(),
{
    if s.len() == 0 {
        Seq::empty()
    } else {
        let i = first_nl(s);
        if i >= s.len() {
            seq![s]
        } else {
            seq![strip_cr(s.take(i as int))] + spec_lines(s.skip(i + 1 as int))
        }
    }
}

/// Lines joined by single newlines, with no trailing newline.
pub open spec fn join_lines(lines: Seq<Seq<char>>) -> Seq<char>
    decreases lines.len(),
{
    if lines.len() == 0 {
        Seq::empty()
    } else if lines.len() == 1 {
        lines[0]
    } else {
        lines[0] + seq!['\n'] + join_lines(lines.skip(1))
    }
}

/// The output lines of one block: every fragment becomes one line, the first
/// one prefixed by the indentation and the prefix, continuation lines aligned
/// under where the first line's text started.
pub open spec fn block_lines(frags: Seq<Seq<char>>, ind: nat, pre: Seq<char>) -> Seq<Seq<char>> {
    if frags.len() == 0 {
        Seq::empty()
    } else {
        seq![spec_spaces(ind) + pre + frags[0]] + frags.skip(1).map_values(
            |f: Seq<char>| spec_spaces(ind + pre.len()) + f,
        )
    }
}

/// The output lines of a whole list: the lines of its blocks in order; a
/// block without fragments contributes nothing.
pub open spec fn render_lines(blocks: Seq<Seq<Seq<char>>>, ind: nat) -> Seq<Seq<char>>
    decreases blocks.len(),
{
    if blocks.len() == 0 {
        Seq::empty()
    } else {
        block_lines(blocks[0], ind, Seq::empty()) + render_lines(blocks.skip(1), ind)
    }
}

/// The rendering of one block as text.
pub open spec fn spec_render_block(frags: Seq<Seq<char>>, ind: nat, pre: Seq<char>) -> Seq<char> {
    join_lines(block_lines(frags, ind, pre))
}

/// The rendering of a whole list as text.
pub open spec fn spec_render_list(blocks: Seq<Seq<Seq<char>>>, ind: nat) -> Seq<char> {
    join_lines(render_lines(blocks, ind))
}

/// The number of newline characters in `s`.
pub open spec fn nl_count(s: Seq<char>) -> nat
    decreases s.len(),
{
    if s.len() == 0 {
        0
    } else {
        (if s[0] == '\n' {
            1nat
        } else {
            0nat
        }) + nl_count(s.skip(1))
    }
}

pub proof fn lemma_first_nl(s: Seq<char>)
    ensures
        first_nl(s) <= s.len(),
        first_nl(s) < s.len() ==> s[first_nl(s) as int] == '\n',
        forall|j: int| 0 <= j < first_nl(s) ==> s[j] != '\n',
    decreases s.len(),
{
    if s.len() == 0 {
    } else if s[0] == '\n' {
    } else {
        lemma_first_nl(s.skip(1));
        assert forall|j: int| 0 <= j < first_nl(s) implies s[j] != '\n' by {
            if j > 0 {
                assert(s.skip(1)[j - 1] == s[j]);
            }
        }
    }
}

pub proof fn lemma_first_nl_at(s: Seq<char>, i: int)
    requires
        0 <= i <= s.len(),
        forall|j: int| 0 <= j < i ==> s[j] != '\n',
        i < s.len() ==> s[i] == '\n',
    ensures
        first_nl(s) == i,
{
    lemma_first_nl(s);
    if first_nl(s) < i {
        assert(s[first_nl(s) as int] == '\n');
        assert(false);
    }
    if first_nl(s) > i {
        assert(i < s.len());
        assert(s[i] != '\n');
        assert(false);
    }
}

/// Joining a concatenation of two non-empty line sequences joins each part
/// and separates the parts by one newline.
pub proof fn lemma_join_lines_concat(a: Seq<Seq<char>>, b: Seq<Seq<char>>)
    requires
        a.len() > 0,
        b.len() > 0,
    ensures
        join_lines(a + b) == join_lines(a) + seq!['\n'] + join_lines(b),
    decreases a.len(),
{
    if a.len() == 1 {
        if b.len() == 1 {
            assert((a + b).len() == 2);
            assert((a + b).skip(1) =~= b);
            assert(join_lines(a + b) =~= a[0] + seq!['\n'] + b[0]);
        } else {
            assert((a + b).skip(1) =~= b);
        }
        assert(join_lines(a + b) =~= join_lines(a) + seq!['\n'] + join_lines(b));
    } else {
        lemma_join_lines_concat(a.skip(1), b);
        assert((a + b).skip(1) =~= a.skip(1) + b);
        assert(join_lines(a + b) =~= join_lines(a) + seq!['\n'] + join_lines(b));
    }
}

/// `render_lines` distributes over appending one more block.
pub proof fn lemma_render_lines_push(blocks: Seq<Seq<Seq<char>>>, b: Seq<Seq<char>>, ind: nat)
    ensures
        render_lines(blocks.push(b), ind) == render_lines(blocks, ind) + block_lines(
            b,
            ind,
            Seq::empty(),
        ),
    decreases blocks.len(),
{
    if blocks.len() == 0 {
        assert(blocks.push(b).skip(1) =~= Seq::<Seq<Seq<char>>>::empty());
        assert(blocks.push(b)[0] == b);
        assert(blocks.push(b).len() == 1);
        assert(render_lines(blocks.push(b), ind) == block_lines(blocks.push(b)[0], ind, Seq::empty())
            + render_lines(blocks.push(b).skip(1), ind));
        assert(render_lines(blocks.push(b), ind) =~= block_lines(b, ind, Seq::empty()));
        assert(render_lines(blocks, ind) + block_lines(b, ind, Seq::empty()) =~= block_lines(
            b,
            ind,
            Seq::empty(),
        ));
    } else {
        lemma_render_lines_push(blocks.skip(1), b, ind);
        assert(blocks.push(b).skip(1) =~= blocks.skip(1).push(b));
        assert(blocks.push(b)[0] == blocks[0]);
        assert(render_lines(blocks.push(b), ind) =~= render_lines(blocks, ind) + block_lines(
            b,
            ind,
            Seq::empty(),
        ));
    }
}

/// Law: rendering is indentation-monotone. Raising the indentation from `n`
/// to `n + k` yields the same lines, each with `k` more leading spaces.
pub proof fn lemma_render_indentation_monotone(blocks: Seq<Seq<Seq<char>>>, n: nat, k: nat)
    ensures
        render_lines(blocks, n + k) =~= render_lines(blocks, n).map_values(
            |l: Seq<char>| spec_spaces(k) + l,
        ),
    decreases blocks.len(),
{
    assert(spec_spaces(n + k) =~= spec_spaces(k) + spec_spaces(n));
    if blocks.len() == 0 {
    } else {
        lemma_render_indentation_monotone(blocks.skip(1), n, k);
        let b = blocks[0];
        assert(block_lines(b, n + k, Seq::empty()) =~= block_lines(b, n, Seq::empty()).map_values(
            |l: Seq<char>| spec_spaces(k) + l,
        )) by {
            if b.len() > 0 {
                let lo = block_lines(b, n, Seq::empty());
                let hi = block_lines(b, n + k, Seq::empty());
                assert forall|i: int| 0 <= i < lo.len() implies hi[i] == spec_spaces(k)
                    + lo[i] by {
                    if i == 0 {
                        assert(spec_spaces(n + k) + Seq::<char>::empty() + b[0] =~= spec_spaces(k)
                            + (spec_spaces(n) + Seq::<char>::empty() + b[0]));
                    } else {
                        assert(hi[i] == spec_spaces(n + k + Seq::<char>::empty().len()) + b.skip(
                            1,
                        )[i - 1]);
                        assert(hi[i] =~= spec_spaces(k) + lo[i]);
                    }
                }
            }
        }
        let f = |l: Seq<char>| spec_spaces(k) + l;
        assert(render_lines(blocks, n).map_values(f) =~= block_lines(
            blocks[0],
            n,
            Seq::empty(),
        ).map_values(f) + render_lines(blocks.skip(1), n).map_values(f));
    }
}

/// Law: a description whose blocks hold no fragments renders to the empty
/// string at every indentation. The empty description is the special case
/// with no blocks at all.
pub proof fn lemma_empty_renders_empty(blocks: Seq<Seq<Seq<char>>>, ind: nat)
    requires
        forall|i: int| 0 <= i < blocks.len() ==> blocks[i].len() == 0,
    ensures
        spec_render_list(blocks, ind) == Seq::<char>::empty(),
    decreases blocks.len(),
{
    if blocks.len() == 0 {
    } else {
        lemma_empty_renders_empty(blocks.skip(1), ind);
        assert(render_lines(blocks, ind) =~= render_lines(blocks.skip(1), ind));
    }
}

pub proof fn lemma_nl_count_concat(a: Seq<char>, b: Seq<char>)
    ensures
        nl_count(a + b) == nl_count(a) + nl_count(b),
    decreases a.len(),
{
    if a.len() == 0 {
        assert(a + b =~= b);
    } else {
        lemma_nl_count_concat(a.skip(1), b);
        assert((a + b).skip(1) =~= a.skip(1) + b);
        assert((a + b)[0] == a[0]);
    }
}

pub proof fn lemma_nl_free_count(s: Seq<char>)
    requires
        forall|j: int| 0 <= j < s.len() ==> s[j] != '\n',
    ensures
        nl_count(s) == 0,
    decreases s.len(),
{
    if s.len() == 0 {
    } else {
        assert(forall|j: int| 0 <= j < s.skip(1).len() ==> s.skip(1)[j] == s[j + 1]);
        lemma_nl_free_count(s.skip(1));
    }
}

/// Joining `m` newline-free lines produces text with exactly `m - 1` newlines.
pub proof fn lemma_join_lines_count(lines: Seq<Seq<char>>)
    requires
        lines.len() > 0,
        forall|i: int, j: int|
            0 <= i < lines.len() && 0 <= j < lines[i].len() ==> lines[i][j] != '\n',
    ensures
        nl_count(join_lines(lines)) + 1 == lines.len(),
    decreases lines.len(),
{
    if lines.len() == 1 {
        lemma_nl_free_count(lines[0]);
    } else {
        lemma_join_lines_count(lines.skip(1));
        lemma_nl_free_count(lines[0]);
        lemma_nl_count_concat(lines[0], seq!['\n']);
        lemma_nl_count_concat(lines[0] + seq!['\n'], join_lines(lines.skip(1)));
        assert(nl_count(seq!['\n']) == 1) by {
            assert(seq!['\n'].skip(1) =~= Seq::<char>::empty());
            assert(nl_count(Seq::<char>::empty()) == 0);
            assert(seq!['\n'][0] == '\n');
        }
    }
}

/// No line produced by `spec_lines` contains a newline character.
pub proof fn lemma_spec_lines_nl_free(s: Seq<char>)
    ensures
        forall|i: int, j: int|
            0 <= i < spec_lines(s).len() && 0 <= j < spec_lines(s)[i].len() ==> spec_lines(
                s,
            )[i][j] != '\n',
    decreases s.len(),
{
    if s.len() == 0 {
    } else {
        lemma_first_nl(s);
        let f = first_nl(s);
        if f >= s.len() {
            assert(spec_lines(s) == seq![s]);
            assert(forall|j: int| 0 <= j < s.len() ==> s[j] != '\n');
        } else {
            lemma_spec_lines_nl_free(s.skip(f + 1 as int));
            let head = strip_cr(s.take(f as int));
            assert(forall|j: int| 0 <= j < head.len() ==> head[j] == s[j] && s[j] != '\n');
            assert(forall|i: int|
                1 <= i < spec_lines(s).len() ==> spec_lines(s)[i] == spec_lines(
                    s.skip(f + 1 as int),
                )[i - 1]);
        }
    }
}

/// Law: a description built from a text of `L` lines renders, at any
/// indentation, to a text of exactly `L` lines: its line count is preserved.
pub proof fn lemma_line_count_preserved(s: Seq<char>, ind: nat)
    requires
        spec_lines(s).len() >= 1,
    ensures
        render_lines(seq![spec_lines(s)], ind).len() == spec_lines(s).len(),
        nl_count(spec_render_list(seq![spec_lines(s)], ind)) + 1 == spec_lines(s).len(),
{
    let ln = spec_lines(s);
    let blocks = seq![ln];
    assert(blocks.skip(1) =~= Seq::<Seq<Seq<char>>>::empty());
    let bl = block_lines(ln, ind, Seq::empty());
    assert(blocks[0] == ln);
    assert(blocks.len() == 1);
    assert(render_lines(Seq::<Seq<Seq<char>>>::empty(), ind) == Seq::<Seq<char>>::empty());
    assert(render_lines(blocks, ind) =~= bl);
    assert(bl.len() == ln.len());
    lemma_spec_lines_nl_free(s);
    assert forall|i: int, j: int|
        0 <= i < bl.len() && 0 <= j < bl[i].len() implies bl[i][j] != '\n' by {
        if i == 0 {
            assert(bl[0] =~= spec_spaces(ind) + ln[0]);
            if j < ind {
                assert(bl[0][j] == ' ');
            } else {
                assert(bl[0][j] == ln[0][j - ind]);
            }
        } else {
            assert(bl[i] == spec_spaces(ind + Seq::<char>::empty().len()) + ln.skip(1)[i - 1]);
            assert(ln.skip(1)[i - 1] == ln[i]);
            if j < ind {
                assert(bl[i][j] == ' ');
            } else {
                assert(bl[i][j] == ln[i][j - ind]);
            }
        }
    }
    lemma_join_lines_count(bl);
}

/// A string representing one line of a description or match explanation.
/// It never contains a newline character.
#[derive(Debug)]
pub(crate) struct Fragment(String);

/// A block of text.
///
/// Each constituent `Fragment` holds one line of text. The lines are
/// indented uniformly to the current indentation of the block when rendered.
#[derive(Debug)]
pub(crate) enum Block {
    Literal(Vec<Fragment>),
}

/// The decoration which appears on each `Block` of a `List` when rendered.
/// Only the undecorated layout exists today; the variant leaves room for
/// future decorated layouts such as numbered lists.
#[derive(Debug)]
pub(crate) enum Decoration {
    NoDecoration,
}

/// An ordered sequence of `Block`s with a shared decoration.
#[derive(Debug)]
pub(crate) struct List(Vec<Block>, Decoration);

impl View for Fragment {
    type V = Seq<char>;

    closed spec fn view(&self) -> Seq<char> {
        self.0@
    }
}

/// The views of a sequence of fragments, in order.
pub(crate) open spec fn frag_views(fragments: Seq<Fragment>) -> Seq<Seq<char>> {
    fragments.map_values(|fr: Fragment| fr@)
}

impl View for Block {
    type V = Seq<Seq<char>>;

    closed spec fn view(&self) -> Seq<Seq<char>> {
        match self {
            Block::Literal(fragments) => frag_views(fragments@),
        }
    }
}

impl View for List {
    type V = Seq<Seq<Seq<char>>>;

    closed spec fn view(&self) -> Seq<Seq<Seq<char>>> {
        self.0@.map_values(|b: Block| b@)
    }
}

/// `n` spaces as a string.
fn spaces_string(n: usize) -> (r: String)
    ensures
        r@ == spec_spaces(n as nat),
{
    let mut out = String::new();
    let mut i: usize = 0;
    proof {
        assert(out@ =~= spec_spaces(0));
    }
    while i < n
        invariant
            i <= n,
            out@ == spec_spaces(i as nat),
        decreases n - i,
    {
        out.append(" ");
        i += 1;
        proof {
            reveal_strlit(" ");
            assert(" "@.len() == 1);
            assert(" "@[0] == ' ');
            assert(out@ =~= spec_spaces(i as nat));
        }
    }
    out
}

/// Splits `text` into its lines, one fragment per line, retaining empty
/// lines as empty fragments.
pub(crate) fn split_lines(text: &str) -> (r: Vec<Fragment>)
    ensures
        frag_views(r@) == spec_lines(text@),
{
    let n = text.unicode_len();
    let mut fragments: Vec<Fragment> = Vec::new();
    let mut start: usize = 0;
    proof {
        assert(text@.skip(0) =~= text@);
        assert(frag_views(fragments@) =~= Seq::<Seq<char>>::empty());
    }
    while start < n
        invariant
            n == text@.len(),
            start <= n,
            spec_lines(text@) == frag_views(fragments@) + spec_lines(text@.skip(start as int)),
        decreases n - start,
    {
        let mut j = start;
        while j < n && text.get_char(j) != '\n'
            invariant
                n == text@.len(),
                start <= j <= n,
                forall|t: int| start <= t < j ==> text@[t] != '\n',
            decreases n - j,
        {
            j += 1;
        }
        let piece_end = if j < n && j > start && text.get_char(j - 1) == '\r' {
            j - 1
        } else {
            j
        };
        let piece = text.substring_char(start, piece_end);
        let ghost tail = text@.skip(start as int);
        proof {
            assert forall|t: int| 0 <= t < j - start implies tail[t] != '\n' by {
                assert(tail[t] == text@[start + t]);
            }
            if j < n {
                assert(tail[j - start] == text@[j as int]);
            }
            lemma_first_nl_at(tail, j - start);
        }
        let ghost frags0 = fragments@;
        fragments.push(Fragment(piece.to_owned()));
        proof {
            assert(fragments@[frags0.len() as int]@ == piece@);
            assert(frag_views(fragments@) =~= frag_views(frags0).push(piece@));
            let lines_tail = spec_lines(tail);
            if j == n {
                assert(first_nl(tail) >= tail.len());
                assert(lines_tail == seq![tail]);
                assert(piece@ =~= tail);
            } else {
                assert(first_nl(tail) == j - start);
                assert(first_nl(tail) < tail.len());
                assert(tail.take(j - start) =~= text@.subrange(start as int, j as int));
                assert(piece@ =~= strip_cr(tail.take(j - start))) by {
                    let sub = text@.subrange(start as int, j as int);
                    if j > start && text@[j - 1] == '\r' {
                        assert(sub.len() > 0 && sub[sub.len() - 1] == '\r');
                        assert(strip_cr(sub) =~= sub.take(sub.len() - 1));
                        assert(piece@ =~= sub.take(sub.len() - 1));
                    } else {
                        assert(!(sub.len() > 0 && sub[sub.len() - 1] == '\r'));
                        assert(piece@ =~= sub);
                    }
                }
                assert(tail.skip(j - start + 1) =~= text@.skip(j + 1 as int));
                assert(lines_tail == seq![strip_cr(tail.take(j - start))] + spec_lines(
                    text@.skip(j + 1 as int),
                ));
            }
        }
        if j < n {
            proof {
                assert(frag_views(frags0) + (seq![strip_cr(text@.skip(start as int).take(
                    j - start,
                ))] + spec_lines(text@.skip(j + 1 as int))) =~= frag_views(fragments@)
                    + spec_lines(text@.skip(j + 1 as int)));
            }
            start = j + 1;
        } else {
            proof {
                assert(text@.skip(n as int) =~= Seq::<char>::empty());
                assert(spec_lines(text@.skip(n as int)) =~= Seq::<Seq<char>>::empty());
                assert(frag_views(frags0) + seq![text@.skip(start as int)] =~= frag_views(
                    fragments@,
                ) + spec_lines(text@.skip(n as int)));
            }
            start = n;
        }
    }
    proof {
        assert(text@.skip(n as int) =~= Seq::<char>::empty());
        assert(frag_views(fragments@) + spec_lines(text@.skip(start as int)) =~= frag_views(
            fragments@,
        ));
    }
    fragments
}

impl Fragment {
    /// The text of this line.
    pub(crate) fn text(&self) -> (r: &str)
        ensures
            r@ == self@,
    {
        self.0.as_str()
    }

    /// Appends this fragment's text to `out`.
    fn render(&self, out: &mut String)
        ensures
            final(out)@ == old(out)@ + self@,
    {
        out.append(self.0.as_str());
    }
}

impl Block {
    /// Builds a block from literal text, one fragment per line.
    fn from_text(text: &str) -> (r: Block)
        ensures
            r@ == spec_lines(text@),
    {
        Block::Literal(split_lines(text))
    }

    /// Whether this block holds no fragments at all.
    fn is_empty(&self) -> (r: bool)
        ensures
            r == (self@.len() == 0),
    {
        match self {
            Block::Literal(fragments) => fragments.len() == 0,
        }
    }

    /// Renders this block: the first fragment follows the indentation and the
    /// prefix, every further fragment starts a new line aligned under where
    /// the first fragment's text started. A block without fragments renders
    /// to nothing.
    fn render(&self, indentation: usize, prefix: &str) -> (r: String)
        requires
            indentation + prefix@.len() <= usize::MAX,
        ensures
            r@ == spec_render_block(self@, indentation as nat, prefix@),
    {
        match self {
            Block::Literal(fragments) => {
                let mut out = String::new();
                if fragments.len() == 0 {
                    return out;
                }
                let sp = spaces_string(indentation);
                out.append(sp.as_str());
                out.append(prefix);
                fragments[0].render(&mut out);
                let block_indentation = indentation + prefix.unicode_len();
                let ghost bl = block_lines(self@, indentation as nat, prefix@);
                proof {
                    assert(self@[0] == frag_views(fragments@)[0]);
                    assert(out@ =~= bl[0]);
                    assert(bl.take(1) =~= seq![bl[0]]);
                    assert(out@ == join_lines(bl.take(1)));
                }
                let mut i: usize = 1;
                while i < fragments.len()
                    invariant
                        1 <= i <= fragments.len(),
                        self@ == frag_views(fragments@),
                        self@.len() == fragments@.len(),
                        block_indentation == indentation + prefix@.len(),
                        bl == block_lines(self@, indentation as nat, prefix@),
                        bl.len() == fragments@.len(),
                        out@ == join_lines(bl.take(i as int)),
                    decreases fragments.len() - i,
                {
                    out.append("\n");
                    let sp2 = spaces_string(block_indentation);
                    out.append(sp2.as_str());
                    fragments[i].render(&mut out);
                    proof {
                        reveal_strlit("\n");
                        assert("\n"@ =~= seq!['\n']);
                        assert(self@.skip(1)[i - 1] == self@[i as int]);
                        assert(bl[i as int] == spec_spaces(
                            (indentation + prefix@.len()) as nat,
                        ) + self@[i as int]);
                        assert(bl.take(i as int).len() > 0);
                        lemma_join_lines_concat(bl.take(i as int), seq![bl[i as int]]);
                        assert(bl.take(i as int) + seq![bl[i as int]] =~= bl.take(i + 1));
                        assert(out@ =~= join_lines(bl.take(i + 1)));
                    }
                    i += 1;
                }
                proof {
                    assert(bl.take(fragments@.len() as int) =~= bl);
                }
                out
            },
        }
    }
}

impl List {
    /// An empty list, laid out without decoration.
    pub(crate) fn new() -> (r: List)
        ensures
            r@ == Seq::<Seq<Seq<char>>>::empty(),
    {
        let r = List(Vec::new(), Decoration::NoDecoration);
        proof {
            assert(r@ =~= Seq::<Seq<Seq<char>>>::empty());
        }
        r
    }

    /// Renders this list, indenting each line of output by `indentation`
    /// spaces.
    pub(crate) fn render(&self, indentation: usize) -> (r: String)
        ensures
            r@ == spec_render_list(self@, indentation as nat),
    {
        proof {
            reveal_strlit("");
            assert(""@.len() == 0);
        }
        self.render_with_prefix(indentation, "")
    }

    /// Appends a new `Block` containing `literal`, split into lines so that
    /// each line will be indented correctly.
    pub(crate) fn push_literal(&mut self, literal: &str)
        ensures
            final(self)@ == old(self)@.push(spec_lines(literal@)),
    {
        let b = Block::from_text(literal);
        self.0.push(b);
        proof {
            assert(self@ =~= old(self)@.push(spec_lines(literal@)));
        }
    }

    fn render_with_prefix(&self, indentation: usize, prefix: &str) -> (r: String)
        requires
            prefix@.len() == 0,
        ensures
            r@ == spec_render_list(self@, indentation as nat),
    {
        let enumeration_padding = self.enumeration_padding();
        let mut out = String::new();
        let mut any = false;
        let mut i: usize = 0;
        let ghost ind = indentation as nat;
        proof {
            assert(self@.take(0) =~= Seq::<Seq<Seq<char>>>::empty());
        }
        while i < self.0.len()
            invariant
                i <= self.0.len(),
                self@ == self.0@.map_values(|b: Block| b@),
                self@.len() == self.0@.len(),
                ind == indentation as nat,
                prefix@.len() == 0,
                any == (render_lines(self@.take(i as int), ind).len() > 0),
                out@ == join_lines(render_lines(self@.take(i as int), ind)),
            decreases self.0.len() - i,
        {
            let ghost out0 = out@;
            let ghost any0 = any;
            let ghost taken = self@.take(i as int);
            let ghost cur = self@[i as int];
            proof {
                assert(self.0@.map_values(|b: Block| b@)[i as int] == self.0@[i as int]@);
                lemma_render_lines_push(taken, cur, ind);
                assert(self@.take(i + 1) =~= taken.push(cur));
            }
            let block = &self.0[i];
            if !block.is_empty() {
                if any {
                    out.append("\n");
                }
                let pre = self.full_prefix(i, enumeration_padding, prefix);
                let rendered = block.render(indentation, pre.as_str());
                out.append(rendered.as_str());
                any = true;
                proof {
                    reveal_strlit("\n");
                    assert("\n"@ =~= seq!['\n']);
                    let bl = block_lines(cur, ind, Seq::empty());
                    assert(pre@ =~= Seq::<char>::empty());
                    assert(rendered@ == join_lines(bl));
                    assert(bl.len() > 0);
                    if any0 {
                        lemma_join_lines_concat(render_lines(taken, ind), bl);
                        assert(out@ =~= join_lines(render_lines(self@.take(i + 1), ind)));
                    } else {
                        assert(render_lines(taken, ind) =~= Seq::<Seq<char>>::empty());
                        assert(render_lines(taken, ind) + bl =~= bl);
                        assert(out0 =~= Seq::<char>::empty());
                        assert(out@ =~= join_lines(render_lines(self@.take(i + 1), ind)));
                    }
                    assert(render_lines(self@.take(i + 1), ind).len() > 0);
                }
            } else {
                proof {
                    assert(cur.len() == 0);
                    assert(block_lines(cur, ind, Seq::empty()) =~= Seq::<Seq<char>>::empty());
                    assert(render_lines(taken, ind) + block_lines(cur, ind, Seq::empty())
                        =~= render_lines(taken, ind));
                    assert(render_lines(self@.take(i + 1), ind) == render_lines(taken, ind));
                }
            }
            i += 1;
        }
        proof {
            assert(self@.take(self.0.len() as int) =~= self@);
        }
        out
    }

    fn full_prefix(&self, index: usize, enumeration_padding: usize, prior_prefix: &str) -> (r:
        String)
        ensures
            r@ == prior_prefix@,
    {
        let p = self.prefix(index, enumeration_padding);
        let mut out = prior_prefix.to_owned();
        out.append(p);
        proof {
            assert(out@ =~= prior_prefix@);
        }
        out
    }

    fn prefix(&self, _index: usize, _enumeration_padding: usize) -> (r: &'static str)
        ensures
            r@ == Seq::<char>::empty(),
    {
        match self.1 {
            Decoration::NoDecoration => {
                proof {
                    reveal_strlit("");
                    assert(""@ =~= Seq::<char>::empty());
                }
                ""
            },
        }
    }

    fn enumeration_padding(&self) -> (r: usize)
        ensures
            r == 0,
    {
        match self.1 {
            Decoration::NoDecoration => 0,
        }
    }
}

} // verus!
