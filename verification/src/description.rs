//! `Description`: an ordered, renderable document of text blocks with an
//! indentation state, used for every human-readable explanation the library
//! produces.

use crate::internal::description_renderer::{
    join_lines, lemma_empty_renders_empty, lemma_line_count_preserved,
    lemma_render_indentation_monotone, nl_count, render_lines, spec_lines, spec_render_list,
    spec_spaces, List, INDENTATION_SIZE,
};
use vstd::prelude::*;

verus! {

/// A renderable document: a list of text blocks and an indentation state.
/// Rendering is a pure function of the two; the indentation state is either
/// zero or one indentation unit.
#[derive(Debug)]
pub struct Description {
    elements: List,
    initial_indentation: usize,
}

impl Description {
    /// The blocks of this description: each block is a sequence of lines,
    /// each line a sequence of characters.
    pub closed spec fn blocks(&self) -> Seq<Seq<Seq<char>>> {
        self.elements@
    }

    /// The base indentation this description renders at.
    pub closed spec fn indentation(&self) -> nat {
        self.initial_indentation as nat
    }

    /// The text this description displays as: its blocks rendered at its own
    /// base indentation.
    pub open spec fn spec_rendered(&self) -> Seq<char> {
        spec_render_list(self.blocks(), self.indentation())
    }

    /// Builds a description from literal text, split on line boundaries into
    /// one fragment per line; empty lines are retained as empty fragments.
    pub fn from_text(text: &str) -> (r: Description)
        ensures
            r.blocks() == seq![spec_lines(text@)],
            r.indentation() == 0,
    {
        let mut elements = List::new();
        elements.push_literal(text);
        proof {
            assert(elements@ =~= seq![spec_lines(text@)]);
        }
        Description { elements, initial_indentation: 0 }
    }

    /// Indents the lines in the elements of this description by one
    /// indentation unit. The indentation state is fixed, not accumulated:
    /// indenting an already-indented description leaves it at the same single
    /// unit (the current design supports exactly one non-zero level).
    pub fn indent(self) -> (r: Self)
        ensures
            r.blocks() == self.blocks(),
            r.indentation() == INDENTATION_SIZE as nat,
    {
        Self { initial_indentation: INDENTATION_SIZE, ..self }
    }

    /// Renders this description's blocks with every line of output indented
    /// by `indentation` spaces.
    pub fn render(&self, indentation: usize) -> (r: String)
        ensures
            r@ == spec_render_list(self.blocks(), indentation as nat),
    {
        self.elements.render(indentation)
    }

    /// The fully rendered text of this description: its blocks rendered at
    /// its own base indentation.
    pub fn to_display_string(&self) -> (r: String)
        ensures
            r@ == self.spec_rendered(),
    {
        self.elements.render(self.initial_indentation)
    }
}

impl Default for Description {
    /// The empty description: no blocks, no indentation.
    fn default() -> (r: Self)
        ensures
            r.blocks() == Seq::<Seq<Seq<char>>>::empty(),
            r.indentation() == 0,
    {
        Description { elements: List::new(), initial_indentation: 0 }
    }
}

/// Law: rendering is indentation-monotone. For every description and all
/// `n` and `k`, rendering at `n + k` yields exactly the lines of rendering
/// at `n`, each with `k` additional leading spaces, joined by newlines as
/// before.
pub proof fn lemma_description_indentation_monotone(d: Description, n: nat, k: nat)
    ensures
        render_lines(d.blocks(), n + k) =~= render_lines(d.blocks(), n).map_values(
            |l: Seq<char>| spec_spaces(k) + l,
        ),
        spec_render_list(d.blocks(), n + k) == join_lines(
            render_lines(d.blocks(), n).map_values(|l: Seq<char>| spec_spaces(k) + l),
        ),
{
    lemma_render_indentation_monotone(d.blocks(), n, k);
}

/// Law: a description with no blocks, or whose blocks all hold no fragments,
/// renders to the empty string at every indentation.
pub proof fn lemma_empty_description_renders_empty(d: Description, ind: nat)
    requires
        forall|i: int| 0 <= i < d.blocks().len() ==> d.blocks()[i].len() == 0,
    ensures
        spec_render_list(d.blocks(), ind) == Seq::<char>::empty(),
{
    lemma_empty_renders_empty(d.blocks(), ind);
}

/// Law: building a description from a text of `L` lines (`L >= 1`) and
/// rendering it at any indentation yields a text of exactly `L` lines: the
/// rendering holds `L - 1` newline characters.
pub proof fn lemma_description_preserves_line_count(text: Seq<char>, d: Description, ind: nat)
    requires
        spec_lines(text).len() >= 1,
        d.blocks() == seq![spec_lines(text)],
    ensures
        nl_count(spec_render_list(d.blocks(), ind)) + 1 == spec_lines(text).len(),
{
    lemma_line_count_preserved(text, ind);
}

/// Law: `indent` is idempotent-safe. A description's rendering depends only
/// on its blocks and its indentation state, and indenting sets the state to
/// the single indentation unit rather than adding to it; so indenting an
/// already-indented description (`d2`, obtained from `d1`) displays exactly
/// as the once-indented one.
pub proof fn lemma_indent_idempotent(d1: Description, d2: Description)
    requires
        d2.blocks() == d1.blocks(),
        d1.indentation() == INDENTATION_SIZE as nat,
        d2.indentation() == INDENTATION_SIZE as nat,
    ensures
        d2.spec_rendered() == d1.spec_rendered(),
{
}

} // verus!
