//! The grammar combinators: character ranges, concatenation, alternation
//! and bounded repetition.

use vstd::prelude::*;

verus! {

broadcast use vstd::std_specs::vec::group_vec_axioms;

/// The deep view of a [`Grammar`].
pub enum GrammarView {
    Literal(Seq<(char, char)>),
    Concatenation(Seq<GrammarView>),
    Alternation(Seq<GrammarView>),
    Repetition(Box<GrammarView>, usize, usize),
    Recurse,
    Recursive(Box<GrammarView>),
}

/// A grammar over characters.
#[derive(Debug, PartialEq, Eq)]
pub enum Grammar {
    /// One character drawn from a union of inclusive ranges.
    Literal(Vec<(char, char)>),
    /// The grammars in order.
    Concatenation(Vec<Grammar>),
    /// One of the grammars.
    Alternation(Vec<Grammar>),
    /// The grammar repeated between `min` and `max` times, inclusive.
    Repetition(Box<Grammar>, usize, usize),
    /// A reference back to the enclosing recursive grammar.
    Recurse,
    /// A recursion point that owns its subtree.
    Recursive(Box<Grammar>),
}

/// Deep views of the elements of a vector of grammars, from index `i` on.
pub open spec fn grammar_seq_view_from(v: Vec<Grammar>, i: int) -> Seq<GrammarView>
    decreases v, v@.len() - i,
{
    if 0 <= i < v@.len() {
        seq![v@[i].deep_view()] + grammar_seq_view_from(v, i + 1)
    } else {
        Seq::empty()
    }
}

impl DeepView for Grammar {
    type V = GrammarView;

    open spec fn deep_view(&self) -> GrammarView
        decreases self, 0int,
    {
        match self {
            Grammar::Literal(rs) => GrammarView::Literal(rs@),
            Grammar::Concatenation(gs) => GrammarView::Concatenation(grammar_seq_view_from(*gs, 0)),
            Grammar::Alternation(gs) => GrammarView::Alternation(grammar_seq_view_from(*gs, 0)),
            Grammar::Repetition(g, mn, mx) => GrammarView::Repetition(
                Box::new((**g).deep_view()),
                *mn,
                *mx,
            ),
            Grammar::Recurse => GrammarView::Recurse,
            Grammar::Recursive(g) => GrammarView::Recursive(Box::new((**g).deep_view())),
        }
    }
}

/// The element views line up with the elements.
pub proof fn lemma_grammar_seq_view(v: Vec<Grammar>, i: int)
    requires
        0 <= i <= v@.len(),
    ensures
        grammar_seq_view_from(v, i).len() == v@.len() - i,
        forall|j: int|
            i <= j < v@.len() ==> grammar_seq_view_from(v, i)[j - i] == v@[j].deep_view(),
    decreases v@.len() - i,
{
    if i < v@.len() {
        lemma_grammar_seq_view(v, i + 1);
        let s = grammar_seq_view_from(v, i);
        let rest = grammar_seq_view_from(v, i + 1);
        assert(s == seq![v@[i].deep_view()] + rest);
        assert forall|j: int| i <= j < v@.len() implies s[j - i] == v@[j].deep_view() by {
            if j == i {
                assert(s[0] == v@[i].deep_view());
            } else {
                assert(s[j - i] == rest[j - i - 1]);
            }
        }
    }
}

/// A grammar matching exactly one given character.
pub fn literal(c: char) -> (r: Grammar)
    ensures
        (r matches Grammar::Literal(rs) && rs@.len() == 1 && rs@[0] == (c, c)),
{
    let mut rs: Vec<(char, char)> = Vec::new();
    rs.push((c, c));
    proof {
        assert(rs@ =~= seq![(c, c)]);
    }
    Grammar::Literal(rs)
}

/// A grammar matching one character from the given inclusive ranges.
pub fn literal_ranges(ranges: Vec<(char, char)>) -> (r: Grammar)
    ensures
        (r matches Grammar::Literal(rs) && rs@ == ranges@),
{
    Grammar::Literal(ranges)
}

/// The grammars one after another.
pub fn concatenation(gs: Vec<Grammar>) -> (r: Grammar)
    ensures
        (r matches Grammar::Concatenation(v) && v@ == gs@),
{
    Grammar::Concatenation(gs)
}

/// One of the grammars.
pub fn alternation(gs: Vec<Grammar>) -> (r: Grammar)
    ensures
        (r matches Grammar::Alternation(v) && v@ == gs@),
{
    Grammar::Alternation(gs)
}

/// The grammar repeated between `min` and `max` times, inclusive.
pub fn repetition(g: Grammar, min: usize, max: usize) -> (r: Grammar)
    requires
        min <= max,
    ensures
        (r matches Grammar::Repetition(b, mn, mx) && *b == g && mn == min && mx == max),
{
    Grammar::Repetition(Box::new(g), min, max)
}

/// A recursive grammar owning its subtree; `Recurse` nodes inside it refer
/// back here.
pub fn recursive(g: Grammar) -> (r: Grammar)
    ensures
        (r matches Grammar::Recursive(b) && *b == g),
{
    Grammar::Recursive(Box::new(g))
}

} // verus!
