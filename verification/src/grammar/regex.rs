//! Translation of a parsed regular expression into the grammar
//! combinators.
//!
//! The regular expression is handed over as a plain tree mirroring the
//! parsed form: literals, character classes, groups, repetitions,
//! concatenations and alternations are supported; anchors, word boundaries,
//! byte-mode classes and the empty expression are rejected.

use vstd::prelude::*;

use crate::grammar::combinators::{lemma_grammar_seq_view, grammar_seq_view_from, Grammar, GrammarView};

verus! {

broadcast use vstd::std_specs::vec::group_vec_axioms;

/// A parsed regular expression, as a plain tree.
#[derive(Debug, PartialEq, Eq)]
pub enum RegexIr {
    /// The empty expression.
    Empty,
    /// One literal character.
    Literal(char),
    /// A character class of inclusive ranges.
    Class(Vec<(char, char)>),
    /// A class over raw bytes rather than characters.
    ByteClass,
    /// A position anchor.
    Anchor,
    /// A word boundary.
    WordBoundary,
    /// A repetition of the inner expression, `min` to `max` times; no
    /// upper bound is capped to the given maximum at translation.
    Repetition(Box<RegexIr>, u32, Option<u32>),
    /// A group around the inner expression.
    Group(Box<RegexIr>),
    /// The expressions in order.
    Concat(Vec<RegexIr>),
    /// One of the expressions.
    Alternation(Vec<RegexIr>),
}

/// The deep view of a [`RegexIr`].
pub enum RegexIrView {
    Empty,
    Literal(char),
    Class(Seq<(char, char)>),
    ByteClass,
    Anchor,
    WordBoundary,
    Repetition(Box<RegexIrView>, u32, Option<u32>),
    Group(Box<RegexIrView>),
    Concat(Seq<RegexIrView>),
    Alternation(Seq<RegexIrView>),
}

/// Deep views of the elements of a vector of expressions, from index `i`.
pub open spec fn regex_seq_view_from(v: Vec<RegexIr>, i: int) -> Seq<RegexIrView>
    decreases v, v@.len() - i,
{
    if 0 <= i < v@.len() {
        seq![v@[i].deep_view()] + regex_seq_view_from(v, i + 1)
    } else {
        Seq::empty()
    }
}

impl DeepView for RegexIr {
    type V = RegexIrView;

    open spec fn deep_view(&self) -> RegexIrView
        decreases self, 0int,
    {
        match self {
            RegexIr::Empty => RegexIrView::Empty,
            RegexIr::Literal(c) => RegexIrView::Literal(*c),
            RegexIr::Class(rs) => RegexIrView::Class(rs@),
            RegexIr::ByteClass => RegexIrView::ByteClass,
            RegexIr::Anchor => RegexIrView::Anchor,
            RegexIr::WordBoundary => RegexIrView::WordBoundary,
            RegexIr::Repetition(inner, mn, mx) => RegexIrView::Repetition(
                Box::new((**inner).deep_view()),
                *mn,
                *mx,
            ),
            RegexIr::Group(inner) => RegexIrView::Group(Box::new((**inner).deep_view())),
            RegexIr::Concat(v) => RegexIrView::Concat(regex_seq_view_from(*v, 0)),
            RegexIr::Alternation(v) => RegexIrView::Alternation(regex_seq_view_from(*v, 0)),
        }
    }
}

/// The element views line up with the elements.
pub proof fn lemma_regex_seq_view(v: Vec<RegexIr>, i: int)
    requires
        0 <= i <= v@.len(),
    ensures
        regex_seq_view_from(v, i).len() == v@.len() - i,
        forall|j: int|
            i <= j < v@.len() ==> regex_seq_view_from(v, i)[j - i] == v@[j].deep_view(),
    decreases v@.len() - i,
{
    if i < v@.len() {
        lemma_regex_seq_view(v, i + 1);
        let s = regex_seq_view_from(v, i);
        let rest = regex_seq_view_from(v, i + 1);
        assert(s == seq![v@[i].deep_view()] + rest);
        assert forall|j: int| i <= j < v@.len() implies s[j - i] == v@[j].deep_view() by {
            if j == i {
                assert(s[0] == v@[i].deep_view());
            } else {
                assert(s[j - i] == rest[j - i - 1]);
            }
        }
    }
}

/// The grammar a supported expression translates to: character classes
/// become literal ranges, groups vanish, repetitions carry their bounds
/// with a missing upper bound capped at the machine maximum, and the
/// list-shaped nodes translate element by element.
pub open spec fn grammar_of_ir(ir: RegexIrView) -> GrammarView
    decreases ir, 0int,
{
    match ir {
        RegexIrView::Literal(c) => GrammarView::Literal(seq![(c, c)]),
        RegexIrView::Class(rs) => GrammarView::Literal(rs),
        RegexIrView::Repetition(inner, mn, mx) => GrammarView::Repetition(
            Box::new(grammar_of_ir(*inner)),
            mn as usize,
            (match mx {
                Option::Some(m) => m as usize,
                Option::None => usize::MAX,
            }),
        ),
        RegexIrView::Group(inner) => grammar_of_ir(*inner),
        RegexIrView::Concat(v) => GrammarView::Concatenation(grammars_of_irs(v)),
        RegexIrView::Alternation(v) => GrammarView::Alternation(grammars_of_irs(v)),
        _ => GrammarView::Recurse,
    }
}

/// The element-wise translation of a list of expressions.
pub open spec fn grammars_of_irs(v: Seq<RegexIrView>) -> Seq<GrammarView>
    decreases v, 1int,
{
    if v.len() == 0 {
        Seq::empty()
    } else {
        seq![grammar_of_ir(v[0])] + grammars_of_irs(v.drop_first())
    }
}

/// Why a regular expression is not supported by the grammar core.
#[derive(Debug, PartialEq, Eq, Structural)]
pub enum RegexError {
    /// The empty expression has no grammar.
    EmptyRegex,
    /// Byte-mode classes are not supported.
    NonUnicode,
    /// Anchors are not supported.
    AnchorUnsupported,
    /// Word boundaries are not supported.
    WordBoundaryUnsupported,
    /// A repetition bound is inverted.
    BadRepetition,
}

/// Whether the expression translates to a grammar: it holds no empty
/// node, no anchor, no word boundary and no byte-mode class, and every
/// repetition's bounds are ordered.
pub open spec fn regex_supported(ir: RegexIr) -> bool
    decreases ir, 0int,
{
    match ir {
        RegexIr::Empty => false,
        RegexIr::Literal(_) => true,
        RegexIr::Class(_) => true,
        RegexIr::ByteClass => false,
        RegexIr::Anchor => false,
        RegexIr::WordBoundary => false,
        RegexIr::Repetition(inner, mn, mx) => regex_supported(*inner) && (match mx {
            Option::Some(m) => mn <= m,
            Option::None => true,
        }),
        RegexIr::Group(inner) => regex_supported(*inner),
        RegexIr::Concat(v) => regex_all_supported(v, 0),
        RegexIr::Alternation(v) => regex_all_supported(v, 0),
    }
}

/// Every expression from index `i` on is supported.
pub open spec fn regex_all_supported(v: Vec<RegexIr>, i: int) -> bool
    decreases v, v@.len() - i,
{
    if i < 0 || i >= v@.len() {
        true
    } else {
        regex_supported(v@[i]) && regex_all_supported(v, i + 1)
    }
}

/// Translates a parsed regular expression into a grammar. Exactly the
/// supported expressions translate; each unsupported construct is reported
/// with its own error.
pub fn grammar_from_regex_ir(ir: &RegexIr) -> (r: Result<Grammar, RegexError>)
    ensures
        r is Ok <==> regex_supported(*ir),
        (r matches Result::Ok(g) ==> g.deep_view() == grammar_of_ir(ir.deep_view())),
    decreases *ir, 1int,
{
    match ir {
        RegexIr::Empty => Err(RegexError::EmptyRegex),
        RegexIr::Literal(c) => {
            let mut rs: Vec<(char, char)> = Vec::new();
            rs.push((*c, *c));
            proof {
                assert(rs@ =~= seq![(*c, *c)]);
            }
            Ok(Grammar::Literal(rs))
        },
        RegexIr::Class(ranges) => {
            let mut rs: Vec<(char, char)> = Vec::new();
            let n = ranges.len();
            let mut i: usize = 0;
            while i < n
                invariant
                    n == ranges@.len(),
                    0 <= i <= n,
                    rs@ == ranges@.take(i as int),
                decreases n - i,
            {
                rs.push(ranges[i]);
                proof {
                    assert(rs@ =~= ranges@.take(i + 1));
                }
                i = i + 1;
            }
            proof {
                assert(ranges@.take(n as int) =~= ranges@);
            }
            Ok(Grammar::Literal(rs))
        },
        RegexIr::ByteClass => Err(RegexError::NonUnicode),
        RegexIr::Anchor => Err(RegexError::AnchorUnsupported),
        RegexIr::WordBoundary => Err(RegexError::WordBoundaryUnsupported),
        RegexIr::Repetition(inner, mn, mx) => {
            let min: usize = *mn as usize;
            let max: usize = match mx {
                Some(m) => {
                    if *m < *mn {
                        return Err(RegexError::BadRepetition);
                    }
                    *m as usize
                },
                None => usize::MAX,
            };
            match grammar_from_regex_ir(&**inner) {
                Ok(g) => Ok(Grammar::Repetition(Box::new(g), min, max)),
                Err(e) => Err(e),
            }
        },
        RegexIr::Group(inner) => grammar_from_regex_ir(&**inner),
        RegexIr::Concat(v) => {
            match grammars_from_regex_irs(v) {
                Ok(gs) => {
                    proof {
                        lemma_grammar_seq_view(gs, 0);
                        lemma_regex_seq_view(*v, 0);
                        lemma_grammars_of_irs_index(regex_seq_view_from(*v, 0));
                        assert forall|j: int| 0 <= j < gs@.len() implies grammar_seq_view_from(
                            gs,
                            0,
                        )[j] == grammars_of_irs(regex_seq_view_from(*v, 0))[j] by {
                            assert(grammar_seq_view_from(gs, 0)[j] == gs@[j].deep_view());
                            assert(gs@[j].deep_view() == grammar_of_ir(v@[j].deep_view()));
                            assert(regex_seq_view_from(*v, 0)[j] == v@[j].deep_view());
                            assert(grammars_of_irs(regex_seq_view_from(*v, 0))[j]
                                == grammar_of_ir(regex_seq_view_from(*v, 0)[j]));
                        }
                        assert(grammar_seq_view_from(gs, 0) =~= grammars_of_irs(
                            regex_seq_view_from(*v, 0),
                        ));
                    }
                    Ok(Grammar::Concatenation(gs))
                },
                Err(e) => Err(e),
            }
        },
        RegexIr::Alternation(v) => {
            match grammars_from_regex_irs(v) {
                Ok(gs) => {
                    proof {
                        lemma_grammar_seq_view(gs, 0);
                        lemma_regex_seq_view(*v, 0);
                        lemma_grammars_of_irs_index(regex_seq_view_from(*v, 0));
                        assert forall|j: int| 0 <= j < gs@.len() implies grammar_seq_view_from(
                            gs,
                            0,
                        )[j] == grammars_of_irs(regex_seq_view_from(*v, 0))[j] by {
                            assert(grammar_seq_view_from(gs, 0)[j] == gs@[j].deep_view());
                            assert(gs@[j].deep_view() == grammar_of_ir(v@[j].deep_view()));
                            assert(regex_seq_view_from(*v, 0)[j] == v@[j].deep_view());
                            assert(grammars_of_irs(regex_seq_view_from(*v, 0))[j]
                                == grammar_of_ir(regex_seq_view_from(*v, 0)[j]));
                        }
                        assert(grammar_seq_view_from(gs, 0) =~= grammars_of_irs(
                            regex_seq_view_from(*v, 0),
                        ));
                    }
                    Ok(Grammar::Alternation(gs))
                },
                Err(e) => Err(e),
            }
        },
    }
}

/// The element-wise translation, read by index.
pub proof fn lemma_grammars_of_irs_index(v: Seq<RegexIrView>)
    ensures
        grammars_of_irs(v).len() == v.len(),
        forall|j: int| 0 <= j < v.len() ==> grammars_of_irs(v)[j] == grammar_of_ir(#[trigger] v[j]),
    decreases v,
{
    if v.len() > 0 {
        lemma_grammars_of_irs_index(v.drop_first());
        let s = grammars_of_irs(v);
        assert forall|j: int| 0 <= j < v.len() implies s[j] == grammar_of_ir(#[trigger] v[j]) by {
            if j == 0 {
                assert(s[0] == grammar_of_ir(v[0]));
            } else {
                assert(s[j] == grammars_of_irs(v.drop_first())[j - 1]);
                assert(v.drop_first()[j - 1] == v[j]);
            }
        }
    }
}

/// Translates each expression of a list, stopping at the first
/// unsupported one.
fn grammars_from_regex_irs(v: &Vec<RegexIr>) -> (r: Result<Vec<Grammar>, RegexError>)
    ensures
        r is Ok <==> regex_all_supported(*v, 0),
        (r matches Result::Ok(gs) ==> {
            &&& gs@.len() == v@.len()
            &&& forall|j: int|
                0 <= j < gs@.len() ==> (#[trigger] gs@[j]).deep_view() == grammar_of_ir(
                    v@[j].deep_view(),
                )
        }),
    decreases *v, 2int,
{
    let n = v.len();
    let mut out: Vec<Grammar> = Vec::new();
    let mut i: usize = 0;
    while i < n
        invariant
            n == v@.len(),
            0 <= i <= n,
            out@.len() == i,
            regex_all_supported(*v, 0) == regex_all_supported(*v, i as int),
            forall|j: int|
                0 <= j < i ==> (#[trigger] out@[j]).deep_view() == grammar_of_ir(
                    v@[j].deep_view(),
                ),
        decreases n - i,
    {
        match grammar_from_regex_ir(&v[i]) {
            Ok(g) => {
                out.push(g);
            },
            Err(e) => {
                return Err(e);
            },
        }
        i = i + 1;
    }
    Ok(out)
}

} // verus!
