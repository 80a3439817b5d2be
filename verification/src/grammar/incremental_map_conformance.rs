//! Incremental propagation of tree mutations to the rendered text.
//!
//! A mutation of the syntax tree is described by an [`AstToken`], the
//! reversible record of that mutation. The functions here patch the rendered
//! text and the position tree ([`ASTMap`]) so that, at all times, the text
//! equals the rendering of the tree and every mapping node covers exactly
//! the text of its subtree.

use vstd::prelude::*;

use crate::grammar::ast::{
    ast_seq_view_from, child_pos, generate_children, lemma_ast_seq_view, lemma_maps_children_build,
    lemma_maps_children_index, lemma_render_seq_concat, lemma_render_seq_split,
    lemma_render_seq_take_succ, maps_at, maps_children, render, render_seq, utf8_bytes,
    utf8_bytes_vec, AST, ASTMap, ASTMappingKind, ASTView,
};

verus! {

broadcast use vstd::std_specs::vec::group_vec_axioms;

/// Token that reverses one mutation of a syntax tree.
///
/// The variant names describe the undo action: a token produced by an
/// insertion is a removal, and the other way round.
#[derive(Debug, PartialEq, Eq)]
pub enum AstToken {
    /// The node is a token; the previous character returns.
    Atom(char),
    /// The node is a sequence; one of the edits below is undone.
    Sequence(AstSeqToken),
    /// The whole subtree was substituted; the previous subtree returns.
    Replace(AST),
    /// A sub-mutator of an alternation mutated in place; undo with the
    /// inner token.
    Inner(usize, Box<AstToken>),
    /// The node is a grouping; undo the inner mutation.
    Nested(Box<AstToken>),
}

/// Token that reverses one mutation of a sequence node.
#[derive(Debug, PartialEq, Eq)]
pub enum AstSeqToken {
    /// The element at the index was mutated; undo it with the child token.
    Element(usize, Box<AstToken>),
    /// An element was inserted at the index; undoing removes it.
    Remove(usize),
    /// A block was inserted at `[start, end)`; undoing removes it.
    RemoveMany(usize, usize),
    /// The element at the index was removed; undoing inserts it back.
    Insert(usize, AST),
    /// A block was removed at the index; undoing inserts it back.
    InsertMany(usize, Vec<AST>),
    /// The whole sequence was replaced; the previous elements return.
    Replace(Vec<AST>),
    /// The mutation did nothing.
    Nothing,
}

/// Deep view of [`AstToken`].
pub enum AstTokenView {
    Atom(char),
    Sequence(Box<AstSeqTokenView>),
    Replace(ASTView),
    Inner(usize, Box<AstTokenView>),
    Nested(Box<AstTokenView>),
}

/// Deep view of [`AstSeqToken`].
pub enum AstSeqTokenView {
    Element(usize, Box<AstTokenView>),
    Remove(usize),
    RemoveMany(usize, usize),
    Insert(usize, ASTView),
    InsertMany(usize, Seq<ASTView>),
    Replace(Seq<ASTView>),
    Nothing,
}

impl DeepView for AstToken {
    type V = AstTokenView;

    open spec fn deep_view(&self) -> AstTokenView
        decreases self, 1int,
    {
        match self {
            AstToken::Atom(c) => AstTokenView::Atom(*c),
            AstToken::Sequence(st) => AstTokenView::Sequence(Box::new(st.deep_view())),
            AstToken::Replace(a) => AstTokenView::Replace(a.deep_view()),
            AstToken::Inner(i, t) => AstTokenView::Inner(*i, Box::new((**t).deep_view())),
            AstToken::Nested(t) => AstTokenView::Nested(Box::new((**t).deep_view())),
        }
    }
}

impl DeepView for AstSeqToken {
    type V = AstSeqTokenView;

    open spec fn deep_view(&self) -> AstSeqTokenView
        decreases self, 1int,
    {
        match self {
            AstSeqToken::Element(i, t) => AstSeqTokenView::Element(*i, Box::new((**t).deep_view())),
            AstSeqToken::Remove(i) => AstSeqTokenView::Remove(*i),
            AstSeqToken::RemoveMany(s, e) => AstSeqTokenView::RemoveMany(*s, *e),
            AstSeqToken::Insert(i, a) => AstSeqTokenView::Insert(*i, a.deep_view()),
            AstSeqToken::InsertMany(i, vs) => AstSeqTokenView::InsertMany(
                *i,
                ast_seq_view_from(*vs, 0),
            ),
            AstSeqToken::Replace(vs) => AstSeqTokenView::Replace(ast_seq_view_from(*vs, 0)),
            AstSeqToken::Nothing => AstSeqTokenView::Nothing,
        }
    }
}

/// The token can be applied to the (already mutated) tree `a`.
pub open spec fn ast_tok_ok(a: ASTView, t: AstTokenView) -> bool
    decreases t, 1int,
{
    match t {
        AstTokenView::Atom(_) => a is Token,
        AstTokenView::Sequence(st) => a is Sequence && seq_tok_ok(a->Sequence_0, *st),
        AstTokenView::Replace(_) => true,
        AstTokenView::Inner(_, inner) => ast_tok_ok(a, *inner),
        AstTokenView::Nested(inner) => a is Box && ast_tok_ok(*a->Box_0, *inner),
    }
}

/// The sequence token can be applied to the (already mutated) elements `xs`.
pub open spec fn seq_tok_ok(xs: Seq<ASTView>, st: AstSeqTokenView) -> bool
    decreases st, 1int,
{
    match st {
        AstSeqTokenView::Element(i, tk) => i < xs.len() && ast_tok_ok(xs[i as int], *tk),
        AstSeqTokenView::Remove(i) => i < xs.len(),
        AstSeqTokenView::RemoveMany(s, e) => s <= e <= xs.len(),
        AstSeqTokenView::Insert(i, _) => i <= xs.len(),
        AstSeqTokenView::InsertMany(i, _) => i <= xs.len(),
        AstSeqTokenView::Replace(_) => true,
        AstSeqTokenView::Nothing => true,
    }
}

/// The tree that undoing the mutation restores.
pub open spec fn ast_unapply(a: ASTView, t: AstTokenView) -> ASTView
    decreases t, 1int,
{
    match t {
        AstTokenView::Atom(old) => ASTView::Token(old),
        AstTokenView::Sequence(st) => if a is Sequence {
            ASTView::Sequence(seq_unapply(a->Sequence_0, *st))
        } else {
            a
        },
        AstTokenView::Replace(old) => old,
        AstTokenView::Inner(_, inner) => ast_unapply(a, *inner),
        AstTokenView::Nested(inner) => if a is Box {
            ASTView::Box(Box::new(ast_unapply(*a->Box_0, *inner)))
        } else {
            a
        },
    }
}

/// The elements that undoing the mutation restores.
pub open spec fn seq_unapply(xs: Seq<ASTView>, st: AstSeqTokenView) -> Seq<ASTView>
    decreases st, 1int,
{
    match st {
        AstSeqTokenView::Element(i, tk) => if i < xs.len() {
            xs.update(i as int, ast_unapply(xs[i as int], *tk))
        } else {
            xs
        },
        AstSeqTokenView::Remove(i) => if i < xs.len() {
            xs.remove(i as int)
        } else {
            xs
        },
        AstSeqTokenView::RemoveMany(s, e) => if s <= e <= xs.len() {
            xs.subrange(0, s as int) + xs.skip(e as int)
        } else {
            xs
        },
        AstSeqTokenView::Insert(i, x) => if i <= xs.len() {
            xs.insert(i as int, x)
        } else {
            xs
        },
        AstSeqTokenView::InsertMany(i, vs) => if i <= xs.len() {
            xs.take(i as int) + vs + xs.skip(i as int)
        } else {
            xs
        },
        AstSeqTokenView::Replace(old) => old,
        AstSeqTokenView::Nothing => xs,
    }
}

/// Replaces the characters `[start, start + old_len)` of the text with the
/// given replacement, in place.
pub fn splice(to_value: &mut Vec<u8>, start: usize, old_len: usize, repl: &Vec<u8>)
    requires
        start + old_len <= old(to_value)@.len(),
        old(to_value)@.len() - old_len + repl@.len() <= usize::MAX,
    ensures
        final(to_value)@ == old(to_value)@.subrange(0, start as int) + repl@ + old(
            to_value,
        )@.subrange(start + old_len, old(to_value)@.len() as int),
{
    let ghost t0 = to_value@;
    let n = to_value.len();
    let mut out: Vec<u8> = Vec::new();
    let mut i: usize = 0;
    while i < start
        invariant
            t0 == to_value@,
            start + old_len <= t0.len(),
            n == t0.len(),
            t0.len() - old_len + repl@.len() <= usize::MAX,
            0 <= i <= start,
            out@ == t0.subrange(0, i as int),
        decreases start - i,
    {
        out.push(to_value[i]);
        proof {
            assert(out@ =~= t0.subrange(0, i + 1));
        }
        i = i + 1;
    }
    let m = repl.len();
    let mut j: usize = 0;
    while j < m
        invariant
            t0 == to_value@,
            start + old_len <= t0.len(),
            n == t0.len(),
            t0.len() - old_len + repl@.len() <= usize::MAX,
            m == repl@.len(),
            0 <= j <= m,
            out@ == t0.subrange(0, start as int) + repl@.subrange(0, j as int),
        decreases m - j,
    {
        out.push(repl[j]);
        proof {
            assert(out@ =~= t0.subrange(0, start as int) + repl@.subrange(0, j + 1));
        }
        j = j + 1;
    }
    let mut k: usize = start + old_len;
    proof {
        assert(repl@.subrange(0, m as int) =~= repl@);
    }
    while k < n
        invariant
            t0 == to_value@,
            start + old_len <= t0.len(),
            n == t0.len(),
            t0.len() - old_len + repl@.len() <= usize::MAX,
            start + old_len <= k <= n,
            out@ == t0.subrange(0, start as int) + repl@ + t0.subrange(start + old_len, k as int),
        decreases n - k,
    {
        out.push(to_value[k]);
        proof {
            assert(out@ =~= t0.subrange(0, start as int) + repl@ + t0.subrange(
                start + old_len,
                k + 1,
            ));
        }
        k = k + 1;
    }
    *to_value = out;
}

/// A local splice, seen from an enclosing range: replacing `[p, q)` inside
/// `[bigp, bigq)` rewrites the enclosing range and nothing else.
pub proof fn lemma_splice_lift(t: Seq<u8>, p: int, q: int, x: Seq<u8>, bigp: int, bigq: int)
    requires
        0 <= bigp <= p <= q <= bigq <= t.len(),
    ensures
        t.subrange(0, p) + x + t.subrange(q, t.len() as int) == t.subrange(0, bigp) + (t.subrange(
            bigp,
            p,
        ) + x + t.subrange(q, bigq)) + t.subrange(bigq, t.len() as int),
{
    assert(t.subrange(0, p) =~= t.subrange(0, bigp) + t.subrange(bigp, p));
    assert(t.subrange(q, t.len() as int) =~= t.subrange(q, bigq) + t.subrange(
        bigq,
        t.len() as int,
    ));
    assert(t.subrange(0, p) + x + t.subrange(q, t.len() as int) =~= t.subrange(0, bigp) + (
    t.subrange(bigp, p) + x + t.subrange(q, bigq)) + t.subrange(bigq, t.len() as int));
}

/// A suffix of a well-mapped sequence of children is well mapped at its own
/// position.
pub proof fn lemma_maps_children_skip(cs: Seq<ASTMap>, xs: Seq<ASTView>, base: int, i: int)
    requires
        maps_children(cs, xs, base),
        0 <= i <= xs.len(),
    ensures
        maps_children(cs.skip(i), xs.skip(i), child_pos(xs, base, i)),
    decreases i,
{
    if i == 0 {
        assert(cs.skip(0) =~= cs);
        assert(xs.skip(0) =~= xs);
        assert(xs.take(0) =~= Seq::<ASTView>::empty());
    } else {
        lemma_maps_children_skip(cs.drop_first(), xs.drop_first(), base + render(xs[0]).len(), i - 1);
        assert(cs.drop_first().skip(i - 1) =~= cs.skip(i));
        assert(xs.drop_first().skip(i - 1) =~= xs.skip(i));
        assert(xs.drop_first().take(i - 1) =~= xs.take(i).drop_first());
        assert(render_seq(xs.take(i)) == render(xs.take(i)[0]) + render_seq(xs.take(i).drop_first()));
        assert(xs.take(i)[0] == xs[0]);
    }
}

/// The text of a prefix of a sequence is no longer than the whole text.
pub proof fn lemma_child_pos_bound(xs: Seq<ASTView>, base: int, j: int)
    requires
        0 <= j <= xs.len(),
    ensures
        base <= child_pos(xs, base, j),
        child_pos(xs, base, j) + render_seq(xs.skip(j)).len() == base + render_seq(xs).len(),
{
    lemma_render_seq_split(xs, j);
}

/// Moves a whole mapped subtree `d` characters to the right (`add`) or to
/// the left.
fn shift_map(m: &mut ASTMap, add: bool, d: usize, Ghost(a): Ghost<ASTView>, Ghost(pos): Ghost<int>)
    requires
        maps_at(*old(m), a, pos),
        add ==> pos + d + render(a).len() <= usize::MAX,
        !add ==> d <= pos,
    ensures
        maps_at(*final(m), a, if add { pos + d } else { pos - d }),
    decreases a, 0int, 0int,
{
    if add {
        m.start_index = m.start_index + d;
    } else {
        m.start_index = m.start_index - d;
    }
    let ghost newpos: int = if add {
        pos + d
    } else {
        pos - d
    };
    match &mut m.content {
        ASTMappingKind::Token => {
        },
        ASTMappingKind::Sequence(cs) => {
            proof {
                assert(a is Sequence);
                assert(maps_children(cs@, a->Sequence_0, pos));
                assert(cs@.skip(0) =~= cs@);
                assert(render(a) == render_seq(a->Sequence_0));
            }
            shift_children(cs, 0, add, d, Ghost(a->Sequence_0), Ghost(pos));
            proof {
                assert(cs@.skip(0) =~= cs@);
                assert(maps_children(cs@, a->Sequence_0, newpos));
            }
        },
        ASTMappingKind::Box(bm) => {
            proof {
                assert(a is Box);
                assert(maps_at(**bm, *a->Box_0, pos));
                assert(render(a) == render(*a->Box_0));
            }
            shift_map(&mut **bm, add, d, Ghost(*a->Box_0), Ghost(pos));
        },
    }
    assert(maps_at(*m, a, newpos));
}

/// Moves the mapped children `cs[i..]` by `d` characters.
fn shift_children(
    cs: &mut Vec<ASTMap>,
    i: usize,
    add: bool,
    d: usize,
    Ghost(tail): Ghost<Seq<ASTView>>,
    Ghost(tail_base): Ghost<int>,
)
    requires
        i <= old(cs)@.len(),
        maps_children(old(cs)@.skip(i as int), tail, tail_base),
        add ==> tail_base + d + render_seq(tail).len() <= usize::MAX,
        !add ==> d <= tail_base,
        0 <= tail_base,
    ensures
        final(cs)@.len() == old(cs)@.len(),
        final(cs)@.take(i as int) == old(cs)@.take(i as int),
        maps_children(
            final(cs)@.skip(i as int),
            tail,
            if add {
                tail_base + d
            } else {
                tail_base - d
            },
        ),
    decreases tail, 1int, old(cs)@.len() - i,
{
    let n = cs.len();
    if i < n {
        proof {
            assert(cs@.skip(i as int).len() == tail.len());
            assert(tail.len() > 0);
            assert(cs@.skip(i as int)[0] == cs@[i as int]);
            assert(maps_at(cs@[i as int], tail[0], tail_base));
            assert(render(tail[0]).len() <= render_seq(tail).len()) by {
                assert(render_seq(tail) == render(tail[0]) + render_seq(tail.drop_first()));
            }
        }
        let ghost cs0 = cs@;
        let el = &mut cs[i];
        shift_map(el, add, d, Ghost(tail[0]), Ghost(tail_base));
        proof {
            assert(cs@ =~= cs0.update(i as int, cs@[i as int]));
            assert(cs@.skip(i + 1) =~= cs0.skip(i + 1));
            assert(cs0.skip(i as int).drop_first() =~= cs0.skip(i + 1));
            assert(maps_children(cs0.skip(i + 1), tail.drop_first(), tail_base + render(
                tail[0],
            ).len()));
            assert(render_seq(tail) == render(tail[0]) + render_seq(tail.drop_first()));
        }
        let ghost cs1 = cs@;
        shift_children(cs, i + 1, add, d, Ghost(tail.drop_first()), Ghost(
            tail_base + render(tail[0]).len(),
        ));
        proof {
            assert(cs@.take(i as int) =~= cs1.take(i as int));
            assert(cs1.take(i as int) =~= cs0.take(i as int));
            let nb = if add { tail_base + d } else { tail_base - d };
            assert(cs@.skip(i as int)[0] == cs@[i as int]);
            assert(cs@[i as int] == cs1[i as int]) by {
                assert(cs@.take(i + 1) =~= cs1.take(i + 1));
                assert(cs@.take(i + 1)[i as int] == cs@[i as int]);
                assert(cs1.take(i + 1)[i as int] == cs1[i as int]);
            }
            assert(maps_at(cs@[i as int], tail[0], nb));
            assert(cs@.skip(i as int).drop_first() =~= cs@.skip(i + 1));
            assert(maps_children(cs@.skip(i as int), tail, nb));
        }
    } else {
        proof {
            assert(cs@.skip(i as int).len() == 0);
            assert(tail.len() == 0);
        }
    }
}


/// Inserts the mapping and the text of one new element at child index `at`,
/// shifting the following children to the right.
fn one_insert(
    cs: &mut Vec<ASTMap>,
    item: &AST,
    at: usize,
    base: usize,
    to_value: &mut Vec<u8>,
    Ghost(xs): Ghost<Seq<ASTView>>,
    cur_len: usize,
) -> (new_len: usize)
    requires
        maps_children(old(cs)@, xs, base as int),
        at <= xs.len(),
        cur_len == render_seq(xs).len(),
        base + cur_len <= old(to_value)@.len(),
        old(to_value)@.subrange(base as int, base + cur_len) == render_seq(xs),
        old(to_value)@.len() + render(item.deep_view()).len() <= usize::MAX,
    ensures
        maps_children(final(cs)@, xs.insert(at as int, item.deep_view()), base as int),
        final(to_value)@ == old(to_value)@.subrange(0, child_pos(xs, base as int, at as int))
            + render(item.deep_view()) + old(to_value)@.subrange(
            child_pos(xs, base as int, at as int),
            old(to_value)@.len() as int,
        ),
        new_len == cur_len + render(item.deep_view()).len(),
        final(to_value)@.len() == old(to_value)@.len() + render(item.deep_view()).len(),
{
    let ghost t0 = to_value@;
    let ghost iv = item.deep_view();
    let ghost nxs = xs.insert(at as int, iv);
    proof {
        lemma_child_pos_bound(xs, base as int, at as int);
    }
    // the character position where the new element's text goes
    let ins_pos: usize = if at == 0 {
        proof {
            assert(xs.take(0) =~= Seq::<ASTView>::empty());
        }
        base
    } else {
        proof {
            lemma_maps_children_index(cs@, xs, base as int, at - 1);
            lemma_render_seq_take_succ(xs, at - 1);
        }
        let prev = &cs[at - 1];
        prev.start_index + prev.len
    };
    proof {
        assert(ins_pos == child_pos(xs, base as int, at as int));
    }
    let r = item.generate_string_starting_at_idx(ins_pos);
    let txt = r.0;
    let cmap = r.1;
    let d = txt.len();
    splice(to_value, ins_pos, 0, &txt);
    proof {
        lemma_maps_children_skip(cs@, xs, base as int, at as int);
        lemma_render_seq_split(xs, at as int);
    }
    let ghost cs0 = cs@;
    shift_children(cs, at, true, d, Ghost(xs.skip(at as int)), Ghost(ins_pos as int));
    let ghost cs1 = cs@;
    cs.insert(at, cmap);
    let new_len = cur_len + d;
    proof {
        let csf = cs@;
        assert(csf =~= cs1.insert(at as int, cmap));
        assert(csf.skip(at + 1) =~= cs1.skip(at as int));
        // the untouched prefix, the new node, and the shifted suffix line up
        assert forall|j: int| 0 <= j < nxs.len() implies maps_at(
            #[trigger] csf[j],
            nxs[j],
            child_pos(nxs, base as int, j),
        ) by {
            if j < at {
                assert(cs1.take(at as int) == cs0.take(at as int));
                assert(cs1.take(at as int)[j] == cs1[j]);
                assert(cs0.take(at as int)[j] == cs0[j]);
                assert(csf[j] == cs1[j]);
                assert(csf[j] == cs0[j]);
                lemma_maps_children_index(cs0, xs, base as int, j);
                assert(nxs.take(j) =~= xs.take(j));
                assert(nxs[j] == xs[j]);
            } else if j == at {
                assert(csf[j] == cmap);
                assert(nxs.take(at as int) =~= xs.take(at as int));
                assert(nxs[at as int] == iv);
            } else {
                let k = j - 1;
                // element k of the old suffix, shifted right by d
                let tail = xs.skip(at as int);
                assert(maps_children(csf.skip(at + 1), tail, ins_pos + d));
                lemma_maps_children_index(csf.skip(at + 1), tail, ins_pos + d, k - at);
                assert(csf.skip(at + 1)[k - at] == csf[j]);
                assert(tail[k - at] == xs[k]);
                assert(nxs[j] == xs[k]);
                // positions: child_pos(nxs, base, j) == child_pos(xs, base, k) + d
                assert(nxs.take(j) =~= xs.take(at as int) + seq![iv] + xs.skip(at as int).take(
                    k - at,
                ));
                lemma_render_seq_concat(xs.take(at as int) + seq![iv], xs.skip(at as int).take(k - at));
                lemma_render_seq_concat(xs.take(at as int), seq![iv]);
                assert(render_seq(seq![iv]) == render(iv) + render_seq(Seq::<ASTView>::empty()))
                    by {
                    assert(seq![iv].drop_first() =~= Seq::<ASTView>::empty());
                }
                assert(render_seq(seq![iv]).len() == render(iv).len());
                // child_pos within the old suffix
                assert(child_pos(tail, ins_pos as int, k - at) == child_pos(xs, base as int, k))
                    by {
                    assert(xs.take(k) =~= xs.take(at as int) + tail.take(k - at));
                    lemma_render_seq_concat(xs.take(at as int), tail.take(k - at));
                }
            }
        }
        lemma_maps_children_build(csf, nxs, base as int);
    }
    proof {
        assert(final(to_value)@ == t0.subrange(0, ins_pos as int) + txt@ + t0.subrange(
            ins_pos as int,
            t0.len() as int,
        ));
    }
    new_len
}

/// Removes the mapping and the text of the element at child index `at`,
/// shifting the following children to the left.
fn one_remove(
    cs: &mut Vec<ASTMap>,
    at: usize,
    to_value: &mut Vec<u8>,
    Ghost(xs): Ghost<Seq<ASTView>>,
    Ghost(base): Ghost<int>,
    cur_len: usize,
) -> (new_len: usize)
    requires
        maps_children(old(cs)@, xs, base),
        at < xs.len(),
        cur_len == render_seq(xs).len(),
        0 <= base,
        base + cur_len <= old(to_value)@.len(),
        old(to_value)@.subrange(base, base + cur_len) == render_seq(xs),
    ensures
        maps_children(final(cs)@, xs.remove(at as int), base),
        final(to_value)@ == old(to_value)@.subrange(0, child_pos(xs, base, at as int)) + old(
            to_value,
        )@.subrange(
            child_pos(xs, base, at as int) + render(xs[at as int]).len(),
            old(to_value)@.len() as int,
        ),
        new_len == cur_len - render(xs[at as int]).len(),
        final(to_value)@.len() == old(to_value)@.len() - render(xs[at as int]).len(),
{
    let ghost t0 = to_value@;
    let ghost nxs = xs.remove(at as int);
    proof {
        lemma_maps_children_index(cs@, xs, base, at as int);
        lemma_child_pos_bound(xs, base, at as int);
        lemma_render_seq_split(xs, at as int);
        assert(xs.skip(at as int)[0] == xs[at as int]);
        assert(render_seq(xs.skip(at as int)) == render(xs[at as int]) + render_seq(
            xs.skip(at as int).drop_first(),
        ));
    }
    let rm_pos = cs[at].start_index;
    let rm_len = cs[at].len;
    proof {
        assert(rm_pos == child_pos(xs, base, at as int));
        assert(rm_len == render(xs[at as int]).len());
    }
    let empty: Vec<u8> = Vec::new();
    let total = to_value.len();
    proof {
        assert(total == t0.len());
    }
    splice(to_value, rm_pos, rm_len, &empty);
    proof {
        assert(to_value@ =~= t0.subrange(0, rm_pos as int) + t0.subrange(
            rm_pos + rm_len,
            t0.len() as int,
        ));
    }
    let ghost cs0 = cs@;
    cs.remove(at);
    let ghost cs1 = cs@;
    proof {
        lemma_maps_children_skip(cs0, xs, base, at + 1);
        assert(cs1.skip(at as int) =~= cs0.skip(at + 1));
        lemma_render_seq_take_succ(xs, at as int);
        assert(child_pos(xs, base, at + 1) == rm_pos + rm_len);
    }
    shift_children(cs, at, false, rm_len, Ghost(xs.skip(at + 1)), Ghost(rm_pos + rm_len));
    let new_len = cur_len - rm_len;
    proof {
        let csf = cs@;
        assert(csf.take(at as int) == cs1.take(at as int));
        assert forall|j: int| 0 <= j < nxs.len() implies maps_at(
            #[trigger] csf[j],
            nxs[j],
            child_pos(nxs, base, j),
        ) by {
            if j < at {
                assert(csf.take(at as int)[j] == csf[j]);
                assert(cs1.take(at as int)[j] == cs1[j]);
                assert(cs1[j] == cs0[j]);
                assert(csf[j] == cs0[j]);
                lemma_maps_children_index(cs0, xs, base, j);
                assert(nxs.take(j) =~= xs.take(j));
                assert(nxs[j] == xs[j]);
            } else {
                let k = j + 1;
                let tail = xs.skip(at + 1);
                assert(maps_children(csf.skip(at as int), tail, rm_pos as int));
                lemma_maps_children_index(csf.skip(at as int), tail, rm_pos as int, j - at);
                assert(csf.skip(at as int)[j - at] == csf[j]);
                assert(tail[j - at] == xs[k]);
                assert(nxs[j] == xs[k]);
                assert(child_pos(tail, rm_pos as int, j - at) == child_pos(nxs, base, j)) by {
                    assert(nxs.take(j) =~= xs.take(at as int) + tail.take(j - at));
                    lemma_render_seq_concat(xs.take(at as int), tail.take(j - at));
                }
            }
        }
        lemma_maps_children_build(csf, nxs, base);
    }
    new_len
}


/// Cutting a known slice out of the text: the pieces of a concatenation can
/// each be read back out of the text that contains it.
pub proof fn lemma_slice_middle(t: Seq<u8>, base: int, a: Seq<u8>, m: Seq<u8>, b: Seq<u8>)
    requires
        0 <= base,
        base + a.len() + m.len() + b.len() <= t.len(),
        t.subrange(base, base + a.len() + m.len() + b.len()) == a + m + b,
    ensures
        t.subrange(base, base + a.len()) == a,
        t.subrange(base + a.len(), base + a.len() + m.len()) == m,
        t.subrange(base + a.len() + m.len(), base + a.len() + m.len() + b.len()) == b,
{
    let r = a + m + b;
    assert(r.len() == a.len() + m.len() + b.len());
    assert forall|k: int| 0 <= k < r.len() implies t[base + k] == r[k] by {
        assert(t.subrange(base, base + a.len() + m.len() + b.len())[k] == r[k]);
    }
    assert(t.subrange(base, base + a.len()) =~= a) by {
        assert(forall|k: int| 0 <= k < a.len() ==> r[k] == a[k]);
    }
    assert(t.subrange(base + a.len(), base + a.len() + m.len()) =~= m) by {
        assert(forall|k: int| 0 <= k < m.len() ==> r[a.len() + k] == m[k]);
    }
    assert(t.subrange(base + a.len() + m.len(), base + a.len() + m.len() + b.len()) =~= b) by {
        assert(forall|k: int| 0 <= k < b.len() ==> r[a.len() + m.len() + k] == b[k]);
    }
}

impl ASTMap {
    /// The tree has already been mutated; the token records how to undo the
    /// mutation. Patches the text and this mapping so that they mirror the
    /// mutated tree, touching only this node's range of the text.
    pub fn mutate_value_from_token(
        &mut self,
        from_value: &AST,
        to_value: &mut Vec<u8>,
        token: &AstToken,
    )
        requires
            ast_tok_ok(from_value.deep_view(), token.deep_view()),
            maps_at(
                *old(self),
                ast_unapply(from_value.deep_view(), token.deep_view()),
                old(self).start_index as int,
            ),
            old(self).start_index + old(self).len <= old(to_value)@.len(),
            old(to_value)@.subrange(
                old(self).start_index as int,
                old(self).start_index + old(self).len,
            ) == render(ast_unapply(from_value.deep_view(), token.deep_view())),
            old(to_value)@.len() - old(self).len + render(from_value.deep_view()).len()
                <= usize::MAX,
        ensures
            maps_at(*final(self), from_value.deep_view(), old(self).start_index as int),
            final(self).start_index == old(self).start_index,
            final(self).len == render(from_value.deep_view()).len(),
            final(to_value)@ == old(to_value)@.subrange(0, old(self).start_index as int) + render(
                from_value.deep_view(),
            ) + old(to_value)@.subrange(
                old(self).start_index + old(self).len,
                old(to_value)@.len() as int,
            ),
        decreases *token, 0int,
    {
        let ghost fv = from_value.deep_view();
        let ghost tkv = token.deep_view();
        let ghost olda = ast_unapply(fv, tkv);
        let ghost t0 = to_value@;
        match token {
            AstToken::Atom(_) => {
                match from_value {
                    AST::Token(c) => {
                        proof {
                            assert(fv == ASTView::Token(*c));
                            assert(render(fv) == utf8_bytes(*c));
                            assert(olda is Token);
                        }
                        let repl = utf8_bytes_vec(*c);
                        let sl = self.len;
                        splice(to_value, self.start_index, sl, &repl);
                        self.len = repl.len();
                    },
                    _ => {
                        proof {
                            assert(false);
                        }
                    },
                }
            },
            AstToken::Replace(_) => {
                let r = from_value.generate_string_starting_at_idx(self.start_index);
                let sl = self.len;
                splice(to_value, self.start_index, sl, &r.0);
                *self = r.1;
            },
            AstToken::Inner(_, btk) => {
                self.mutate_value_from_token(from_value, to_value, &**btk);
            },
            AstToken::Nested(btk) => {
                let pos = self.start_index;
                let sl = self.len;
                let nl: usize;
                match (&mut self.content, from_value) {
                    (ASTMappingKind::Box(bm), AST::Box(b)) => {
                        proof {
                            assert(fv == ASTView::Box(Box::new((**b).deep_view())));
                            assert(olda == ASTView::Box(
                                Box::new(ast_unapply((**b).deep_view(), (**btk).deep_view())),
                            ));
                            assert(render(olda) == render(
                                ast_unapply((**b).deep_view(), (**btk).deep_view()),
                            ));
                            assert(maps_at(
                                **bm,
                                ast_unapply((**b).deep_view(), (**btk).deep_view()),
                                pos as int,
                            ));
                        }
                        (**bm).mutate_value_from_token(&**b, to_value, &**btk);
                        nl = bm.len;
                        proof {
                            assert(render(fv) == render((**b).deep_view()));
                        }
                    },
                    _ => {
                        proof {
                            assert(false);
                        }
                        nl = 0;
                    },
                }
                self.len = nl;
            },
            AstToken::Sequence(st) => {
                let pos = self.start_index;
                let sl = self.len;
                let nl: usize;
                match (&mut self.content, from_value) {
                    (ASTMappingKind::Sequence(cs), AST::Sequence(elems)) => {
                        proof {
                            assert(fv == ASTView::Sequence(ast_seq_view_from(*elems, 0)));
                            assert(render(fv) == render_seq(ast_seq_view_from(*elems, 0)));
                            assert(olda == ASTView::Sequence(
                                seq_unapply(ast_seq_view_from(*elems, 0), st.deep_view()),
                            ));
                            assert(render(olda) == render_seq(
                                seq_unapply(ast_seq_view_from(*elems, 0), st.deep_view()),
                            ));
                        }
                        nl = seq_apply_mutate(cs, elems, to_value, st, pos, sl);
                    },
                    _ => {
                        proof {
                            assert(false);
                        }
                        nl = 0;
                    },
                }
                self.len = nl;
            },
        }
    }
}

/// Applies a sequence token to the children of a sequence node whose text
/// starts at `base` and currently spans `cur_len` characters; the tree
/// elements have already been mutated.
#[verifier::rlimit(50)]
fn seq_apply_mutate(
    cs: &mut Vec<ASTMap>,
    elems: &Vec<AST>,
    to_value: &mut Vec<u8>,
    st: &AstSeqToken,
    base: usize,
    cur_len: usize,
) -> (new_len: usize)
    requires
        seq_tok_ok(ast_seq_view_from(*elems, 0), st.deep_view()),
        maps_children(
            old(cs)@,
            seq_unapply(ast_seq_view_from(*elems, 0), st.deep_view()),
            base as int,
        ),
        cur_len == render_seq(seq_unapply(ast_seq_view_from(*elems, 0), st.deep_view())).len(),
        base + cur_len <= old(to_value)@.len(),
        old(to_value)@.subrange(base as int, base + cur_len) == render_seq(
            seq_unapply(ast_seq_view_from(*elems, 0), st.deep_view()),
        ),
        old(to_value)@.len() - cur_len + render_seq(ast_seq_view_from(*elems, 0)).len()
            <= usize::MAX,
    ensures
        maps_children(final(cs)@, ast_seq_view_from(*elems, 0), base as int),
        final(to_value)@ == old(to_value)@.subrange(0, base as int) + render_seq(
            ast_seq_view_from(*elems, 0),
        ) + old(to_value)@.subrange(base + cur_len, old(to_value)@.len() as int),
        new_len == render_seq(ast_seq_view_from(*elems, 0)).len(),
    decreases *st, 0int,
{
    let ghost xs = ast_seq_view_from(*elems, 0);
    let ghost stv = st.deep_view();
    let ghost oxs = seq_unapply(xs, stv);
    let ghost t0 = to_value@;
    proof {
        lemma_ast_seq_view(*elems, 0);
    }
    match st {
        AstSeqToken::Element(i_ref, btk) => {
            let i = *i_ref;
            let n = elems.len();
            proof {
                assert(xs.len() == n);
                assert(oxs == xs.update(i as int, ast_unapply(xs[i as int], (**btk).deep_view())));
                assert(oxs.take(i as int) =~= xs.take(i as int));
                assert(oxs.skip(i + 1) =~= xs.skip(i + 1));
                lemma_maps_children_index(cs@, oxs, base as int, i as int);
                lemma_render_seq_split(oxs, i as int);
                lemma_render_seq_take_succ(oxs, i as int);
                lemma_render_seq_split(xs, i as int);
                lemma_render_seq_take_succ(xs, i as int);
                assert(render_seq(oxs.skip(i as int)) == render(oxs[i as int]) + render_seq(
                    oxs.skip(i as int).drop_first(),
                ));
                assert(oxs.skip(i as int).drop_first() =~= oxs.skip(i + 1));
                assert(render_seq(xs.skip(i as int)) == render(xs[i as int]) + render_seq(
                    xs.skip(i as int).drop_first(),
                ));
                assert(xs.skip(i as int).drop_first() =~= xs.skip(i + 1));
                // decompose the node's text around the old child
                assert(render_seq(oxs) == render_seq(oxs.take(i as int)) + render(oxs[i as int])
                    + render_seq(oxs.skip(i + 1)));
                lemma_slice_middle(
                    t0,
                    base as int,
                    render_seq(oxs.take(i as int)),
                    render(oxs[i as int]),
                    render_seq(oxs.skip(i + 1)),
                );
            }
            let ghost p_i = child_pos(oxs, base as int, i as int);
            let old_child_len = cs[i].len;
            proof {
                assert(maps_at(cs@[i as int], oxs[i as int], p_i));
                assert(old_child_len == render(oxs[i as int]).len());
                assert(elems@[i as int].deep_view() == xs[i as int]);
            }
            let ghost cs0 = cs@;
            let child = &mut cs[i];
            child.mutate_value_from_token(&elems[i], to_value, &**btk);
            let new_child_len = cs[i].len;
            let ghost cs1 = cs@;
            proof {
                assert(cs1 =~= cs0.update(i as int, cs1[i as int]));
                assert(cs1.skip(i + 1) =~= cs0.skip(i + 1));
                assert(maps_at(cs1[i as int], xs[i as int], p_i));
                assert(new_child_len == render(xs[i as int]).len());
                lemma_maps_children_skip(cs0, oxs, base as int, i + 1);
                assert(child_pos(oxs, base as int, i + 1) == p_i + old_child_len);
            }
            if new_child_len >= old_child_len {
                let d = new_child_len - old_child_len;
                proof {
                    assert(p_i + old_child_len + d + render_seq(oxs.skip(i + 1)).len()
                        <= to_value@.len());
                }
                shift_children(cs, i + 1, true, d, Ghost(oxs.skip(i + 1)), Ghost(
                    p_i + old_child_len,
                ));
            } else {
                let d = old_child_len - new_child_len;
                shift_children(cs, i + 1, false, d, Ghost(oxs.skip(i + 1)), Ghost(
                    p_i + old_child_len,
                ));
            }
            let new_len = cur_len - old_child_len + new_child_len;
            proof {
                let csf = cs@;
                assert forall|j: int| 0 <= j < xs.len() implies maps_at(
                    #[trigger] csf[j],
                    xs[j],
                    child_pos(xs, base as int, j),
                ) by {
                    if j < i {
                        assert(csf.take(i + 1)[j] == csf[j]);
                        assert(cs1.take(i + 1)[j] == cs1[j]);
                        assert(csf[j] == cs1[j]);
                        assert(cs1[j] == cs0[j]);
                        lemma_maps_children_index(cs0, oxs, base as int, j);
                        assert(oxs.take(j) =~= xs.take(j));
                        assert(oxs[j] == xs[j]);
                    } else if j == i {
                        assert(csf.take(i + 1)[i as int] == csf[i as int]);
                        assert(cs1.take(i + 1)[i as int] == cs1[i as int]);
                        assert(csf[i as int] == cs1[i as int]);
                        assert(child_pos(xs, base as int, i as int) == p_i);
                    } else {
                        let tail = oxs.skip(i + 1);
                        let nb = p_i + new_child_len;
                        assert(maps_children(csf.skip(i + 1), tail, nb));
                        lemma_maps_children_index(csf.skip(i + 1), tail, nb, j - i - 1);
                        assert(csf.skip(i + 1)[j - i - 1] == csf[j]);
                        assert(tail[j - i - 1] == xs[j]);
                        assert(child_pos(tail, nb, j - i - 1) == child_pos(xs, base as int, j))
                            by {
                            assert(xs.take(j) =~= xs.take(i + 1) + tail.take(j - i - 1));
                            lemma_render_seq_concat(xs.take(i + 1), tail.take(j - i - 1));
                        }
                    }
                }
                lemma_maps_children_build(csf, xs, base as int);
                // lift the child's splice to the node's range
                lemma_splice_lift(t0, p_i, p_i + old_child_len, render(xs[i as int]), base as int, base + cur_len);
                assert(render_seq(xs) == render_seq(xs.take(i as int)) + render(xs[i as int])
                    + render_seq(xs.skip(i + 1)));
                assert(t0.subrange(base as int, p_i) == render_seq(oxs.take(i as int)));
                assert(t0.subrange(p_i + old_child_len, base + cur_len) == render_seq(
                    oxs.skip(i + 1),
                ));
                assert(t0.subrange(base as int, p_i) + render(xs[i as int]) + t0.subrange(
                    p_i + old_child_len,
                    base + cur_len,
                ) =~= render_seq(xs));
            }
            new_len
        },
        AstSeqToken::Remove(i_ref) => {
            let i = *i_ref;
            proof {
                assert(oxs == xs.remove(i as int));
                assert(xs =~= oxs.insert(i as int, xs[i as int]));
                assert(elems@[i as int].deep_view() == xs[i as int]);
                // the whole text grows by the new element's rendering
                assert(xs.take(i as int) =~= oxs.take(i as int));
                assert(xs.skip(i + 1) =~= oxs.skip(i as int));
                lemma_render_seq_split(xs, i as int);
                lemma_render_seq_take_succ(xs, i as int);
                lemma_render_seq_split(oxs, i as int);
                assert(render_seq(xs.skip(i as int)) == render(xs[i as int]) + render_seq(
                    xs.skip(i as int).drop_first(),
                ));
                assert(xs.skip(i as int).drop_first() =~= xs.skip(i + 1));
            }
            let new_len = one_insert(cs, &elems[i], i, base, to_value, Ghost(oxs), cur_len);
            proof {
                let q = child_pos(oxs, base as int, i as int);
                lemma_child_pos_bound(oxs, base as int, i as int);
                lemma_slice_middle(
                    t0,
                    base as int,
                    render_seq(oxs.take(i as int)),
                    render_seq(oxs.skip(i as int)),
                    Seq::<u8>::empty(),
                );
                assert(render_seq(oxs.take(i as int)) + render_seq(oxs.skip(i as int))
                    + Seq::<u8>::empty() =~= render_seq(oxs));
                lemma_splice_lift(t0, q, q, render(xs[i as int]), base as int, base + cur_len);
                assert(t0.subrange(base as int, q) + render(xs[i as int]) + t0.subrange(
                    q,
                    base + cur_len,
                ) =~= render_seq(xs));
            }
            new_len
        },
        AstSeqToken::Insert(i_ref, _) => {
            let i = *i_ref;
            let n = elems.len();
            proof {
                assert(xs.len() == n);
                assert(oxs == xs.insert(i as int, stv->Insert_1));
                assert(xs =~= oxs.remove(i as int));
                assert(oxs[i as int] == stv->Insert_1);
                lemma_render_seq_split(oxs, i as int);
                lemma_render_seq_take_succ(oxs, i as int);
                assert(render_seq(oxs.skip(i as int)) == render(oxs[i as int]) + render_seq(
                    oxs.skip(i as int).drop_first(),
                ));
                assert(oxs.skip(i as int).drop_first() =~= oxs.skip(i + 1));
            }
            let new_len = one_remove(cs, i, to_value, Ghost(oxs), Ghost(base as int), cur_len);
            proof {
                let q = child_pos(oxs, base as int, i as int);
                assert(oxs.take(i as int) =~= xs.take(i as int));
                assert(oxs.skip(i + 1) =~= xs.skip(i as int));
                assert(render_seq(oxs) == render_seq(oxs.take(i as int)) + render(oxs[i as int])
                    + render_seq(oxs.skip(i + 1)));
                lemma_slice_middle(
                    t0,
                    base as int,
                    render_seq(oxs.take(i as int)),
                    render(oxs[i as int]),
                    render_seq(oxs.skip(i + 1)),
                );
                assert(render_seq(oxs) == render_seq(oxs.take(i as int)) + render(oxs[i as int])
                    + render_seq(oxs.skip(i + 1)));
                lemma_splice_lift(
                    t0,
                    q,
                    q + render(oxs[i as int]).len(),
                    Seq::<u8>::empty(),
                    base as int,
                    base + cur_len,
                );
                lemma_render_seq_split(xs, i as int);
                assert(t0.subrange(base as int, q) + Seq::<u8>::empty() + t0.subrange(
                    q + render(oxs[i as int]).len(),
                    base + cur_len,
                ) =~= render_seq(xs));
            }
            new_len
        },
        AstSeqToken::RemoveMany(_, _) | AstSeqToken::InsertMany(_, _) | AstSeqToken::Replace(_) => {
            // wholesale regeneration of the sequence node
            let mut tmp: Vec<u8> = Vec::new();
            let mut idx: usize = base;
            let newcs = generate_children(elems, 0, &mut tmp, &mut idx);
            splice(to_value, base, cur_len, &tmp);
            *cs = newcs;
            tmp.len()
        },
        AstSeqToken::Nothing => {
            proof {
                assert(oxs == xs);
                assert(to_value@ =~= t0.subrange(0, base as int) + render_seq(xs) + t0.subrange(
                    base + cur_len,
                    t0.len() as int,
                ));
            }
            cur_len
        },
    }
}


impl ASTMap {
    /// The tree has not yet been unmutated; the token records how to undo
    /// the mutation. Patches the text and this mapping back to the state
    /// before the mutation, touching only this node's range of the text.
    pub fn unmutate_value_from_token(
        &mut self,
        from_value: &AST,
        to_value: &mut Vec<u8>,
        token: &AstToken,
    )
        requires
            ast_tok_ok(from_value.deep_view(), token.deep_view()),
            maps_at(*old(self), from_value.deep_view(), old(self).start_index as int),
            old(self).start_index + old(self).len <= old(to_value)@.len(),
            old(to_value)@.subrange(
                old(self).start_index as int,
                old(self).start_index + old(self).len,
            ) == render(from_value.deep_view()),
            old(to_value)@.len() - old(self).len + render(
                ast_unapply(from_value.deep_view(), token.deep_view()),
            ).len() <= usize::MAX,
        ensures
            maps_at(
                *final(self),
                ast_unapply(from_value.deep_view(), token.deep_view()),
                old(self).start_index as int,
            ),
            final(self).start_index == old(self).start_index,
            final(self).len == render(ast_unapply(from_value.deep_view(), token.deep_view())).len(),
            final(to_value)@ == old(to_value)@.subrange(0, old(self).start_index as int) + render(
                ast_unapply(from_value.deep_view(), token.deep_view()),
            ) + old(to_value)@.subrange(
                old(self).start_index + old(self).len,
                old(to_value)@.len() as int,
            ),
        decreases *token, 0int,
    {
        let ghost fv = from_value.deep_view();
        let ghost tkv = token.deep_view();
        let ghost olda = ast_unapply(fv, tkv);
        let ghost t0 = to_value@;
        match token {
            AstToken::Atom(oldc) => {
                proof {
                    assert(olda == ASTView::Token(*oldc));
                    assert(render(olda) == utf8_bytes(*oldc));
                    assert(fv is Token);
                }
                let repl = utf8_bytes_vec(*oldc);
                let sl = self.len;
                splice(to_value, self.start_index, sl, &repl);
                self.len = repl.len();
            },
            AstToken::Replace(old_ast) => {
                proof {
                    assert(olda == old_ast.deep_view());
                }
                let r = old_ast.generate_string_starting_at_idx(self.start_index);
                let sl = self.len;
                splice(to_value, self.start_index, sl, &r.0);
                *self = r.1;
            },
            AstToken::Inner(_, btk) => {
                self.unmutate_value_from_token(from_value, to_value, &**btk);
            },
            AstToken::Nested(btk) => {
                let pos = self.start_index;
                let sl = self.len;
                let nl: usize;
                match (&mut self.content, from_value) {
                    (ASTMappingKind::Box(bm), AST::Box(b)) => {
                        proof {
                            assert(fv == ASTView::Box(Box::new((**b).deep_view())));
                            assert(olda == ASTView::Box(
                                Box::new(ast_unapply((**b).deep_view(), (**btk).deep_view())),
                            ));
                            assert(render(olda) == render(
                                ast_unapply((**b).deep_view(), (**btk).deep_view()),
                            ));
                            assert(render(fv) == render((**b).deep_view()));
                            assert(maps_at(**bm, (**b).deep_view(), pos as int));
                        }
                        (**bm).unmutate_value_from_token(&**b, to_value, &**btk);
                        nl = bm.len;
                    },
                    _ => {
                        proof {
                            assert(false);
                        }
                        nl = 0;
                    },
                }
                self.len = nl;
            },
            AstToken::Sequence(st) => {
                let pos = self.start_index;
                let sl = self.len;
                let nl: usize;
                match (&mut self.content, from_value) {
                    (ASTMappingKind::Sequence(cs), AST::Sequence(elems)) => {
                        proof {
                            assert(fv == ASTView::Sequence(ast_seq_view_from(*elems, 0)));
                            assert(render(fv) == render_seq(ast_seq_view_from(*elems, 0)));
                            assert(olda == ASTView::Sequence(
                                seq_unapply(ast_seq_view_from(*elems, 0), st.deep_view()),
                            ));
                            assert(render(olda) == render_seq(
                                seq_unapply(ast_seq_view_from(*elems, 0), st.deep_view()),
                            ));
                        }
                        nl = seq_apply_unmutate(cs, elems, to_value, st, pos, sl);
                    },
                    _ => {
                        proof {
                            assert(false);
                        }
                        nl = 0;
                    },
                }
                self.len = nl;
            },
        }
    }
}

/// Undoes a sequence token on the children of a sequence node whose text
/// starts at `base` and currently spans `cur_len` characters; the tree
/// elements have not yet been unmutated.
#[verifier::rlimit(50)]
fn seq_apply_unmutate(
    cs: &mut Vec<ASTMap>,
    elems: &Vec<AST>,
    to_value: &mut Vec<u8>,
    st: &AstSeqToken,
    base: usize,
    cur_len: usize,
) -> (new_len: usize)
    requires
        seq_tok_ok(ast_seq_view_from(*elems, 0), st.deep_view()),
        maps_children(old(cs)@, ast_seq_view_from(*elems, 0), base as int),
        cur_len == render_seq(ast_seq_view_from(*elems, 0)).len(),
        base + cur_len <= old(to_value)@.len(),
        old(to_value)@.subrange(base as int, base + cur_len) == render_seq(
            ast_seq_view_from(*elems, 0),
        ),
        old(to_value)@.len() - cur_len + render_seq(
            seq_unapply(ast_seq_view_from(*elems, 0), st.deep_view()),
        ).len() <= usize::MAX,
    ensures
        maps_children(
            final(cs)@,
            seq_unapply(ast_seq_view_from(*elems, 0), st.deep_view()),
            base as int,
        ),
        final(to_value)@ == old(to_value)@.subrange(0, base as int) + render_seq(
            seq_unapply(ast_seq_view_from(*elems, 0), st.deep_view()),
        ) + old(to_value)@.subrange(base + cur_len, old(to_value)@.len() as int),
        new_len == render_seq(seq_unapply(ast_seq_view_from(*elems, 0), st.deep_view())).len(),
    decreases *st, 0int,
{
    let ghost xs = ast_seq_view_from(*elems, 0);
    let ghost stv = st.deep_view();
    let ghost oxs = seq_unapply(xs, stv);
    let ghost t0 = to_value@;
    proof {
        lemma_ast_seq_view(*elems, 0);
    }
    match st {
        AstSeqToken::Element(i_ref, btk) => {
            let i = *i_ref;
            let n = elems.len();
            proof {
                assert(xs.len() == n);
                assert(oxs == xs.update(i as int, ast_unapply(xs[i as int], (**btk).deep_view())));
                assert(oxs.take(i as int) =~= xs.take(i as int));
                assert(oxs.skip(i + 1) =~= xs.skip(i + 1));
                lemma_maps_children_index(cs@, xs, base as int, i as int);
                lemma_render_seq_split(oxs, i as int);
                lemma_render_seq_take_succ(oxs, i as int);
                lemma_render_seq_split(xs, i as int);
                lemma_render_seq_take_succ(xs, i as int);
                assert(render_seq(oxs.skip(i as int)) == render(oxs[i as int]) + render_seq(
                    oxs.skip(i as int).drop_first(),
                ));
                assert(oxs.skip(i as int).drop_first() =~= oxs.skip(i + 1));
                assert(render_seq(xs.skip(i as int)) == render(xs[i as int]) + render_seq(
                    xs.skip(i as int).drop_first(),
                ));
                assert(xs.skip(i as int).drop_first() =~= xs.skip(i + 1));
                assert(render_seq(xs) == render_seq(xs.take(i as int)) + render(xs[i as int])
                    + render_seq(xs.skip(i + 1)));
                lemma_slice_middle(
                    t0,
                    base as int,
                    render_seq(xs.take(i as int)),
                    render(xs[i as int]),
                    render_seq(xs.skip(i + 1)),
                );
            }
            let ghost p_i = child_pos(xs, base as int, i as int);
            let old_child_len = cs[i].len;
            proof {
                assert(maps_at(cs@[i as int], xs[i as int], p_i));
                assert(old_child_len == render(xs[i as int]).len());
                assert(elems@[i as int].deep_view() == xs[i as int]);
            }
            let ghost cs0 = cs@;
            let child = &mut cs[i];
            child.unmutate_value_from_token(&elems[i], to_value, &**btk);
            let new_child_len = cs[i].len;
            let ghost cs1 = cs@;
            proof {
                assert(cs1 =~= cs0.update(i as int, cs1[i as int]));
                assert(cs1.skip(i + 1) =~= cs0.skip(i + 1));
                assert(maps_at(cs1[i as int], oxs[i as int], p_i));
                assert(new_child_len == render(oxs[i as int]).len());
                lemma_maps_children_skip(cs0, xs, base as int, i + 1);
                assert(child_pos(xs, base as int, i + 1) == p_i + old_child_len);
            }
            if new_child_len >= old_child_len {
                let d = new_child_len - old_child_len;
                proof {
                    assert(p_i + old_child_len + d + render_seq(xs.skip(i + 1)).len()
                        <= to_value@.len());
                }
                shift_children(cs, i + 1, true, d, Ghost(xs.skip(i + 1)), Ghost(
                    p_i + old_child_len,
                ));
            } else {
                let d = old_child_len - new_child_len;
                shift_children(cs, i + 1, false, d, Ghost(xs.skip(i + 1)), Ghost(
                    p_i + old_child_len,
                ));
            }
            let new_len = cur_len - old_child_len + new_child_len;
            proof {
                let csf = cs@;
                assert forall|j: int| 0 <= j < oxs.len() implies maps_at(
                    #[trigger] csf[j],
                    oxs[j],
                    child_pos(oxs, base as int, j),
                ) by {
                    if j < i {
                        assert(csf.take(i + 1)[j] == csf[j]);
                        assert(cs1.take(i + 1)[j] == cs1[j]);
                        assert(csf[j] == cs1[j]);
                        assert(cs1[j] == cs0[j]);
                        lemma_maps_children_index(cs0, xs, base as int, j);
                        assert(oxs.take(j) =~= xs.take(j));
                        assert(oxs[j] == xs[j]);
                    } else if j == i {
                        assert(csf.take(i + 1)[i as int] == csf[i as int]);
                        assert(cs1.take(i + 1)[i as int] == cs1[i as int]);
                        assert(csf[i as int] == cs1[i as int]);
                        assert(child_pos(oxs, base as int, i as int) == p_i);
                    } else {
                        let tail = xs.skip(i + 1);
                        let nb = p_i + new_child_len;
                        assert(maps_children(csf.skip(i + 1), tail, nb));
                        lemma_maps_children_index(csf.skip(i + 1), tail, nb, j - i - 1);
                        assert(csf.skip(i + 1)[j - i - 1] == csf[j]);
                        assert(tail[j - i - 1] == oxs[j]);
                        assert(child_pos(tail, nb, j - i - 1) == child_pos(oxs, base as int, j))
                            by {
                            assert(oxs.take(j) =~= oxs.take(i + 1) + tail.take(j - i - 1));
                            lemma_render_seq_concat(oxs.take(i + 1), tail.take(j - i - 1));
                        }
                    }
                }
                lemma_maps_children_build(csf, oxs, base as int);
                lemma_splice_lift(
                    t0,
                    p_i,
                    p_i + old_child_len,
                    render(oxs[i as int]),
                    base as int,
                    base + cur_len,
                );
                assert(render_seq(oxs) == render_seq(oxs.take(i as int)) + render(oxs[i as int])
                    + render_seq(oxs.skip(i + 1)));
                assert(t0.subrange(base as int, p_i) == render_seq(xs.take(i as int)));
                assert(t0.subrange(p_i + old_child_len, base + cur_len) == render_seq(
                    xs.skip(i + 1),
                ));
                assert(t0.subrange(base as int, p_i) + render(oxs[i as int]) + t0.subrange(
                    p_i + old_child_len,
                    base + cur_len,
                ) =~= render_seq(oxs));
            }
            new_len
        },
        AstSeqToken::Remove(i_ref) => {
            let i = *i_ref;
            proof {
                assert(oxs == xs.remove(i as int));
                lemma_render_seq_split(xs, i as int);
                lemma_render_seq_take_succ(xs, i as int);
                assert(render_seq(xs.skip(i as int)) == render(xs[i as int]) + render_seq(
                    xs.skip(i as int).drop_first(),
                ));
                assert(xs.skip(i as int).drop_first() =~= xs.skip(i + 1));
                assert(render_seq(xs) == render_seq(xs.take(i as int)) + render(xs[i as int])
                    + render_seq(xs.skip(i + 1)));
            }
            let new_len = one_remove(cs, i, to_value, Ghost(xs), Ghost(base as int), cur_len);
            proof {
                let q = child_pos(xs, base as int, i as int);
                lemma_slice_middle(
                    t0,
                    base as int,
                    render_seq(xs.take(i as int)),
                    render(xs[i as int]),
                    render_seq(xs.skip(i + 1)),
                );
                lemma_splice_lift(
                    t0,
                    q,
                    q + render(xs[i as int]).len(),
                    Seq::<u8>::empty(),
                    base as int,
                    base + cur_len,
                );
                assert(oxs.take(i as int) =~= xs.take(i as int));
                assert(oxs.skip(i as int) =~= xs.skip(i + 1));
                lemma_render_seq_split(oxs, i as int);
                assert(t0.subrange(base as int, q) + Seq::<u8>::empty() + t0.subrange(
                    q + render(xs[i as int]).len(),
                    base + cur_len,
                ) =~= render_seq(oxs));
            }
            new_len
        },
        AstSeqToken::Insert(i_ref, x) => {
            let i = *i_ref;
            proof {
                assert(oxs == xs.insert(i as int, x.deep_view()));
                lemma_render_seq_split(xs, i as int);
                assert(render_seq(oxs) == render_seq(oxs.take(i as int)) + render(
                    oxs[i as int],
                ) + render_seq(oxs.skip(i + 1))) by {
                    lemma_render_seq_split(oxs, i as int);
                    lemma_render_seq_take_succ(oxs, i as int);
                    assert(render_seq(oxs.skip(i as int)) == render(oxs[i as int]) + render_seq(
                        oxs.skip(i as int).drop_first(),
                    ));
                    assert(oxs.skip(i as int).drop_first() =~= oxs.skip(i + 1));
                }
                assert(oxs.take(i as int) =~= xs.take(i as int));
                assert(oxs.skip(i + 1) =~= xs.skip(i as int));
            }
            let new_len = one_insert(cs, x, i, base, to_value, Ghost(xs), cur_len);
            proof {
                let q = child_pos(xs, base as int, i as int);
                lemma_child_pos_bound(xs, base as int, i as int);
                lemma_splice_lift(t0, q, q, render(x.deep_view()), base as int, base + cur_len);
                lemma_slice_middle(
                    t0,
                    base as int,
                    render_seq(xs.take(i as int)),
                    render_seq(xs.skip(i as int)),
                    Seq::<u8>::empty(),
                );
                assert(render_seq(xs.take(i as int)) + render_seq(xs.skip(i as int))
                    + Seq::<u8>::empty() =~= render_seq(xs));
                assert(t0.subrange(base as int, q) + render(x.deep_view()) + t0.subrange(
                    q,
                    base + cur_len,
                ) =~= render_seq(oxs));
                assert(xs =~= oxs.remove(i as int));
            }
            new_len
        },
        AstSeqToken::Replace(old_vec) => {
            proof {
                assert(oxs == ast_seq_view_from(*old_vec, 0));
            }
            let mut tmp: Vec<u8> = Vec::new();
            let mut idx: usize = base;
            let newcs = generate_children(old_vec, 0, &mut tmp, &mut idx);
            splice(to_value, base, cur_len, &tmp);
            *cs = newcs;
            tmp.len()
        },
        AstSeqToken::Nothing => {
            proof {
                assert(oxs == xs);
                assert(to_value@ =~= t0.subrange(0, base as int) + render_seq(xs) + t0.subrange(
                    base + cur_len,
                    t0.len() as int,
                ));
            }
            cur_len
        },
        AstSeqToken::RemoveMany(s_ref, e_ref) => {
            let s_idx = *s_ref;
            let e_idx = *e_ref;
            let count = e_idx - s_idx;
            let mut rl = cur_len;
            let mut j: usize = 0;
            proof {
                assert(oxs == xs.subrange(0, s_idx as int) + xs.skip(e_idx as int));
                assert(xs.take(s_idx as int) + xs.skip(s_idx as int) =~= xs);
                lemma_render_seq_split(xs, s_idx as int);
            }
            while j < count
                invariant
                    s_idx <= e_idx <= xs.len(),
                    count == e_idx - s_idx,
                    0 <= j <= count,
                    oxs == xs.subrange(0, s_idx as int) + xs.skip(e_idx as int),
                    maps_children(cs@, xs.take(s_idx as int) + xs.skip(s_idx + j), base as int),
                    rl == render_seq(xs.take(s_idx as int) + xs.skip(s_idx + j)).len(),
                    base + rl <= to_value@.len(),
                    to_value@.len() == t0.len() - cur_len + rl,
                    cur_len == render_seq(xs).len(),
                    base + cur_len <= t0.len(),
                    to_value@ == t0.subrange(0, base as int) + render_seq(
                        xs.take(s_idx as int) + xs.skip(s_idx + j),
                    ) + t0.subrange(base + cur_len, t0.len() as int),
                decreases count - j,
            {
                let ghost cur = xs.take(s_idx as int) + xs.skip(s_idx + j);
                let ghost tcur = to_value@;
                proof {
                    assert(cur.len() == xs.len() - j);
                    assert(s_idx < cur.len());
                    assert(cur[s_idx as int] == xs[s_idx + j]);
                    assert(to_value@.subrange(base as int, base + rl) =~= render_seq(cur)) by {
                        assert(forall|k: int|
                            0 <= k < render_seq(cur).len() ==> to_value@[base + k] == render_seq(
                                cur,
                            )[k]);
                    }
                }
                let nrl = one_remove(cs, s_idx, to_value, Ghost(cur), Ghost(base as int), rl);
                proof {
                    let ncur = xs.take(s_idx as int) + xs.skip(s_idx + j + 1);
                    assert(cur.remove(s_idx as int) =~= ncur);
                    let q = child_pos(cur, base as int, s_idx as int);
                    // the removed piece sits right after the kept prefix
                    assert(cur.take(s_idx as int) =~= xs.take(s_idx as int));
                    assert(cur.skip(s_idx + 1) =~= xs.skip(s_idx + j + 1));
                    assert(render_seq(cur) == render_seq(cur.take(s_idx as int)) + render(
                        cur[s_idx as int],
                    ) + render_seq(cur.skip(s_idx + 1))) by {
                        lemma_render_seq_split(cur, s_idx as int);
                        lemma_render_seq_take_succ(cur, s_idx as int);
                        assert(render_seq(cur.skip(s_idx as int)) == render(cur[s_idx as int])
                            + render_seq(cur.skip(s_idx as int).drop_first()));
                        assert(cur.skip(s_idx as int).drop_first() =~= cur.skip(s_idx + 1));
                    }
                    lemma_slice_middle(
                        tcur,
                        base as int,
                        render_seq(cur.take(s_idx as int)),
                        render(cur[s_idx as int]),
                        render_seq(cur.skip(s_idx + 1)),
                    );
                    assert(tcur.subrange(base as int, base + rl) =~= render_seq(cur)) by {
                        assert(forall|k: int|
                            0 <= k < render_seq(cur).len() ==> tcur[base + k] == render_seq(
                                cur,
                            )[k]);
                    }
                    // recompose the running text invariant
                    assert(to_value@ =~= t0.subrange(0, base as int) + render_seq(ncur)
                        + t0.subrange(base + cur_len, t0.len() as int)) by {
                        assert(render_seq(ncur) == render_seq(cur.take(s_idx as int))
                            + render_seq(cur.skip(s_idx + 1))) by {
                            lemma_render_seq_split(ncur, s_idx as int);
                            assert(ncur.take(s_idx as int) =~= cur.take(s_idx as int));
                            assert(ncur.skip(s_idx as int) =~= cur.skip(s_idx + 1));
                        }
                        assert(tcur.subrange(0, q) =~= t0.subrange(0, base as int) + render_seq(
                            cur.take(s_idx as int),
                        ));
                        assert(tcur.subrange(
                            q + render(cur[s_idx as int]).len(),
                            tcur.len() as int,
                        ) =~= render_seq(cur.skip(s_idx + 1)) + t0.subrange(
                            base + cur_len,
                            t0.len() as int,
                        ));
                    }
                }
                rl = nrl;
                j = j + 1;
            }
            proof {
                assert(xs.take(s_idx as int) + xs.skip(s_idx + count) =~= oxs);
            }
            rl
        },
        AstSeqToken::InsertMany(i_ref, vs) => {
            let i = *i_ref;
            let count = vs.len();
            let ghost vsv = ast_seq_view_from(*vs, 0);
            let mut rl = cur_len;
            let mut j: usize = 0;
            proof {
                lemma_ast_seq_view(*vs, 0);
                assert(oxs == xs.take(i as int) + vsv + xs.skip(i as int));
                assert(vsv.take(0) =~= Seq::<ASTView>::empty());
                assert(xs.take(i as int) + vsv.take(0) + xs.skip(i as int) =~= xs);
                lemma_render_seq_split(xs, i as int);
            }
            while j < count
                invariant
                    i <= xs.len(),
                    count == vsv.len(),
                    count == vs@.len(),
                    vsv == ast_seq_view_from(*vs, 0),
                    forall|k: int| 0 <= k < count ==> vsv[k] == vs@[k].deep_view(),
                    0 <= j <= count,
                    oxs == xs.take(i as int) + vsv + xs.skip(i as int),
                    maps_children(
                        cs@,
                        xs.take(i as int) + vsv.take(j as int) + xs.skip(i as int),
                        base as int,
                    ),
                    rl == render_seq(
                        xs.take(i as int) + vsv.take(j as int) + xs.skip(i as int),
                    ).len(),
                    base + rl <= to_value@.len(),
                    to_value@.len() == t0.len() - cur_len + rl,
                    cur_len == render_seq(xs).len(),
                    base + cur_len <= t0.len(),
                    t0.len() - cur_len + render_seq(oxs).len() <= usize::MAX,
                    to_value@ == t0.subrange(0, base as int) + render_seq(
                        xs.take(i as int) + vsv.take(j as int) + xs.skip(i as int),
                    ) + t0.subrange(base + cur_len, t0.len() as int),
                decreases count - j,
            {
                let ghost cur = xs.take(i as int) + vsv.take(j as int) + xs.skip(i as int);
                let ghost tcur = to_value@;
                proof {
                    assert(cur.len() == xs.len() + j);
                    assert(i + j <= cur.len());
                    assert(vs@[j as int].deep_view() == vsv[j as int]);
                    assert(tcur.subrange(base as int, base + rl) =~= render_seq(cur)) by {
                        assert(forall|k: int|
                            0 <= k < render_seq(cur).len() ==> tcur[base + k] == render_seq(
                                cur,
                            )[k]);
                    }
                    // the whole text still has room for the next element
                    assert(render_seq(cur) + render(vsv[j as int]) + render_seq(
                        Seq::<ASTView>::empty(),
                    ) =~= render_seq(cur) + render(vsv[j as int]));
                    assert(render_seq(cur.take(i + j)) + render(vsv[j as int]) + render_seq(
                        cur.skip(i + j),
                    ) == render_seq(cur.insert(i + j, vsv[j as int]))) by {
                        lemma_render_seq_concat(
                            cur.take(i + j) + seq![vsv[j as int]],
                            cur.skip(i + j),
                        );
                        lemma_render_seq_concat(cur.take(i + j), seq![vsv[j as int]]);
                        assert(render_seq(seq![vsv[j as int]]) == render(vsv[j as int])
                            + render_seq(Seq::<ASTView>::empty())) by {
                            assert(seq![vsv[j as int]].drop_first() =~= Seq::<ASTView>::empty());
                        }
                        assert(cur.take(i + j) + seq![vsv[j as int]] + cur.skip(i + j)
                            =~= cur.insert(i + j, vsv[j as int]));
                    }
                    assert(cur.insert(i + j, vsv[j as int]) =~= xs.take(i as int) + vsv.take(
                        j + 1,
                    ) + xs.skip(i as int)) by {
                        assert(vsv.take(j + 1) =~= vsv.take(j as int) + seq![vsv[j as int]]);
                    }
                    // room: the partial rendering never exceeds the final one
                    assert(render_seq(xs.take(i as int) + vsv.take(j + 1) + xs.skip(i as int)).len()
                        <= render_seq(oxs).len()) by {
                        lemma_insert_many_len(xs, vsv, i as int, j + 1);
                    }
                    lemma_render_seq_split(cur, i + j);
                }
                let cslen = cs.len();
                proof {
                    assert(cslen == cur.len());
                }
                let nrl = one_insert(cs, &vs[j], i + j, base, to_value, Ghost(cur), rl);
                proof {
                    let ncur = xs.take(i as int) + vsv.take(j + 1) + xs.skip(i as int);
                    assert(cur.insert(i + j, vs@[j as int].deep_view()) =~= ncur);
                    let q = child_pos(cur, base as int, i + j);
                    lemma_child_pos_bound(cur, base as int, i + j);
                    lemma_render_seq_split(cur, i + j);
                    lemma_slice_middle(
                        tcur,
                        base as int,
                        render_seq(cur.take(i + j)),
                        render_seq(cur.skip(i + j)),
                        Seq::<u8>::empty(),
                    );
                    assert(render_seq(cur.take(i + j)) + render_seq(cur.skip(i + j))
                        + Seq::<u8>::empty() =~= render_seq(cur));
                    assert(to_value@ =~= t0.subrange(0, base as int) + render_seq(ncur)
                        + t0.subrange(base + cur_len, t0.len() as int)) by {
                        assert(tcur.subrange(0, q) =~= t0.subrange(0, base as int) + render_seq(
                            cur.take(i + j),
                        ));
                        assert(tcur.subrange(q, tcur.len() as int) =~= render_seq(
                            cur.skip(i + j),
                        ) + t0.subrange(base + cur_len, t0.len() as int));
                        assert(render_seq(ncur) == render_seq(cur.take(i + j)) + render(
                            vsv[j as int],
                        ) + render_seq(cur.skip(i + j)));
                    }
                }
                rl = nrl;
                j = j + 1;
            }
            proof {
                assert(xs.take(i as int) + vsv.take(count as int) + xs.skip(i as int) =~= oxs);
            }
            rl
        },
    }
}

/// A partially re-inserted block renders no more text than the fully
/// re-inserted one.
proof fn lemma_insert_many_len(xs: Seq<ASTView>, vsv: Seq<ASTView>, i: int, j: int)
    requires
        0 <= i <= xs.len(),
        0 <= j <= vsv.len(),
    ensures
        render_seq(xs.take(i) + vsv.take(j) + xs.skip(i)).len() <= render_seq(
            xs.take(i) + vsv + xs.skip(i),
        ).len(),
{
    lemma_render_seq_concat(xs.take(i) + vsv.take(j), xs.skip(i));
    lemma_render_seq_concat(xs.take(i), vsv.take(j));
    lemma_render_seq_concat(xs.take(i) + vsv, xs.skip(i));
    lemma_render_seq_concat(xs.take(i), vsv);
    lemma_render_seq_split(vsv, j);
}


impl crate::mutators::incremental_map::IncrementalMapping<AST, Vec<u8>, AstToken> for ASTMap {
    /// The mapping covers the whole text from position zero, and the text
    /// is exactly the rendering of the tree.
    open spec fn in_sync(self, from: ASTView, to: Seq<u8>) -> bool {
        &&& self.start_index == 0
        &&& self.len == to.len()
        &&& maps_at(self, from, 0)
        &&& to == render(from)
    }

    open spec fn token_applies(self, from: ASTView, t: AstTokenView) -> bool {
        ast_tok_ok(from, t)
    }

    open spec fn undone(self, from: ASTView, t: AstTokenView) -> ASTView {
        ast_unapply(from, t)
    }

    open spec fn room_for(self, from: ASTView, to: Seq<u8>) -> bool {
        render(from).len() <= usize::MAX
    }

    fn mutate_value_from_token(&mut self, from_value: &AST, to_value: &mut Vec<u8>, token: &AstToken) {
        let ghost t0 = to_value@;
        let ghost olda = ast_unapply(from_value.deep_view(), token.deep_view());
        proof {
            assert(old(to_value).deep_view() =~= t0);
            assert(t0.subrange(0, t0.len() as int) =~= t0);
        }
        ASTMap::mutate_value_from_token(self, from_value, to_value, token);
        proof {
            assert(to_value@ =~= render(from_value.deep_view()));
            assert(to_value.deep_view() =~= to_value@);
        }
    }

    fn unmutate_value_from_token(&mut self, from_value: &AST, to_value: &mut Vec<u8>, token: &AstToken) {
        let ghost t0 = to_value@;
        let ghost olda = ast_unapply(from_value.deep_view(), token.deep_view());
        proof {
            assert(old(to_value).deep_view() =~= t0);
            assert(t0.subrange(0, t0.len() as int) =~= t0);
        }
        ASTMap::unmutate_value_from_token(self, from_value, to_value, token);
        proof {
            assert(to_value@ =~= render(olda));
            assert(to_value.deep_view() =~= to_value@);
        }
    }
}


/// Law: in a well-mapped tree whose text holds its rendering, every child
/// of a sequence node covers exactly the rendered text of its own subtree.
pub proof fn lemma_child_slice(
    cs: Seq<ASTMap>,
    xs: Seq<ASTView>,
    base: int,
    t: Seq<u8>,
    j: int,
)
    requires
        maps_children(cs, xs, base),
        0 <= j < xs.len(),
        0 <= base,
        base + render_seq(xs).len() <= t.len(),
        t.subrange(base, base + render_seq(xs).len()) == render_seq(xs),
    ensures
        cs[j].start_index + cs[j].len <= t.len(),
        t.subrange(cs[j].start_index as int, cs[j].start_index + cs[j].len) == render(xs[j]),
{
    lemma_maps_children_index(cs, xs, base, j);
    lemma_render_seq_split(xs, j);
    lemma_render_seq_take_succ(xs, j);
    assert(render_seq(xs.skip(j)) == render(xs[j]) + render_seq(xs.skip(j).drop_first()));
    assert(xs.skip(j).drop_first() =~= xs.skip(j + 1));
    assert(render_seq(xs) == render_seq(xs.take(j)) + render(xs[j]) + render_seq(xs.skip(j + 1)))
        by {
        assert(render_seq(xs.take(j)) + (render(xs[j]) + render_seq(xs.skip(j + 1)))
            =~= render_seq(xs.take(j)) + render(xs[j]) + render_seq(xs.skip(j + 1)));
    }
    lemma_slice_middle(
        t,
        base,
        render_seq(xs.take(j)),
        render(xs[j]),
        render_seq(xs.skip(j + 1)),
    );
}

} // verus!
