//! The abstract syntax tree of the grammar core, its rendering to text, and
//! the tree of text positions that mirrors it.
//!
//! Text is a vector of UTF-8 bytes and every position counts bytes. An
//! [`ASTMap`] node covers the range `[start_index, start_index + len)` of
//! the rendered text; the children of a sequence cover contiguous, disjoint
//! subranges that partition the parent's range.

use vstd::prelude::*;

verus! {

broadcast use vstd::std_specs::vec::group_vec_axioms;

/// The UTF-8 bytes of one character.
pub open spec fn utf8_bytes(c: char) -> Seq<u8> {
    let u = c as u32;
    if u < 0x80 {
        seq![u as u8]
    } else if u < 0x800 {
        seq![(0xC0 + u / 0x40) as u8, (0x80 + u % 0x40) as u8]
    } else if u < 0x10000 {
        seq![
            (0xE0 + u / 0x1000) as u8,
            (0x80 + (u / 0x40) % 0x40) as u8,
            (0x80 + u % 0x40) as u8,
        ]
    } else {
        seq![
            (0xF0 + u / 0x40000) as u8,
            (0x80 + (u / 0x1000) % 0x40) as u8,
            (0x80 + (u / 0x40) % 0x40) as u8,
            (0x80 + u % 0x40) as u8,
        ]
    }
}

/// Appends the UTF-8 bytes of one character to the text.
pub fn push_utf8(s: &mut Vec<u8>, c: char) -> (len: usize)
    requires
        old(s)@.len() + utf8_bytes(c).len() <= usize::MAX,
    ensures
        final(s)@ == old(s)@ + utf8_bytes(c),
        len == utf8_bytes(c).len(),
{
    let ghost s0 = s@;
    let u = c as u32;
    if u < 0x80 {
        s.push(u as u8);
        proof {
            assert(s@ =~= s0 + utf8_bytes(c));
        }
        1
    } else if u < 0x800 {
        s.push((0xC0 + u / 0x40) as u8);
        s.push((0x80 + u % 0x40) as u8);
        proof {
            assert(s@ =~= s0 + utf8_bytes(c));
        }
        2
    } else if u < 0x10000 {
        s.push((0xE0 + u / 0x1000) as u8);
        s.push((0x80 + (u / 0x40) % 0x40) as u8);
        s.push((0x80 + u % 0x40) as u8);
        proof {
            assert(s@ =~= s0 + utf8_bytes(c));
        }
        3
    } else {
        s.push((0xF0 + u / 0x40000) as u8);
        s.push((0x80 + (u / 0x1000) % 0x40) as u8);
        s.push((0x80 + (u / 0x40) % 0x40) as u8);
        s.push((0x80 + u % 0x40) as u8);
        proof {
            assert(s@ =~= s0 + utf8_bytes(c));
        }
        4
    }
}

/// The UTF-8 bytes of one character, as a fresh vector.
pub fn utf8_bytes_vec(c: char) -> (r: Vec<u8>)
    ensures
        r@ == utf8_bytes(c),
{
    let mut out: Vec<u8> = Vec::new();
    let _ = push_utf8(&mut out, c);
    proof {
        assert(out@ =~= utf8_bytes(c));
    }
    out
}

/// An abstract syntax tree.
#[derive(Debug, PartialEq, Eq)]
pub enum AST {
    Token(char),
    Sequence(Vec<AST>),
    Box(Box<AST>),
}

/// The deep view of an [`AST`].
pub enum ASTView {
    Token(char),
    Sequence(Seq<ASTView>),
    Box(Box<ASTView>),
}

/// Deep views of the elements of a vector of trees, from index `i` on.
pub open spec fn ast_seq_view_from(v: Vec<AST>, i: int) -> Seq<ASTView>
    decreases v, v@.len() - i,
{
    if 0 <= i < v@.len() {
        seq![v@[i].deep_view()] + ast_seq_view_from(v, i + 1)
    } else {
        Seq::empty()
    }
}

impl DeepView for AST {
    type V = ASTView;

    open spec fn deep_view(&self) -> ASTView
        decreases self, 0int,
    {
        match self {
            AST::Token(c) => ASTView::Token(*c),
            AST::Sequence(v) => ASTView::Sequence(ast_seq_view_from(*v, 0)),
            AST::Box(b) => ASTView::Box(Box::new((**b).deep_view())),
        }
    }
}

/// The element views line up with the elements.
pub proof fn lemma_ast_seq_view(v: Vec<AST>, i: int)
    requires
        0 <= i <= v@.len(),
    ensures
        ast_seq_view_from(v, i).len() == v@.len() - i,
        forall|j: int|
            i <= j < v@.len() ==> ast_seq_view_from(v, i)[j - i] == v@[j].deep_view(),
    decreases v@.len() - i,
{
    if i < v@.len() {
        lemma_ast_seq_view(v, i + 1);
        let s = ast_seq_view_from(v, i);
        let rest = ast_seq_view_from(v, i + 1);
        assert(s == seq![v@[i].deep_view()] + rest);
        assert(s.len() == 1 + rest.len());
        assert forall|j: int| i <= j < v@.len() implies s[j - i] == v@[j].deep_view() by {
            if j == i {
                assert(s[0] == v@[i].deep_view());
            } else {
                assert(s[j - i] == rest[j - i - 1]);
            }
        }
    }
}

/// Like an abstract syntax tree, but augmented with the text indices that
/// correspond to each node.
#[derive(Debug, PartialEq, Eq)]
pub struct ASTMap {
    pub start_index: usize,
    pub len: usize,
    pub content: ASTMappingKind,
}

#[derive(Debug, PartialEq, Eq)]
pub enum ASTMappingKind {
    Token,
    Sequence(Vec<ASTMap>),
    Box(Box<ASTMap>),
}

/// The text rendered by a tree, as UTF-8 bytes.
pub open spec fn render(a: ASTView) -> Seq<u8>
    decreases a, 0int,
{
    match a {
        ASTView::Token(c) => utf8_bytes(c),
        ASTView::Sequence(xs) => render_seq(xs),
        ASTView::Box(b) => render(*b),
    }
}

/// The text rendered by a sequence of trees, in order.
pub open spec fn render_seq(xs: Seq<ASTView>) -> Seq<u8>
    decreases xs, 0int,
{
    if xs.len() == 0 {
        Seq::empty()
    } else {
        render(xs[0]) + render_seq(xs.drop_first())
    }
}

/// Rendering distributes over concatenation.
pub proof fn lemma_render_seq_concat(a: Seq<ASTView>, b: Seq<ASTView>)
    ensures
        render_seq(a + b) == render_seq(a) + render_seq(b),
    decreases a.len(),
{
    if a.len() == 0 {
        assert(a + b =~= b);
        assert(render_seq(a) + render_seq(b) =~= render_seq(b));
    } else {
        assert((a + b).drop_first() =~= a.drop_first() + b);
        assert((a + b)[0] == a[0]);
        lemma_render_seq_concat(a.drop_first(), b);
        assert(render(a[0]) + (render_seq(a.drop_first()) + render_seq(b)) =~= (render(a[0])
            + render_seq(a.drop_first())) + render_seq(b));
    }
}

/// A sequence renders as its prefix's text followed by its suffix's text.
pub proof fn lemma_render_seq_split(xs: Seq<ASTView>, j: int)
    requires
        0 <= j <= xs.len(),
    ensures
        render_seq(xs) == render_seq(xs.take(j)) + render_seq(xs.skip(j)),
{
    assert(xs =~= xs.take(j) + xs.skip(j));
    lemma_render_seq_concat(xs.take(j), xs.skip(j));
}

/// The rendering of one more element extends the prefix text.
pub proof fn lemma_render_seq_take_succ(xs: Seq<ASTView>, j: int)
    requires
        0 <= j < xs.len(),
    ensures
        render_seq(xs.take(j + 1)) == render_seq(xs.take(j)) + render(xs[j]),
{
    assert(xs.take(j + 1) =~= xs.take(j) + seq![xs[j]]);
    lemma_render_seq_concat(xs.take(j), seq![xs[j]]);
    assert(render_seq(seq![xs[j]]) == render(xs[j]) + render_seq(Seq::<ASTView>::empty())) by {
        assert(seq![xs[j]].drop_first() =~= Seq::<ASTView>::empty());
    }
    assert(render(xs[j]) + Seq::<u8>::empty() =~= render(xs[j]));
}

/// Where the text of the `j`-th child of a sequence starts, when the
/// sequence's own text starts at `base`.
pub open spec fn child_pos(xs: Seq<ASTView>, base: int, j: int) -> int {
    base + render_seq(xs.take(j)).len()
}

/// The mapping node `m` mirrors the tree `a` rendered at position `pos`:
/// the node covers exactly the rendered text of `a`, and its children, in
/// order, partition that range.
pub open spec fn maps_at(m: ASTMap, a: ASTView, pos: int) -> bool
    decreases m, 0int,
{
    &&& m.start_index == pos
    &&& m.len == render(a).len()
    &&& match (m.content, a) {
        (ASTMappingKind::Token, ASTView::Token(c)) => true,
        (ASTMappingKind::Sequence(cs), ASTView::Sequence(xs)) => maps_children(cs@, xs, pos),
        (ASTMappingKind::Box(bm), ASTView::Box(ba)) => maps_at(*bm, *ba, pos),
        _ => false,
    }
}

/// The mapping nodes `cs` mirror the trees `xs`, laid out consecutively
/// from position `base`.
pub open spec fn maps_children(cs: Seq<ASTMap>, xs: Seq<ASTView>, base: int) -> bool
    decreases cs, 0int,
{
    if cs.len() != xs.len() {
        false
    } else if cs.len() == 0 {
        true
    } else {
        maps_at(cs[0], xs[0], base) && maps_children(
            cs.drop_first(),
            xs.drop_first(),
            base + render(xs[0]).len(),
        )
    }
}

/// Each child of a well-mapped sequence is itself well mapped, at its own
/// position.
pub proof fn lemma_maps_children_index(cs: Seq<ASTMap>, xs: Seq<ASTView>, base: int, j: int)
    requires
        maps_children(cs, xs, base),
        0 <= j < xs.len(),
    ensures
        maps_at(cs[j], xs[j], child_pos(xs, base, j)),
    decreases j,
{
    if j == 0 {
        assert(xs.take(0) =~= Seq::<ASTView>::empty());
    } else {
        lemma_maps_children_index(cs.drop_first(), xs.drop_first(), base + render(xs[0]).len(), j - 1);
        assert(cs.drop_first()[j - 1] == cs[j]);
        assert(xs.drop_first()[j - 1] == xs[j]);
        assert(xs.drop_first().take(j - 1) =~= xs.take(j).drop_first());
        assert(render_seq(xs.take(j)) == render(xs.take(j)[0]) + render_seq(xs.take(j).drop_first()));
        assert(xs.take(j)[0] == xs[0]);
    }
}

/// A sequence whose children are each well mapped at their own positions is
/// well mapped.
pub proof fn lemma_maps_children_build(cs: Seq<ASTMap>, xs: Seq<ASTView>, base: int)
    requires
        cs.len() == xs.len(),
        forall|j: int| 0 <= j < xs.len() ==> maps_at(#[trigger] cs[j], xs[j], child_pos(xs, base, j)),
    ensures
        maps_children(cs, xs, base),
    decreases cs.len(),
{
    if cs.len() > 0 {
        assert(maps_at(cs[0], xs[0], child_pos(xs, base, 0)));
        assert(xs.take(0) =~= Seq::<ASTView>::empty());
        assert(child_pos(xs, base, 0) == base);
        let cs1 = cs.drop_first();
        let xs1 = xs.drop_first();
        let base1 = base + render(xs[0]).len();
        assert(forall|j: int|
            0 <= j < xs1.len() ==> maps_at(#[trigger] cs1[j], xs1[j], child_pos(xs1, base1, j)))
            by {
            assert forall|j: int| 0 <= j < xs1.len() implies maps_at(
                #[trigger] cs1[j],
                xs1[j],
                child_pos(xs1, base1, j),
            ) by {
                assert(cs1[j] == cs[j + 1]);
                assert(xs1[j] == xs[j + 1]);
                assert(maps_at(cs[j + 1], xs[j + 1], child_pos(xs, base, j + 1)));
                assert(xs1.take(j) =~= xs.take(j + 1).drop_first());
                assert(render_seq(xs.take(j + 1)) == render(xs.take(j + 1)[0]) + render_seq(
                    xs.take(j + 1).drop_first(),
                ));
                assert(xs.take(j + 1)[0] == xs[0]);
            }
        }
        lemma_maps_children_build(cs1, xs1, base1);
    }
}


/// Renders the trees `asts[i..]` into `s` in order, advancing
/// `start_index`, and returns their mappings.
pub fn generate_children(asts: &Vec<AST>, i: usize, s: &mut Vec<u8>, start_index: &mut usize) -> (cs:
    Vec<ASTMap>)
    requires
        i <= asts@.len(),
        *old(start_index) + render_seq(ast_seq_view_from(*asts, i as int)).len() <= usize::MAX,
        old(s)@.len() + render_seq(ast_seq_view_from(*asts, i as int)).len() <= usize::MAX,
    ensures
        final(s)@ == old(s)@ + render_seq(ast_seq_view_from(*asts, i as int)),
        *final(start_index) == *old(start_index) + render_seq(
            ast_seq_view_from(*asts, i as int),
        ).len(),
        maps_children(cs@, ast_seq_view_from(*asts, i as int), *old(start_index) as int),
    decreases *asts, 1int, asts@.len() - i,
{
    let ghost xs = ast_seq_view_from(*asts, i as int);
    if i == asts.len() {
        proof {
            assert(xs =~= Seq::<ASTView>::empty());
            assert(final(s)@ =~= old(s)@ + render_seq(xs));
        }
        Vec::new()
    } else {
        let ghost rest = ast_seq_view_from(*asts, i + 1);
        proof {
            assert(xs == seq![asts@[i as int].deep_view()] + rest);
            assert(xs[0] == asts@[i as int].deep_view());
            assert(xs.drop_first() =~= rest);
            assert(render_seq(xs) == render(xs[0]) + render_seq(rest));
        }
        let c = asts[i].generate_string_in(s, start_index);
        let mut restcs = generate_children(asts, i + 1, s, start_index);
        let mut cs: Vec<ASTMap> = Vec::new();
        let ghost cv = c;
        let ghost restv = restcs@;
        cs.push(c);
        cs.append(&mut restcs);
        proof {
            assert(cs@ =~= seq![cv] + restv);
            assert(cs@[0] == cv);
            assert(cs@.drop_first() =~= restv);
        }
        cs
    }
}

impl AST {
    /// Renders the tree into `s`, advancing `start_index` past the rendered
    /// text, and returns the mapping of this subtree. `start_index` is the
    /// virtual position of the rendered text within the full eventual text,
    /// so it need not equal `s.len()`.
    pub fn generate_string_in(&self, s: &mut Vec<u8>, start_index: &mut usize) -> (r: ASTMap)
        requires
            *old(start_index) + render(self.deep_view()).len() <= usize::MAX,
            old(s)@.len() + render(self.deep_view()).len() <= usize::MAX,
        ensures
            final(s)@ == old(s)@ + render(self.deep_view()),
            *final(start_index) == *old(start_index) + render(self.deep_view()).len(),
            maps_at(r, self.deep_view(), *old(start_index) as int),
        decreases self,
    {
        match self {
            AST::Token(c) => {
                let orig_start_index = *start_index;
                proof {
                    assert(render(self.deep_view()) == utf8_bytes(*c));
                    assert(utf8_bytes(*c).len() <= 4);
                }
                let len = push_utf8(s, *c);
                *start_index = *start_index + len;
                ASTMap { start_index: orig_start_index, len, content: ASTMappingKind::Token }
            },
            AST::Sequence(asts) => {
                let ghost xs = ast_seq_view_from(*asts, 0);
                proof {
                    assert(self.deep_view() == ASTView::Sequence(xs));
                    assert(render(self.deep_view()) == render_seq(xs));
                }
                let original_start_idx = *start_index;
                let cs = generate_children(asts, 0, s, start_index);
                ASTMap {
                    start_index: original_start_idx,
                    len: *start_index - original_start_idx,
                    content: ASTMappingKind::Sequence(cs),
                }
            },
            AST::Box(ast) => {
                let mapping = (**ast).generate_string_in(s, start_index);
                let map_start = mapping.start_index;
                let map_len = mapping.len;
                ASTMap {
                    start_index: map_start,
                    len: map_len,
                    content: ASTMappingKind::Box(Box::new(mapping)),
                }
            },
        }
    }

    /// Renders the tree from position zero.
    pub fn generate_string(&self) -> (r: (Vec<u8>, ASTMap))
        requires
            render(self.deep_view()).len() <= usize::MAX,
        ensures
            r.0@ == render(self.deep_view()),
            maps_at(r.1, self.deep_view(), 0),
    {
        let mut s: Vec<u8> = Vec::new();
        let mut start_index: usize = 0;
        let c = self.generate_string_in(&mut s, &mut start_index);
        proof {
            assert(s@ =~= render(self.deep_view()));
        }
        (s, c)
    }

    /// Renders the tree as if its text began at position `idx`.
    pub fn generate_string_starting_at_idx(&self, idx: usize) -> (r: (Vec<u8>, ASTMap))
        requires
            idx + render(self.deep_view()).len() <= usize::MAX,
        ensures
            r.0@ == render(self.deep_view()),
            maps_at(r.1, self.deep_view(), idx as int),
    {
        let mut s: Vec<u8> = Vec::new();
        let mut start_index: usize = idx;
        let c = self.generate_string_in(&mut s, &mut start_index);
        proof {
            assert(s@ =~= render(self.deep_view()));
        }
        (s, c)
    }
}

} // verus!
