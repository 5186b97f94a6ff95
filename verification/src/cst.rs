use vstd::prelude::*;
use crate::span::Span;

verus! {

/// One node of the concrete syntax tree handed over by the grammar engine.
///
/// The grammar engine itself is an outside collaborator; what this library
/// reads of its tree is exactly what this struct holds as plain values: the
/// node's kind tag, its byte range in the original source, whether the node
/// is a named (semantically meaningful) node, and its ordered children, each
/// optionally labelled with the grammar-declared field name it fills.
#[derive(Debug)]
pub struct CstNode {
    pub kind: String,
    pub start: usize,
    pub end: usize,
    pub named: bool,
    pub children: Vec<CstChild>,
}

/// A child of a [`CstNode`], together with the field name the grammar
/// associates with it (`None` for positional children and punctuation).
#[derive(Debug)]
pub struct CstChild {
    pub field: Option<String>,
    pub node: CstNode,
}

/// Mathematical value of a [`CstNode`].
#[verifier::ext_equal]
pub struct CstView {
    pub kind: Seq<char>,
    pub start: usize,
    pub end: usize,
    pub named: bool,
    pub children: Seq<CstChildView>,
}

/// Mathematical value of a [`CstChild`].
#[verifier::ext_equal]
pub struct CstChildView {
    pub field: Option<Seq<char>>,
    pub node: CstView,
}

pub open spec fn cst_view(n: CstNode) -> CstView
    decreases n,
{
    CstView {
        kind: n.kind@,
        start: n.start,
        end: n.end,
        named: n.named,
        children: cst_children_view(n.children@),
    }
}

pub open spec fn cst_children_view(cs: Seq<CstChild>) -> Seq<CstChildView>
    decreases cs,
{
    if cs.len() == 0 {
        Seq::empty()
    } else {
        seq![
            CstChildView {
                field: match cs[0].field {
                    Option::Some(f) => Option::Some(f@),
                    Option::None => Option::None,
                },
                node: cst_view(cs[0].node),
            }
        ] + cst_children_view(cs.drop_first())
    }
}

impl View for CstNode {
    type V = CstView;

    open spec fn view(&self) -> CstView {
        cst_view(*self)
    }
}

impl View for CstChild {
    type V = CstChildView;

    open spec fn view(&self) -> CstChildView {
        CstChildView {
            field: match self.field {
                Option::Some(f) => Option::Some(f@),
                Option::None => Option::None,
            },
            node: cst_view(self.node),
        }
    }
}

/// The view of a child list is the pointwise view of its elements.
pub proof fn lemma_cst_children_view(cs: Seq<CstChild>)
    ensures
        cst_children_view(cs).len() == cs.len(),
        forall|i: int| 0 <= i < cs.len() ==> cst_children_view(cs)[i] == #[trigger] cs[i]@,
    decreases cs,
{
    if cs.len() > 0 {
        lemma_cst_children_view(cs.drop_first());
        assert forall|i: int| 0 <= i < cs.len() implies cst_children_view(cs)[i] == #[trigger] cs[i]@ by {
            if i > 0 {
                assert(cs.drop_first()[i - 1] == cs[i]);
            }
        }
    }
}

/// A node is well formed when its byte range is ordered and every child's is too.
pub open spec fn cst_wf(n: CstView) -> bool
    decreases n,
{
    &&& n.start <= n.end
    &&& forall|i: int| 0 <= i < n.children.len() ==> cst_wf(#[trigger] n.children[i].node)
}

impl CstNode {
    /// Checks [`cst_wf`] over the whole tree: every node's byte range must
    /// be ordered.
    #[verifier::loop_isolation(false)]
    pub fn well_formed(&self) -> (b: bool)
        ensures
            b == cst_wf(self@),
        decreases self@,
    {
        if self.start > self.end {
            return false;
        }
        proof {
            lemma_cst_children_view(self.children@);
        }
        let mut i: usize = 0;
        while i < self.children.len()
            invariant
                i <= self.children.len(),
                forall|j: int| 0 <= j < i ==> cst_wf(#[trigger] self@.children[j].node),
            decreases self.children.len() - i,
        {
            let child = &self.children[i];
            proof {
                assert(child@ == self.children@[i as int]@);
                assert(self@.children[i as int] == self.children@[i as int]@);
                assert(decreases_to!(self@ => self@.children));
                assert(decreases_to!(self@.children => self@.children[i as int]));
                assert(decreases_to!(self@.children[i as int] => self@.children[i as int].node));
            }
            if !child.node.well_formed() {
                return false;
            }
            i = i + 1;
        }
        true
    }
}

/// A node that stands among another's children is itself well formed and
/// structurally smaller.
pub proof fn lemma_member_child(n: CstView, c: CstView)
    requires
        cst_wf(n),
        exists|i: int| 0 <= i < n.children.len() && #[trigger] n.children[i].node == c,
    ensures
        cst_wf(c),
        decreases_to!(n => c),
{
    let i = choose|i: int| 0 <= i < n.children.len() && #[trigger] n.children[i].node == c;
    assert(cst_wf(n.children[i].node));
    assert(decreases_to!(n => n.children));
    assert(decreases_to!(n.children => n.children[i]));
    assert(decreases_to!(n.children[i] => n.children[i].node));
}

} // verus!
