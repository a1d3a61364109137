//! Laws of element-type annotation: it only fills in the element types of
//! collection reads and edits from the declared states, so annotating an
//! annotated component changes nothing.
use crate::ir_rules::{
    annotate_branch, annotate_component, annotate_expr, annotate_member, annotate_members, annotate_node,
    collection_elem,
};
use crate::ir_view::{BranchV, ComponentV, ExprV, FlowV, MemberV, NodeV, PartV, StateV};
use vstd::prelude::*;

verus! {

/// Annotation is idempotent: annotating an annotated component gives the
/// same component.
pub proof fn law_annotation_is_idempotent(c: ComponentV)
    ensures
        annotate_component(annotate_component(c)) == annotate_component(c),
{
    lemma_node_idem(c.root, c.states);
}

proof fn lemma_expr_idem(e: ExprV, st: Seq<StateV>)
    ensures
        annotate_expr(annotate_expr(e, st), st) == annotate_expr(e, st),
    decreases e,
{
    match e {
        ExprV::ListPropRead { path, elem } => {
            assert(collection_elem(st, path, collection_elem(st, path, elem)) == collection_elem(st, path, elem));
        },
        ExprV::ListAppend { path, elem, value } => {
            lemma_expr_idem(*value, st);
            assert(collection_elem(st, path, collection_elem(st, path, elem)) == collection_elem(st, path, elem));
        },
        ExprV::ListDropLast { path, elem } => {
            assert(collection_elem(st, path, collection_elem(st, path, elem)) == collection_elem(st, path, elem));
        },
        ExprV::Assign { lhs, rhs } => {
            lemma_expr_idem(*rhs, st);
        },
        ExprV::CompoundAssign { lhs, op, rhs } => {
            lemma_expr_idem(*rhs, st);
        },
        ExprV::Interpolation(parts) => {
            let once = annotate_expr(e, st);
            let twice = annotate_expr(once, st);
            if let (ExprV::Interpolation(p1), ExprV::Interpolation(p2)) = (once, twice) {
                assert forall|i: int| 0 <= i < parts.len() implies p2[i] == p1[i] by {
                    if let PartV::Expr(inner) = parts[i] {
                        assert(decreases_to!(e => parts[i]));
                        lemma_expr_idem(inner, st);
                    }
                }
                assert(p2 =~= p1);
            }
        },
        ExprV::Block(es) => {
            let once = annotate_expr(e, st);
            let twice = annotate_expr(once, st);
            if let (ExprV::Block(b1), ExprV::Block(b2)) = (once, twice) {
                assert forall|i: int| 0 <= i < es.len() implies b2[i] == b1[i] by {
                    assert(decreases_to!(e => es[i]));
                    lemma_expr_idem(es[i], st);
                }
                assert(b2 =~= b1);
            }
        },
        _ => {},
    }
}

proof fn lemma_node_idem(n: NodeV, st: Seq<StateV>)
    ensures
        annotate_node(annotate_node(n, st), st) == annotate_node(n, st),
    decreases n,
{
    let once = annotate_node(n, st);
    let twice = annotate_node(once, st);
    assert forall|i: int| 0 <= i < n.bindings.len() implies twice.bindings[i] == once.bindings[i] by {
        lemma_expr_idem(n.bindings[i].expr, st);
    }
    assert forall|i: int| 0 <= i < n.handlers.len() implies twice.handlers[i] == once.handlers[i] by {
        lemma_expr_idem(n.handlers[i].expr, st);
    }
    assert(twice.bindings =~= once.bindings);
    assert(twice.handlers =~= once.handlers);
    lemma_members_idem(n.children, st);
}

proof fn lemma_members_idem(s: Seq<MemberV>, st: Seq<StateV>)
    ensures
        annotate_members(annotate_members(s, st), st) == annotate_members(s, st),
    decreases s,
{
    let once = annotate_members(s, st);
    let twice = annotate_members(once, st);
    assert forall|j: int| 0 <= j < s.len() implies twice[j] == once[j] by {
        lemma_member_idem(s[j], st);
    }
    assert(twice =~= once);
}

proof fn lemma_branch_idem(b: BranchV, st: Seq<StateV>)
    ensures
        annotate_branch(annotate_branch(b, st), st) == annotate_branch(b, st),
    decreases b,
{
    lemma_expr_idem(b.condition, st);
    lemma_members_idem(b.body, st);
}

proof fn lemma_member_idem(m: MemberV, st: Seq<StateV>)
    ensures
        annotate_member(annotate_member(m, st), st) == annotate_member(m, st),
    decreases m,
{
    match m {
        MemberV::Widget(s) => {
            lemma_node_idem(s.node, st);
        },
        MemberV::ControlFlow(FlowV::If { branches }) => {
            let once = annotate_member(m, st);
            let twice = annotate_member(once, st);
            if let (MemberV::ControlFlow(FlowV::If { branches: b1 }), MemberV::ControlFlow(FlowV::If { branches: b2 })) = (
                once,
                twice,
            ) {
                assert forall|b: int| 0 <= b < branches.len() implies b2[b] == b1[b] by {
                    lemma_branch_idem(branches[b], st);
                }
                assert(b2 =~= b1);
            }
        },
        MemberV::ControlFlow(FlowV::For { binder, index_binder, collection, body }) => {
            lemma_expr_idem(collection, st);
            lemma_members_idem(body, st);
        },
    }
}

} // verus!
