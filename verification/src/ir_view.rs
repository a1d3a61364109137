//! The mathematical content of the in-memory IR: every string is its
//! characters and every vector its sequence of element views.
use crate::ir::{
    CompoundOp, ControlFlowBranch, ControlFlowNode, HandlerExpr, InterpolationPart, IrBinding, IrChildSlot,
    IrComponent, IrHandler, IrLiteral, IrMember, IrNode, IrProp, IrSlotData, IrState, IrStateType, IrType,
    KindPayload, TrackSize,
};
use vstd::prelude::*;

verus! {

/// The content of an [`IrLiteral`].
pub enum LiteralV {
    Int(i32),
    Str(Seq<char>),
    Bool(bool),
    Ident(Seq<char>),
    Ratio { num: i32, den: i32 },
    Color(u32),
    List(Seq<LiteralV>),
}

/// The content of an [`InterpolationPart`].
pub enum PartV {
    Literal(Seq<char>),
    Expr(ExprV),
}

/// The content of a [`HandlerExpr`].
pub enum ExprV {
    IntLit(i32),
    StrLit(Seq<char>),
    BoolLit(bool),
    PropRead { path: Seq<char> },
    StrPropRead { path: Seq<char> },
    BoolPropRead { path: Seq<char> },
    ListPropRead { path: Seq<char>, elem: IrType },
    ItemRead { binder: Seq<char> },
    IndexRead { binder: Seq<char> },
    ListAppend { path: Seq<char>, elem: IrType, value: Box<ExprV> },
    ListDropLast { path: Seq<char>, elem: IrType },
    ListLit(Seq<LiteralV>),
    Interpolation(Seq<PartV>),
    Assign { lhs: Seq<char>, rhs: Box<ExprV> },
    CompoundAssign { lhs: Seq<char>, op: CompoundOp, rhs: Box<ExprV> },
    Block(Seq<ExprV>),
}

/// The content of an [`IrProp`].
pub struct PropV {
    pub name: Seq<char>,
    pub value: LiteralV,
}

/// The content of an [`IrBinding`].
pub struct BindingV {
    pub prop_name: Seq<char>,
    pub expr: ExprV,
}

/// The content of an [`IrHandler`].
pub struct HandlerV {
    pub signal: Seq<char>,
    pub arg: Option<Seq<char>>,
    pub expr: ExprV,
}

/// The content of an [`IrState`].
pub struct StateV {
    pub name: Seq<char>,
    pub ty: IrStateType,
    pub default: LiteralV,
}

/// The content of a [`KindPayload`].
pub enum PayloadV {
    Grid { columns: Seq<TrackSize>, rows: Seq<TrackSize> },
}

/// The content of an [`IrNode`].
pub struct NodeV {
    pub widget_type: Seq<char>,
    pub props: Seq<PropV>,
    pub bindings: Seq<BindingV>,
    pub handlers: Seq<HandlerV>,
    pub children: Seq<MemberV>,
    pub kind_payload: Option<PayloadV>,
}

/// The content of an [`IrMember`].
pub enum MemberV {
    Widget(SlotV),
    ControlFlow(FlowV),
}

/// The content of an [`IrChildSlot`].
pub struct SlotV {
    pub node: NodeV,
    pub slot_data: Option<IrSlotData>,
}

/// The content of a [`ControlFlowNode`].
pub enum FlowV {
    If { branches: Seq<BranchV> },
    For { binder: Seq<char>, index_binder: Option<Seq<char>>, collection: ExprV, body: Seq<MemberV> },
}

/// The content of a [`ControlFlowBranch`].
pub struct BranchV {
    pub condition: ExprV,
    pub body: Seq<MemberV>,
}

/// The content of an [`IrComponent`].
pub struct ComponentV {
    pub name: Seq<char>,
    pub base: Seq<char>,
    pub host_props: Seq<PropV>,
    pub host_bindings: Seq<BindingV>,
    pub states: Seq<StateV>,
    pub root: NodeV,
}

/// The characters of an optional string.
pub open spec fn opt_str(o: Option<String>) -> Option<Seq<char>> {
    match o {
        Some(s) => Some(s@),
        None => None,
    }
}

// ── Literals and expressions ────────────────────────────────────────────

/// The content of a literal.
pub open spec fn lit_view(l: IrLiteral) -> LiteralV
    decreases l,
{
    match l {
        IrLiteral::Int(n) => LiteralV::Int(n),
        IrLiteral::Str(s) => LiteralV::Str(s@),
        IrLiteral::Bool(b) => LiteralV::Bool(b),
        IrLiteral::Ident(s) => LiteralV::Ident(s@),
        IrLiteral::Ratio { num, den } => LiteralV::Ratio { num, den },
        IrLiteral::Color(c) => LiteralV::Color(c),
        IrLiteral::List(items) => {
            proof {
                assert(decreases_to!(l => items@));
            }
            LiteralV::List(lits_view(items@))
        },
    }
}

/// The contents of a sequence of literals.
pub open spec fn lits_view(s: Seq<IrLiteral>) -> Seq<LiteralV>
    decreases s,
{
    if s.len() == 0 {
        Seq::empty()
    } else {
        lits_view(s.subrange(0, s.len() - 1)).push(lit_view(s[s.len() - 1]))
    }
}

/// The content of an expression.
pub open spec fn expr_view(e: HandlerExpr) -> ExprV
    decreases e,
{
    match e {
        HandlerExpr::IntLit(n) => ExprV::IntLit(n),
        HandlerExpr::StrLit(s) => ExprV::StrLit(s@),
        HandlerExpr::BoolLit(b) => ExprV::BoolLit(b),
        HandlerExpr::PropRead { path } => ExprV::PropRead { path: path@ },
        HandlerExpr::StrPropRead { path } => ExprV::StrPropRead { path: path@ },
        HandlerExpr::BoolPropRead { path } => ExprV::BoolPropRead { path: path@ },
        HandlerExpr::ListPropRead { path, elem } => ExprV::ListPropRead { path: path@, elem },
        HandlerExpr::ItemRead { binder } => ExprV::ItemRead { binder: binder@ },
        HandlerExpr::IndexRead { binder } => ExprV::IndexRead { binder: binder@ },
        HandlerExpr::ListAppend { path, elem, value } => ExprV::ListAppend {
            path: path@,
            elem,
            value: Box::new(expr_view(*value)),
        },
        HandlerExpr::ListDropLast { path, elem } => ExprV::ListDropLast { path: path@, elem },
        HandlerExpr::ListLit(items) => ExprV::ListLit(lits_view(items@)),
        HandlerExpr::Interpolation(parts) => {
            proof {
                assert(decreases_to!(e => parts@));
            }
            ExprV::Interpolation(parts_view(parts@))
        },
        HandlerExpr::Assign { lhs, rhs } => ExprV::Assign { lhs: lhs@, rhs: Box::new(expr_view(*rhs)) },
        HandlerExpr::CompoundAssign { lhs, op, rhs } => ExprV::CompoundAssign {
            lhs: lhs@,
            op,
            rhs: Box::new(expr_view(*rhs)),
        },
        HandlerExpr::Block(stmts) => {
            proof {
                assert(decreases_to!(e => stmts@));
            }
            ExprV::Block(exprs_view(stmts@))
        },
    }
}

/// The contents of a sequence of expressions.
pub open spec fn exprs_view(s: Seq<HandlerExpr>) -> Seq<ExprV>
    decreases s,
{
    if s.len() == 0 {
        Seq::empty()
    } else {
        exprs_view(s.subrange(0, s.len() - 1)).push(expr_view(s[s.len() - 1]))
    }
}

/// The content of an interpolation part.
pub open spec fn part_view(p: InterpolationPart) -> PartV
    decreases p,
{
    match p {
        InterpolationPart::Literal(s) => PartV::Literal(s@),
        InterpolationPart::Expr(e) => PartV::Expr(expr_view(e)),
    }
}

/// The contents of a sequence of interpolation parts.
pub open spec fn parts_view(s: Seq<InterpolationPart>) -> Seq<PartV>
    decreases s,
{
    if s.len() == 0 {
        Seq::empty()
    } else {
        parts_view(s.subrange(0, s.len() - 1)).push(part_view(s[s.len() - 1]))
    }
}

// ── Attributes and states ───────────────────────────────────────────────

/// The content of a constant attribute.
pub open spec fn prop_view(p: IrProp) -> PropV {
    PropV { name: p.name@, value: lit_view(p.value) }
}

/// The contents of a sequence of constant attributes.
pub open spec fn props_view(s: Seq<IrProp>) -> Seq<PropV> {
    s.map_values(|p: IrProp| prop_view(p))
}

/// The content of a bound attribute.
pub open spec fn binding_view(b: IrBinding) -> BindingV {
    BindingV { prop_name: b.prop_name@, expr: expr_view(b.expr) }
}

/// The contents of a sequence of bound attributes.
pub open spec fn bindings_view(s: Seq<IrBinding>) -> Seq<BindingV> {
    s.map_values(|b: IrBinding| binding_view(b))
}

/// The content of a signal handler.
pub open spec fn handler_view(h: IrHandler) -> HandlerV {
    HandlerV { signal: h.signal@, arg: opt_str(h.arg), expr: expr_view(h.expr) }
}

/// The contents of a sequence of signal handlers.
pub open spec fn handlers_view(s: Seq<IrHandler>) -> Seq<HandlerV> {
    s.map_values(|h: IrHandler| handler_view(h))
}

/// The content of a state declaration.
pub open spec fn state_view(st: IrState) -> StateV {
    StateV { name: st.name@, ty: st.ty, default: lit_view(st.default) }
}

/// The contents of a sequence of state declarations.
pub open spec fn states_view(s: Seq<IrState>) -> Seq<StateV> {
    s.map_values(|st: IrState| state_view(st))
}

/// The content of a kind payload.
pub open spec fn payload_view(k: Option<KindPayload>) -> Option<PayloadV> {
    match k {
        Some(KindPayload::Grid { columns, rows }) => Some(PayloadV::Grid { columns: columns@, rows: rows@ }),
        None => None,
    }
}

// ── Nodes ───────────────────────────────────────────────────────────────

/// The content of a widget node.
pub open spec fn node_view(n: IrNode) -> NodeV
    decreases n,
{
    proof {
        assert(decreases_to!(n => n.children@));
    }
    NodeV {
        widget_type: n.widget_type@,
        props: props_view(n.props@),
        bindings: bindings_view(n.bindings@),
        handlers: handlers_view(n.handlers@),
        children: members_view(n.children@),
        kind_payload: payload_view(n.kind_payload),
    }
}

/// The content of a member.
pub open spec fn member_view(m: IrMember) -> MemberV
    decreases m,
{
    match m {
        IrMember::Widget(slot) => MemberV::Widget(slot_view(slot)),
        IrMember::ControlFlow(f) => MemberV::ControlFlow(flow_view(f)),
    }
}

/// The contents of a sequence of members.
pub open spec fn members_view(s: Seq<IrMember>) -> Seq<MemberV>
    decreases s,
{
    if s.len() == 0 {
        Seq::empty()
    } else {
        members_view(s.subrange(0, s.len() - 1)).push(member_view(s[s.len() - 1]))
    }
}

/// The content of a child slot.
pub open spec fn slot_view(s: IrChildSlot) -> SlotV
    decreases s,
{
    SlotV { node: node_view(s.node), slot_data: s.slot_data }
}

/// The content of a control-flow block.
pub open spec fn flow_view(f: ControlFlowNode) -> FlowV
    decreases f,
{
    match f {
        ControlFlowNode::If { branches } => {
            proof {
                assert(decreases_to!(f => branches@));
            }
            FlowV::If { branches: branches_view(branches@) }
        },
        ControlFlowNode::For { binder, index_binder, collection, body } => {
            proof {
                assert(decreases_to!(f => body@));
            }
            FlowV::For {
                binder: binder@,
                index_binder: opt_str(index_binder),
                collection: expr_view(collection),
                body: members_view(body@),
            }
        },
    }
}

/// The content of an `if` branch.
pub open spec fn branch_view(b: ControlFlowBranch) -> BranchV
    decreases b,
{
    proof {
        assert(decreases_to!(b => b.body@));
    }
    BranchV { condition: expr_view(b.condition), body: members_view(b.body@) }
}

/// The contents of a sequence of `if` branches.
pub open spec fn branches_view(s: Seq<ControlFlowBranch>) -> Seq<BranchV>
    decreases s,
{
    if s.len() == 0 {
        Seq::empty()
    } else {
        branches_view(s.subrange(0, s.len() - 1)).push(branch_view(s[s.len() - 1]))
    }
}

/// The content of a component.
pub open spec fn component_view(c: IrComponent) -> ComponentV {
    ComponentV {
        name: c.name@,
        base: c.base@,
        host_props: props_view(c.host_props@),
        host_bindings: bindings_view(c.host_bindings@),
        states: states_view(c.states@),
        root: node_view(c.root),
    }
}

// ── Sequence views grow element by element ──────────────────────────────

pub proof fn lemma_lits_view_push(s: Seq<IrLiteral>, x: IrLiteral)
    ensures
        lits_view(s.push(x)) == lits_view(s).push(lit_view(x)),
{
    assert(s.push(x).subrange(0, s.len() as int) =~= s);
}

pub proof fn lemma_exprs_view_push(s: Seq<HandlerExpr>, x: HandlerExpr)
    ensures
        exprs_view(s.push(x)) == exprs_view(s).push(expr_view(x)),
{
    assert(s.push(x).subrange(0, s.len() as int) =~= s);
}

pub proof fn lemma_parts_view_push(s: Seq<InterpolationPart>, x: InterpolationPart)
    ensures
        parts_view(s.push(x)) == parts_view(s).push(part_view(x)),
{
    assert(s.push(x).subrange(0, s.len() as int) =~= s);
}

pub proof fn lemma_members_view_push(s: Seq<IrMember>, x: IrMember)
    ensures
        members_view(s.push(x)) == members_view(s).push(member_view(x)),
{
    assert(s.push(x).subrange(0, s.len() as int) =~= s);
}

pub proof fn lemma_branches_view_push(s: Seq<ControlFlowBranch>, x: ControlFlowBranch)
    ensures
        branches_view(s.push(x)) == branches_view(s).push(branch_view(x)),
{
    assert(s.push(x).subrange(0, s.len() as int) =~= s);
}

// ── Sequence views, element by element ──────────────────────────────────

pub proof fn lemma_lits_view_index(s: Seq<IrLiteral>)
    ensures
        lits_view(s).len() == s.len(),
        forall|k: int| 0 <= k < s.len() ==> #[trigger] lits_view(s)[k] == lit_view(s[k]),
    decreases s.len(),
{
    if s.len() > 0 {
        lemma_lits_view_index(s.subrange(0, s.len() - 1));
    }
}

pub proof fn lemma_exprs_view_index(s: Seq<HandlerExpr>)
    ensures
        exprs_view(s).len() == s.len(),
        forall|k: int| 0 <= k < s.len() ==> #[trigger] exprs_view(s)[k] == expr_view(s[k]),
    decreases s.len(),
{
    if s.len() > 0 {
        lemma_exprs_view_index(s.subrange(0, s.len() - 1));
    }
}

pub proof fn lemma_parts_view_index(s: Seq<InterpolationPart>)
    ensures
        parts_view(s).len() == s.len(),
        forall|k: int| 0 <= k < s.len() ==> #[trigger] parts_view(s)[k] == part_view(s[k]),
    decreases s.len(),
{
    if s.len() > 0 {
        lemma_parts_view_index(s.subrange(0, s.len() - 1));
    }
}

pub proof fn lemma_members_view_index(s: Seq<IrMember>)
    ensures
        members_view(s).len() == s.len(),
        forall|k: int| 0 <= k < s.len() ==> #[trigger] members_view(s)[k] == member_view(s[k]),
    decreases s.len(),
{
    if s.len() > 0 {
        lemma_members_view_index(s.subrange(0, s.len() - 1));
    }
}

pub proof fn lemma_branches_view_index(s: Seq<ControlFlowBranch>)
    ensures
        branches_view(s).len() == s.len(),
        forall|k: int| 0 <= k < s.len() ==> #[trigger] branches_view(s)[k] == branch_view(s[k]),
    decreases s.len(),
{
    if s.len() > 0 {
        lemma_branches_view_index(s.subrange(0, s.len() - 1));
    }
}

} // verus!
