//! In-memory IR for handler bodies and binding expressions.
use vstd::prelude::*;

verus! {

/// The operator of a compound assignment (`+=`, `-=`, `*=`, `/=`).
#[derive(Clone, Copy, PartialEq, Eq, Debug, Structural)]
pub enum CompoundOp {
    Add,
    Sub,
    Mul,
    Div,
}

/// The scalar type of a state, a property or a collection element.
#[derive(Clone, Copy, PartialEq, Eq, Debug, Structural)]
pub enum IrType {
    I32,
    Str,
    Bool,
}

/// A literal value.
#[derive(Debug)]
pub enum IrLiteral {
    Int(i32),
    Str(String),
    Bool(bool),
    Ident(String),
    /// `num:den`, as written.
    Ratio { num: i32, den: i32 },
    /// Packed `0xAARRGGBB`.
    Color(u32),
    List(Vec<IrLiteral>),
}

/// One part of a string interpolation.
#[derive(Debug)]
pub enum InterpolationPart {
    Literal(String),
    Expr(HandlerExpr),
}

/// A handler body or binding expression.
#[derive(Debug)]
pub enum HandlerExpr {
    IntLit(i32),
    StrLit(String),
    BoolLit(bool),
    PropRead { path: String },
    StrPropRead { path: String },
    BoolPropRead { path: String },
    ListPropRead { path: String, elem: IrType },
    ItemRead { binder: String },
    IndexRead { binder: String },
    ListAppend { path: String, elem: IrType, value: Box<HandlerExpr> },
    ListDropLast { path: String, elem: IrType },
    ListLit(Vec<IrLiteral>),
    Interpolation(Vec<InterpolationPart>),
    Assign { lhs: String, rhs: Box<HandlerExpr> },
    CompoundAssign { lhs: String, op: CompoundOp, rhs: Box<HandlerExpr> },
    Block(Vec<HandlerExpr>),
}

/// Alignment of a child inside its placement cell.
#[derive(Clone, Copy, PartialEq, Eq, Debug, Structural)]
pub enum IrAlignment {
    Start,
    Center,
    End,
    Stretch,
}

/// One Grid track: a fixed size, or a weighted share of the rest (`n*`).
#[derive(Clone, Copy, PartialEq, Eq, Debug, Structural)]
pub enum TrackSize {
    Fixed(i32),
    Star(u32),
}

/// Per-kind payload of a node; only Grid has one (its track lists).
#[derive(Debug)]
pub enum KindPayload {
    Grid { columns: Vec<TrackSize>, rows: Vec<TrackSize> },
}

/// Placement data a child carries for its parent container.
#[derive(Clone, Copy, PartialEq, Eq, Debug, Structural)]
pub enum IrSlotData {
    Grid { row: u32, column: u32, row_span: u32, column_span: u32, h_align: IrAlignment, v_align: IrAlignment },
    ZStack { h_align: IrAlignment, v_align: IrAlignment },
}

/// A constant attribute: `prop NAME = LITERAL`.
#[derive(Debug)]
pub struct IrProp {
    pub name: String,
    pub value: IrLiteral,
}

/// A bound attribute: `bind NAME = EXPR`.
#[derive(Debug)]
pub struct IrBinding {
    pub prop_name: String,
    pub expr: HandlerExpr,
}

/// A signal handler: `on SIGNAL ("ARG")? { EXPR }`.
#[derive(Debug)]
pub struct IrHandler {
    pub signal: String,
    pub arg: Option<String>,
    pub expr: HandlerExpr,
}

/// The declared type of a state.
#[derive(Clone, Copy, PartialEq, Eq, Debug, Structural)]
pub enum IrStateType {
    Scalar(IrType),
    Collection(IrType),
}

/// A component state: `state NAME: TYPE ([])? = LITERAL`.
#[derive(Debug)]
pub struct IrState {
    pub name: String,
    pub ty: IrStateType,
    pub default: IrLiteral,
}

/// A widget node.
#[derive(Debug)]
pub struct IrNode {
    pub widget_type: String,
    pub props: Vec<IrProp>,
    pub bindings: Vec<IrBinding>,
    pub handlers: Vec<IrHandler>,
    pub children: Vec<IrMember>,
    pub kind_payload: Option<KindPayload>,
}

/// A member of a node's body: a widget child or a control-flow block.
#[derive(Debug)]
pub enum IrMember {
    Widget(IrChildSlot),
    ControlFlow(ControlFlowNode),
}

/// A child widget with the placement data it carries.
#[derive(Debug)]
pub struct IrChildSlot {
    pub node: IrNode,
    pub slot_data: Option<IrSlotData>,
}

/// A conditional or iterating block of members.
#[derive(Debug)]
pub enum ControlFlowNode {
    If { branches: Vec<ControlFlowBranch> },
    For { binder: String, index_binder: Option<String>, collection: HandlerExpr, body: Vec<IrMember> },
}

/// One branch of an `if`: its condition and body.
#[derive(Debug)]
pub struct ControlFlowBranch {
    pub condition: HandlerExpr,
    pub body: Vec<IrMember>,
}

/// A whole component.
#[derive(Debug)]
pub struct IrComponent {
    pub name: String,
    pub base: String,
    pub host_props: Vec<IrProp>,
    pub host_bindings: Vec<IrBinding>,
    pub states: Vec<IrState>,
    pub root: IrNode,
}

} // verus!
