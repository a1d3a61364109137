//! The rules a parsed component must meet before it is built: the state
//! declarations, the host surface, name resolution, and the structural
//! invariants of each widget kind, stated over the IR's content.
use crate::ir::{IrSlotData, IrStateType, IrType, TrackSize};
use crate::ir_loader::{grid_rects_overlap_spec, GridCellRect};
use crate::ir_view::{
    BindingV, ComponentV, ExprV, FlowV, HandlerV, LiteralV, MemberV, NodeV, PartV, PayloadV, PropV, SlotV, StateV,
};
use vstd::prelude::*;

verus! {

// ── Names and catalogues ────────────────────────────────────────────────

/// Widget kinds that layout arranges as one rectangle: they take no child.
pub open spec fn layout_childless(wt: Seq<char>) -> bool {
    wt == "Rectangle"@ || wt == "Text"@ || wt == "Button"@ || wt == "ToggleButton"@
}

/// Containers that admit `focus-group` and `modal-scope`.
pub open spec fn focus_annotation_container(wt: Seq<char>) -> bool {
    wt == "VStack"@ || wt == "HStack"@ || wt == "Box"@ || wt == "WrapPanel"@ || wt == "ScrollView"@ || wt
        == "Grid"@ || wt == "ZStack"@
}

/// The focus annotations.
pub open spec fn is_focus_annotation(name: Seq<char>) -> bool {
    name == "focus-group"@ || name == "modal-scope"@
}

/// The keys a `key-down` handler may name: the named non-character keys.
pub open spec fn recognised_key(k: Seq<char>) -> bool {
    ||| k == "Escape"@
    ||| k == "ArrowLeft"@
    ||| k == "ArrowRight"@
    ||| k == "ArrowUp"@
    ||| k == "ArrowDown"@
    ||| k == "Home"@
    ||| k == "End"@
    ||| k == "PageUp"@
    ||| k == "PageDown"@
    ||| k == "Enter"@
    ||| k == "F1"@
    ||| k == "F2"@
    ||| k == "F3"@
    ||| k == "F4"@
    ||| k == "F5"@
    ||| k == "F6"@
    ||| k == "F7"@
    ||| k == "F8"@
    ||| k == "F9"@
    ||| k == "F10"@
    ||| k == "F11"@
    ||| k == "F12"@
}

/// The static host attributes.
pub open spec fn is_host_attr(name: Seq<char>) -> bool {
    name == "title"@ || name == "backdrop"@ || name == "theme"@
}

/// The WrapPanel attributes that must not be negative.
pub open spec fn is_wrap_attr(name: Seq<char>) -> bool {
    name == "item-cross-size"@ || name == "item-spacing"@ || name == "line-spacing"@
}

/// Placement attributes of a ZStack child.
pub open spec fn is_placement_attr(name: Seq<char>) -> bool {
    name == "h-align"@ || name == "v-align"@
}

/// The widget property a bindable attribute writes.
#[derive(Clone, Copy, PartialEq, Eq, Debug, Structural)]
pub enum PropertyKey {
    TextContent,
    TextStyle,
    ButtonLabel,
    ButtonStyle,
    ButtonEnabled,
    ToggleButtonChecked,
    ScrollViewOffsetY,
}

/// The property a bindable widget attribute writes, and its declared type.
pub open spec fn prop_key(wt: Seq<char>, name: Seq<char>) -> Option<(PropertyKey, IrType)> {
    if wt == "Text"@ && name == "text"@ {
        Some((PropertyKey::TextContent, IrType::Str))
    } else if wt == "Text"@ && name == "font"@ {
        Some((PropertyKey::TextStyle, IrType::I32))
    } else if (wt == "Button"@ || wt == "ToggleButton"@) && name == "text"@ {
        Some((PropertyKey::ButtonLabel, IrType::Str))
    } else if (wt == "Button"@ || wt == "ToggleButton"@) && name == "style"@ {
        Some((PropertyKey::ButtonStyle, IrType::I32))
    } else if (wt == "Button"@ || wt == "ToggleButton"@) && name == "enabled"@ {
        Some((PropertyKey::ButtonEnabled, IrType::Bool))
    } else if wt == "ToggleButton"@ && name == "checked"@ {
        Some((PropertyKey::ToggleButtonChecked, IrType::Bool))
    } else if wt == "ScrollView"@ && name == "offset-y"@ {
        Some((PropertyKey::ScrollViewOffsetY, IrType::I32))
    } else {
        None
    }
}

/// The declared type of a bindable widget attribute.
pub open spec fn prop_type(wt: Seq<char>, name: Seq<char>) -> Option<IrType> {
    match prop_key(wt, name) {
        Some((_, t)) => Some(t),
        None => None,
    }
}

// ── States ──────────────────────────────────────────────────────────────

/// The declared type of the first state named `name` at or after `i`.
pub open spec fn lookup_from(states: Seq<StateV>, name: Seq<char>, i: int) -> Option<IrStateType>
    decreases states.len() - i,
{
    if i < 0 || i >= states.len() {
        None
    } else if states[i].name == name {
        Some(states[i].ty)
    } else {
        lookup_from(states, name, i + 1)
    }
}

/// The declared type of the first state named `name`.
pub open spec fn lookup(states: Seq<StateV>, name: Seq<char>) -> Option<IrStateType> {
    lookup_from(states, name, 0)
}

/// A literal of the scalar type `elem`.
pub open spec fn literal_has_type(elem: IrType, l: LiteralV) -> bool {
    match (elem, l) {
        (IrType::I32, LiteralV::Int(_)) | (IrType::Str, LiteralV::Str(_)) | (IrType::Bool, LiteralV::Bool(_)) => true,
        _ => false,
    }
}

/// A state's default matches its declared type: a scalar literal of it,
/// or a list of such literals for a collection.
pub open spec fn state_default_ok(st: StateV) -> bool {
    match (st.ty, st.default) {
        (IrStateType::Scalar(t), d) => literal_has_type(t, d),
        (IrStateType::Collection(elem), LiteralV::List(items)) => forall|i: int|
            0 <= i < items.len() ==> literal_has_type(elem, #[trigger] items[i]),
        _ => false,
    }
}

/// No two states share a name, and every default matches its type.
pub open spec fn states_ok(states: Seq<StateV>) -> bool {
    &&& forall|i: int, j: int| 0 <= i < j < states.len() ==> states[i].name != states[j].name
    &&& forall|i: int| 0 <= i < states.len() ==> state_default_ok(#[trigger] states[i])
}

// ── Host surface ────────────────────────────────────────────────────────

/// A host attribute: `title` a string, `backdrop` / `theme` a keyword.
pub open spec fn host_prop_ok(p: PropV) -> bool {
    if p.name == "title"@ {
        p.value is Str
    } else if p.name == "backdrop"@ || p.name == "theme"@ {
        !(p.value is Int || p.value is Str || p.value is Bool)
    } else {
        false
    }
}

/// The host surface: known constant attributes only, nothing bound, and
/// no host attribute squatting on the content root.
pub open spec fn host_surface_ok(c: ComponentV) -> bool {
    &&& forall|i: int| 0 <= i < c.host_props.len() ==> host_prop_ok(#[trigger] c.host_props[i])
    &&& c.host_bindings.len() == 0
    &&& forall|i: int| 0 <= i < c.root.props.len() ==> !is_host_attr(#[trigger] c.root.props[i].name)
    &&& forall|i: int| 0 <= i < c.root.bindings.len() ==> !is_host_attr(#[trigger] c.root.bindings[i].prop_name)
}

// ── Whole-tree rules checked node by node ───────────────────────────────

/// The rules that each node meets on its own.
#[derive(Clone, Copy, PartialEq, Eq, Debug, Structural)]
pub enum NodeRule {
    /// Box takes at most one child member, a layout-childless kind none;
    /// ratio literals only on `Box.aspect`, colour literals only on `Box.fill`.
    ChildCountsAndBoxLiterals,
    /// WrapPanel's spacing attributes are not negative.
    WrapPanelSpacing,
    /// ScrollView has exactly one child, a widget.
    ScrollViewContent,
    /// `focus-group` / `modal-scope` are constant booleans on containers,
    /// and a `dismiss` handler sits beside `modal-scope: true`.
    FocusAnnotations,
    /// `key-down` names a recognised key; no other handler has an argument.
    KeyDownArguments,
}

/// A constant attribute meets the literal placement rule on widget `wt`.
pub open spec fn literal_placement_ok(wt: Seq<char>, p: PropV) -> bool {
    match p.value {
        LiteralV::Ratio { .. } => wt == "Box"@ && p.name == "aspect"@,
        LiteralV::Color(_) => wt == "Box"@ && p.name == "fill"@,
        _ => true,
    }
}

/// A `dismiss` handler.
pub open spec fn is_dismiss(h: HandlerV) -> bool {
    h.signal == "dismiss"@
}

/// `modal-scope: true`.
pub open spec fn sets_modal_scope(p: PropV) -> bool {
    p.name == "modal-scope"@ && p.value == LiteralV::Bool(true)
}

/// A handler meets the `key-down` argument rule.
pub open spec fn handler_argument_ok(h: HandlerV) -> bool {
    if h.signal == "key-down"@ {
        match h.arg {
            Some(k) => recognised_key(k),
            None => false,
        }
    } else {
        h.arg is None
    }
}

/// Node `n` meets `rule` on its own.
pub open spec fn node_rule_ok(n: NodeV, rule: NodeRule) -> bool {
    match rule {
        NodeRule::ChildCountsAndBoxLiterals => {
            &&& !(n.widget_type == "Box"@ && n.children.len() > 1)
            &&& !(layout_childless(n.widget_type) && n.children.len() > 0)
            &&& forall|i: int| 0 <= i < n.props.len() ==> literal_placement_ok(n.widget_type, #[trigger] n.props[i])
        },
        NodeRule::WrapPanelSpacing => n.widget_type == "WrapPanel"@ ==> forall|i: int|
            0 <= i < n.props.len() && is_wrap_attr(#[trigger] n.props[i].name) ==> match n.props[i].value {
                LiteralV::Int(v) => v >= 0,
                _ => true,
            },
        NodeRule::ScrollViewContent => n.widget_type == "ScrollView"@ ==> (n.children.len() == 1 && n.children[0] is Widget),
        NodeRule::FocusAnnotations => {
            &&& forall|i: int|
                0 <= i < n.props.len() && is_focus_annotation(#[trigger] n.props[i].name) ==> focus_annotation_container(
                    n.widget_type,
                ) && n.props[i].value is Bool
            &&& forall|i: int| 0 <= i < n.bindings.len() ==> !is_focus_annotation(#[trigger] n.bindings[i].prop_name)
            &&& (exists|i: int| 0 <= i < n.handlers.len() && is_dismiss(#[trigger] n.handlers[i])) ==> exists|i: int|
                0 <= i < n.props.len() && sets_modal_scope(#[trigger] n.props[i])
        },
        NodeRule::KeyDownArguments => forall|i: int|
            0 <= i < n.handlers.len() ==> handler_argument_ok(#[trigger] n.handlers[i]),
    }
}

/// Every node of the tree under `n` (through widget children, `if`
/// branches and `for` bodies) meets `rule`.
pub open spec fn tree_rule_ok(n: NodeV, rule: NodeRule) -> bool
    decreases n,
{
    &&& node_rule_ok(n, rule)
    &&& forall|i: int| 0 <= i < n.children.len() ==> member_rule_ok(#[trigger] n.children[i], rule)
}

/// Every node under member `m` meets `rule`.
pub open spec fn member_rule_ok(m: MemberV, rule: NodeRule) -> bool
    decreases m,
{
    match m {
        MemberV::Widget(s) => tree_rule_ok(s.node, rule),
        MemberV::ControlFlow(FlowV::If { branches }) => forall|b: int, j: int|
            0 <= b < branches.len() && 0 <= j < branches[b].body.len() ==> member_rule_ok(
                #[trigger] branches[b].body[j],
                rule,
            ),
        MemberV::ControlFlow(FlowV::For { body, .. }) => forall|j: int|
            0 <= j < body.len() ==> member_rule_ok(#[trigger] body[j], rule),
    }
}

// ── Grid ────────────────────────────────────────────────────────────────

/// The most a star track may weigh.
pub open spec fn grid_star_weight_max() -> u32 {
    1024
}

/// A track meets the Grid track rules: a fixed size of at least 1, a star
/// weight from 1 to the maximum.
pub open spec fn track_ok(t: TrackSize) -> bool {
    match t {
        TrackSize::Fixed(v) => v >= 1,
        TrackSize::Star(w) => 1 <= w <= grid_star_weight_max(),
    }
}

/// The rectangle a Grid child occupies, when its placement fits the grid's
/// `rows_len` rows and `columns_len` columns; a child without placement
/// data takes cell (0, 0).
pub open spec fn grid_child_rect(s: SlotV, columns_len: int, rows_len: int) -> Option<GridCellRect> {
    let (row, column, row_span, column_span) = match s.slot_data {
        Some(IrSlotData::Grid { row, column, row_span, column_span, .. }) => (
            row as int,
            column as int,
            row_span as int,
            column_span as int,
        ),
        Some(IrSlotData::ZStack { .. }) => (-1int, -1int, 0int, 0int),
        None => (0int, 0int, 1int, 1int),
    };
    if s.slot_data matches Some(IrSlotData::ZStack { .. }) {
        None
    } else if 0 <= row < rows_len && 0 <= column < columns_len && row_span >= 1 && column_span >= 1 && row
        + row_span <= rows_len && column + column_span <= columns_len {
        Some(GridCellRect { row: row as i64, column: column as i64, row_span: row_span as i64, column_span: column_span as i64 })
    } else {
        None
    }
}

/// A Grid node's own rules: both track lists present, non-empty and
/// valid; every child a placed widget slot (not a stale `Cell` wrapper,
/// not a control-flow member) inside the grid; no two children overlap.
pub open spec fn grid_ok(n: NodeV) -> bool {
    match n.kind_payload {
        Some(PayloadV::Grid { columns, rows }) => {
            &&& columns.len() > 0
            &&& rows.len() > 0
            &&& forall|i: int| 0 <= i < columns.len() ==> track_ok(#[trigger] columns[i])
            &&& forall|i: int| 0 <= i < rows.len() ==> track_ok(#[trigger] rows[i])
            &&& forall|i: int|
                0 <= i < n.children.len() ==> match #[trigger] n.children[i] {
                    MemberV::Widget(s) => s.node.widget_type != "Cell"@ && grid_child_rect(
                        s,
                        columns.len() as int,
                        rows.len() as int,
                    ) is Some,
                    MemberV::ControlFlow(_) => false,
                }
            &&& forall|i: int, j: int|
                0 <= i < j < n.children.len() ==> match (#[trigger] n.children[i], #[trigger] n.children[j]) {
                    (MemberV::Widget(a), MemberV::Widget(b)) => match (
                        grid_child_rect(a, columns.len() as int, rows.len() as int),
                        grid_child_rect(b, columns.len() as int, rows.len() as int),
                    ) {
                        (Some(ra), Some(rb)) => !grid_rects_overlap_spec(ra, rb),
                        _ => true,
                    },
                    _ => true,
                }
        },
        None => false,
    }
}

/// The Grid / Cell rules over a tree: a kind payload only on a Grid, every
/// Grid valid, and no `Cell` reached outside a Grid's direct children.
pub open spec fn grid_tree_ok(n: NodeV) -> bool
    decreases n,
{
    &&& (n.widget_type != "Grid"@ ==> n.kind_payload is None)
    &&& if n.widget_type == "Grid"@ {
        &&& grid_ok(n)
        &&& forall|i: int|
            0 <= i < n.children.len() ==> match #[trigger] n.children[i] {
                MemberV::Widget(s) => grid_tree_ok(s.node),
                _ => true,
            }
    } else if n.widget_type == "Cell"@ {
        false
    } else {
        forall|i: int| 0 <= i < n.children.len() ==> grid_member_ok(#[trigger] n.children[i])
    }
}

/// The Grid / Cell rules under a member.
pub open spec fn grid_member_ok(m: MemberV) -> bool
    decreases m,
{
    match m {
        MemberV::Widget(s) => grid_tree_ok(s.node),
        MemberV::ControlFlow(FlowV::If { branches }) => forall|b: int, j: int|
            0 <= b < branches.len() && 0 <= j < branches[b].body.len() ==> grid_member_ok(#[trigger] branches[b].body[j]),
        MemberV::ControlFlow(FlowV::For { body, .. }) => forall|j: int|
            0 <= j < body.len() ==> grid_member_ok(#[trigger] body[j]),
    }
}

// ── Name resolution ─────────────────────────────────────────────────────

/// The loop-local names a `for` body may read, and its element type.
pub struct LoopScope {
    pub binder: Seq<char>,
    pub index_binder: Option<Seq<char>>,
    pub elem: IrType,
}

/// The scope a `for` member opens: its element type is the one its
/// collection read carries.
pub open spec fn scope_of(binder: Seq<char>, index_binder: Option<Seq<char>>, collection: ExprV) -> LoopScope {
    LoopScope {
        binder,
        index_binder,
        elem: match collection {
            ExprV::ListPropRead { elem, .. } => elem,
            _ => IrType::I32,
        },
    }
}

/// Every name `e` reads or writes resolves: state reads to scalar states,
/// writes to declared states (a collection only through a collection
/// assignment), loop-local reads to the enclosing `for`; collection reads,
/// collection edits and list literals appear nowhere else.
pub open spec fn expr_refs_ok(e: ExprV, states: Seq<StateV>, scope: Option<LoopScope>) -> bool
    decreases e, 0int,
{
    match e {
        ExprV::IntLit(_) | ExprV::StrLit(_) | ExprV::BoolLit(_) => true,
        ExprV::ItemRead { binder } => scope matches Some(sc) && binder == sc.binder,
        ExprV::IndexRead { binder } => scope matches Some(sc) && sc.index_binder == Some(binder),
        ExprV::PropRead { path } | ExprV::StrPropRead { path } | ExprV::BoolPropRead { path } => lookup(
            states,
            path,
        ) matches Some(IrStateType::Scalar(_)),
        ExprV::ListPropRead { .. } => false,
        ExprV::Assign { lhs, rhs } => match lookup(states, lhs) {
            Some(IrStateType::Scalar(_)) => expr_refs_ok(*rhs, states, scope),
            Some(IrStateType::Collection(elem)) => collection_rhs_ok(lhs, elem, *rhs, states),
            None => false,
        },
        ExprV::CompoundAssign { lhs, rhs, .. } => match lookup(states, lhs) {
            Some(IrStateType::Scalar(_)) => expr_refs_ok(*rhs, states, scope),
            _ => false,
        },
        ExprV::ListAppend { .. } | ExprV::ListDropLast { .. } | ExprV::ListLit(_) => false,
        ExprV::Interpolation(parts) => forall|i: int|
            0 <= i < parts.len() ==> match #[trigger] parts[i] {
                PartV::Expr(inner) => expr_refs_ok(inner, states, scope),
                PartV::Literal(_) => true,
            },
        ExprV::Block(es) => forall|i: int| 0 <= i < es.len() ==> expr_refs_ok(#[trigger] es[i], states, scope),
    }
}

/// The right-hand side of an assignment to collection state `lhs` of
/// element type `elem`: an append to or a drop from `lhs` itself, or a
/// list literal of `elem` scalars.
pub open spec fn collection_rhs_ok(lhs: Seq<char>, elem: IrType, rhs: ExprV, states: Seq<StateV>) -> bool
    decreases rhs, 2int,
{
    match rhs {
        ExprV::ListAppend { path, elem: re, value } => path == lhs && re == elem && collection_element_ok(
            elem,
            *value,
            states,
        ),
        ExprV::ListDropLast { path, elem: re } => path == lhs && re == elem,
        ExprV::ListLit(items) => forall|i: int| 0 <= i < items.len() ==> literal_has_type(elem, #[trigger] items[i]),
        _ => false,
    }
}

/// An appended value of element type `elem`: a literal of it, a read of a
/// scalar state of it, or (for strings) an interpolation over resolved
/// names.
pub open spec fn collection_element_ok(elem: IrType, value: ExprV, states: Seq<StateV>) -> bool
    decreases value, 1int,
{
    match (elem, value) {
        (IrType::I32, ExprV::IntLit(_)) | (IrType::Str, ExprV::StrLit(_)) | (IrType::Bool, ExprV::BoolLit(_)) => true,
        (_, ExprV::PropRead { path }) | (_, ExprV::StrPropRead { path }) | (_, ExprV::BoolPropRead { path }) => lookup(
            states,
            path,
        ) == Some(IrStateType::Scalar(elem)),
        (IrType::Str, ExprV::Interpolation(_)) => expr_refs_ok(value, states, None),
        (_, ExprV::ItemRead { .. }) | (_, ExprV::IndexRead { .. }) => expr_refs_ok(value, states, None),
        _ => false,
    }
}

/// Loop-local reads in a binding fit the attribute type `target`: the item
/// by the collection's element type (no bool shown as text), the index
/// never as a bool.
pub open spec fn loop_local_ok(e: ExprV, target: IrType, scope: LoopScope) -> bool
    decreases e,
{
    match e {
        ExprV::ItemRead { binder } => binder == scope.binder ==> match (target, scope.elem) {
            (IrType::I32, IrType::I32) | (IrType::Str, IrType::I32) | (IrType::Str, IrType::Str) | (
                IrType::Bool,
                IrType::Bool,
            ) => true,
            _ => false,
        },
        ExprV::IndexRead { binder } => scope.index_binder == Some(binder) ==> target != IrType::Bool,
        ExprV::Interpolation(parts) => forall|i: int|
            0 <= i < parts.len() ==> match #[trigger] parts[i] {
                PartV::Expr(inner) => loop_local_ok(inner, IrType::Str, scope),
                PartV::Literal(_) => true,
            },
        ExprV::Block(es) => forall|i: int| 0 <= i < es.len() ==> loop_local_ok(#[trigger] es[i], target, scope),
        ExprV::Assign { rhs, .. } | ExprV::CompoundAssign { rhs, .. } => loop_local_ok(*rhs, target, scope),
        ExprV::ListAppend { value, .. } => loop_local_ok(*value, target, scope),
        _ => true,
    }
}

/// An `if` condition: a bool literal or a read of a bool scalar state.
pub open spec fn condition_ok(e: ExprV, states: Seq<StateV>) -> bool {
    match e {
        ExprV::BoolLit(_) => true,
        ExprV::BoolPropRead { path } => lookup(states, path) == Some(IrStateType::Scalar(IrType::Bool)),
        _ => false,
    }
}

/// A `for` header: non-empty binders that differ from each other and from
/// every state, over a read of a collection state of the element type the
/// read carries.
pub open spec fn for_header_ok(
    binder: Seq<char>,
    index_binder: Option<Seq<char>>,
    collection: ExprV,
    states: Seq<StateV>,
) -> bool {
    &&& binder.len() > 0
    &&& lookup(states, binder) is None
    &&& match index_binder {
        Some(ib) => ib.len() > 0 && ib != binder && lookup(states, ib) is None,
        None => true,
    }
    &&& match collection {
        ExprV::ListPropRead { path, elem } => lookup(states, path) == Some(IrStateType::Collection(elem)),
        _ => false,
    }
}

/// A binding's names resolve, and inside a `for` its loop-local reads fit
/// the attribute's type.
pub open spec fn binding_refs_ok(wt: Seq<char>, b: BindingV, states: Seq<StateV>, scope: Option<LoopScope>) -> bool {
    &&& (scope matches Some(sc) ==> (prop_type(wt, b.prop_name) matches Some(ty) ==> loop_local_ok(b.expr, ty, sc)))
    &&& expr_refs_ok(b.expr, states, scope)
}

/// A handler's names resolve (handlers see no loop-local name).
pub open spec fn handler_refs_ok(h: HandlerV, states: Seq<StateV>) -> bool {
    expr_refs_ok(h.expr, states, None)
}

/// Name resolution over the tree under `n`, inside `scope` (the enclosing
/// `for`, if any; `inside` when within a `for` template, where handlers and
/// nested `for`s are not admitted).
pub open spec fn refs_tree(n: NodeV, states: Seq<StateV>, scope: Option<LoopScope>, inside: bool) -> bool
    decreases n,
{
    &&& forall|i: int| 0 <= i < n.bindings.len() ==> binding_refs_ok(n.widget_type, #[trigger] n.bindings[i], states, scope)
    &&& (inside ==> n.handlers.len() == 0)
    &&& forall|i: int| 0 <= i < n.handlers.len() ==> handler_refs_ok(#[trigger] n.handlers[i], states)
    &&& forall|i: int| 0 <= i < n.children.len() ==> refs_member(#[trigger] n.children[i], states, scope, inside)
}

/// Name resolution under member `m`.
pub open spec fn refs_member(m: MemberV, states: Seq<StateV>, scope: Option<LoopScope>, inside: bool) -> bool
    decreases m,
{
    match m {
        MemberV::Widget(s) => refs_tree(s.node, states, scope, inside),
        MemberV::ControlFlow(FlowV::If { branches }) => {
            &&& forall|b: int| 0 <= b < branches.len() ==> condition_ok(#[trigger] branches[b].condition, states)
            &&& forall|b: int, j: int|
                0 <= b < branches.len() && 0 <= j < branches[b].body.len() ==> refs_member(
                    #[trigger] branches[b].body[j],
                    states,
                    scope,
                    inside,
                )
        },
        MemberV::ControlFlow(FlowV::For { binder, index_binder, collection, body }) => {
            &&& for_header_ok(binder, index_binder, collection, states)
            &&& !inside
            &&& forall|j: int|
                0 <= j < body.len() ==> refs_member(
                    #[trigger] body[j],
                    states,
                    Some(scope_of(binder, index_binder, collection)),
                    true,
                )
        },
    }
}

// ── Control flow and iteration ──────────────────────────────────────────

/// Every `if` has one branch whose body is one widget, every `for` body is
/// one widget, and no control-flow member sits directly in either.
pub open spec fn control_flow_tree(n: NodeV) -> bool
    decreases n,
{
    forall|i: int|
        0 <= i < n.children.len() ==> match #[trigger] n.children[i] {
            MemberV::Widget(s) => control_flow_tree(s.node),
            MemberV::ControlFlow(FlowV::If { branches }) => branches.len() == 1 && branches[0].body.len() == 1
                && match branches[0].body[0] {
                MemberV::Widget(s) => control_flow_tree(s.node),
                MemberV::ControlFlow(_) => false,
            },
            MemberV::ControlFlow(FlowV::For { body, .. }) => body.len() == 1 && match body[0] {
                MemberV::Widget(s) => control_flow_tree(s.node),
                MemberV::ControlFlow(_) => false,
            },
        }
}

/// The kind of container a member sits in.
#[derive(Clone, Copy, PartialEq, Eq, Debug, Structural)]
pub enum ParentKind {
    Root,
    Grid,
    Cell,
    ZStack,
    Other,
}

/// The container kind of widget type `wt`.
pub open spec fn parent_kind(wt: Seq<char>) -> ParentKind {
    if wt == "Grid"@ {
        ParentKind::Grid
    } else if wt == "Cell"@ {
        ParentKind::Cell
    } else if wt == "ZStack"@ {
        ParentKind::ZStack
    } else {
        ParentKind::Other
    }
}

/// A container that may hold a `for` member directly.
pub open spec fn direct_for_parent_ok(wt: Seq<char>) -> bool {
    !(wt == "ScrollView"@ || wt == "Box"@ || wt == "Grid"@ || wt == "Cell"@)
}

/// The iteration rules under `n` (`inside`: within a `for` template): no
/// handler in a template, no nested `for`, no `for` directly in a
/// ScrollView, Box, Grid or Cell, and each `for` body one widget.
pub open spec fn iteration_tree(n: NodeV, inside: bool) -> bool
    decreases n,
{
    &&& !(inside && n.handlers.len() > 0)
    &&& forall|i: int|
        0 <= i < n.children.len() ==> match #[trigger] n.children[i] {
            MemberV::Widget(s) => iteration_tree(s.node, inside),
            MemberV::ControlFlow(FlowV::If { branches }) => forall|b: int, j: int|
                0 <= b < branches.len() && 0 <= j < branches[b].body.len() ==> iteration_member(
                    #[trigger] branches[b].body[j],
                    parent_kind(n.widget_type),
                    inside,
                ),
            MemberV::ControlFlow(FlowV::For { body, .. }) => direct_for_parent_ok(n.widget_type) && !inside
                && body.len() == 1 && match body[0] {
                MemberV::Widget(s) => iteration_tree(s.node, true),
                MemberV::ControlFlow(_) => false,
            },
        }
}

/// The iteration rules under a member of an `if` body inside a `parent`
/// container.
pub open spec fn iteration_member(m: MemberV, parent: ParentKind, inside: bool) -> bool
    decreases m,
{
    match m {
        MemberV::Widget(s) => iteration_tree(s.node, inside),
        MemberV::ControlFlow(FlowV::If { branches }) => forall|b: int, j: int|
            0 <= b < branches.len() && 0 <= j < branches[b].body.len() ==> iteration_member(
                #[trigger] branches[b].body[j],
                parent,
                inside,
            ),
        MemberV::ControlFlow(FlowV::For { body, .. }) => !inside && !(parent == ParentKind::Grid || parent
            == ParentKind::Cell) && body.len() == 1 && match body[0] {
            MemberV::Widget(s) => iteration_tree(s.node, true),
            MemberV::ControlFlow(_) => false,
        },
    }
}

// ── ZStack and placement data ───────────────────────────────────────────

/// Placement data fits the container a child sits in: grid data under a
/// Grid, ZStack data under a ZStack, none elsewhere.
pub open spec fn slot_parent_ok(parent: ParentKind, data: Option<IrSlotData>) -> bool {
    match data {
        None => true,
        Some(IrSlotData::Grid { .. }) => parent == ParentKind::Grid,
        Some(IrSlotData::ZStack { .. }) => parent == ParentKind::ZStack,
    }
}

/// The ZStack rules under `n`, a child of a `parent` container: a ZStack
/// has no kind payload, no binding and no attribute but the focus
/// annotations (and, as a ZStack's child, placement attributes); bare
/// placement attributes are stale anywhere; placement data fits its parent.
pub open spec fn zstack_tree(n: NodeV, parent: ParentKind) -> bool
    decreases n,
{
    &&& n.widget_type == "ZStack"@ ==> {
        &&& n.kind_payload is None
        &&& forall|i: int|
            0 <= i < n.props.len() ==> ((parent == ParentKind::ZStack && is_placement_attr(
                #[trigger] n.props[i].name,
            )) || is_focus_annotation(n.props[i].name))
        &&& n.bindings.len() == 0
    }
    &&& forall|i: int| 0 <= i < n.props.len() ==> !is_placement_attr(#[trigger] n.props[i].name)
    &&& forall|i: int| 0 <= i < n.children.len() ==> zstack_member(#[trigger] n.children[i], parent_kind(n.widget_type))
}

/// The ZStack rules under a member of a `parent` container.
pub open spec fn zstack_member(m: MemberV, parent: ParentKind) -> bool
    decreases m,
{
    match m {
        MemberV::Widget(s) => slot_parent_ok(parent, s.slot_data) && zstack_tree(s.node, parent),
        MemberV::ControlFlow(FlowV::If { branches }) => forall|b: int, j: int|
            0 <= b < branches.len() && 0 <= j < branches[b].body.len() ==> zstack_member(
                #[trigger] branches[b].body[j],
                parent,
            ),
        MemberV::ControlFlow(FlowV::For { body, .. }) => forall|j: int|
            0 <= j < body.len() ==> zstack_member(#[trigger] body[j], parent),
    }
}

// ── ToggleButton ────────────────────────────────────────────────────────

/// A binding of attribute type `expected`: a literal of it, a read of a
/// scalar state of it, a string interpolation over resolved names, or a
/// loop-local read that fits.
pub open spec fn scalar_binding_ok(e: ExprV, expected: IrType, states: Seq<StateV>, scope: Option<LoopScope>) -> bool {
    match (expected, e) {
        (IrType::I32, ExprV::IntLit(_)) | (IrType::Str, ExprV::StrLit(_)) | (IrType::Bool, ExprV::BoolLit(_)) => true,
        (IrType::I32, ExprV::PropRead { path }) | (IrType::Str, ExprV::StrPropRead { path }) | (
            IrType::Bool,
            ExprV::BoolPropRead { path },
        ) => lookup(states, path) == Some(IrStateType::Scalar(expected)),
        (IrType::Str, ExprV::Interpolation(_)) => expr_refs_ok(e, states, scope),
        (_, ExprV::ItemRead { .. }) | (_, ExprV::IndexRead { .. }) => match scope {
            Some(sc) => loop_local_ok(e, expected, sc),
            None => false,
        },
        _ => false,
    }
}

/// A ToggleButton attribute: `text` a string, `style` a keyword, `enabled`
/// and `checked` booleans; nothing else.
pub open spec fn toggle_prop_ok(p: PropV) -> bool {
    if p.name == "text"@ {
        literal_has_type(IrType::Str, p.value)
    } else if p.name == "style"@ {
        p.value is Ident
    } else if p.name == "enabled"@ || p.name == "checked"@ {
        literal_has_type(IrType::Bool, p.value)
    } else {
        false
    }
}

/// A ToggleButton binding: not of `style`, of a bindable attribute, typed
/// as that attribute.
pub open spec fn toggle_binding_ok(b: BindingV, states: Seq<StateV>, scope: Option<LoopScope>) -> bool {
    b.prop_name != "style"@ && match prop_type("ToggleButton"@, b.prop_name) {
        Some(ty) => scalar_binding_ok(b.expr, ty, states, scope),
        None => false,
    }
}

/// The ToggleButton rules under `n`: its attributes and bindings typed as
/// above (`style` not bindable), and `checked` on no other widget.
pub open spec fn toggle_tree(n: NodeV, states: Seq<StateV>, scope: Option<LoopScope>) -> bool
    decreases n,
{
    &&& if n.widget_type == "ToggleButton"@ {
        &&& forall|i: int| 0 <= i < n.props.len() ==> toggle_prop_ok(#[trigger] n.props[i])
        &&& forall|i: int| 0 <= i < n.bindings.len() ==> toggle_binding_ok(#[trigger] n.bindings[i], states, scope)
    } else {
        &&& forall|i: int| 0 <= i < n.props.len() ==> (#[trigger] n.props[i]).name != "checked"@
        &&& forall|i: int| 0 <= i < n.bindings.len() ==> (#[trigger] n.bindings[i]).prop_name != "checked"@
    }
    &&& forall|i: int| 0 <= i < n.children.len() ==> toggle_member(#[trigger] n.children[i], states, scope)
}

/// The ToggleButton rules under a member.
pub open spec fn toggle_member(m: MemberV, states: Seq<StateV>, scope: Option<LoopScope>) -> bool
    decreases m,
{
    match m {
        MemberV::Widget(s) => toggle_tree(s.node, states, scope),
        MemberV::ControlFlow(FlowV::If { branches }) => forall|b: int, j: int|
            0 <= b < branches.len() && 0 <= j < branches[b].body.len() ==> toggle_member(
                #[trigger] branches[b].body[j],
                states,
                scope,
            ),
        MemberV::ControlFlow(FlowV::For { binder, index_binder, collection, body }) => forall|j: int|
            0 <= j < body.len() ==> toggle_member(
                #[trigger] body[j],
                states,
                Some(scope_of(binder, index_binder, collection)),
            ),
    }
}

// ── The whole component ─────────────────────────────────────────────────

/// Every rule a component must meet.
pub open spec fn component_valid(c: ComponentV) -> bool {
    &&& states_ok(c.states)
    &&& host_surface_ok(c)
    &&& refs_tree(c.root, c.states, None, false)
    &&& tree_rule_ok(c.root, NodeRule::ChildCountsAndBoxLiterals)
    &&& tree_rule_ok(c.root, NodeRule::FocusAnnotations)
    &&& tree_rule_ok(c.root, NodeRule::KeyDownArguments)
    &&& tree_rule_ok(c.root, NodeRule::WrapPanelSpacing)
    &&& tree_rule_ok(c.root, NodeRule::ScrollViewContent)
    &&& grid_tree_ok(c.root)
    &&& zstack_tree(c.root, ParentKind::Root)
    &&& control_flow_tree(c.root)
    &&& iteration_tree(c.root, false)
    &&& toggle_tree(c.root, c.states, None)
}

// ── Collection element types ────────────────────────────────────────────

/// The element type a collection expression over `path` carries once
/// annotated: the declared one for a collection state, `elem` otherwise.
pub open spec fn collection_elem(states: Seq<StateV>, path: Seq<char>, elem: IrType) -> IrType {
    match lookup(states, path) {
        Some(IrStateType::Collection(found)) => found,
        _ => elem,
    }
}

/// `e` with every collection read, append and drop annotated.
pub open spec fn annotate_expr(e: ExprV, states: Seq<StateV>) -> ExprV
    decreases e,
{
    match e {
        ExprV::ListPropRead { path, elem } => ExprV::ListPropRead { path, elem: collection_elem(states, path, elem) },
        ExprV::ListAppend { path, elem, value } => ExprV::ListAppend {
            path,
            elem: collection_elem(states, path, elem),
            value: Box::new(annotate_expr(*value, states)),
        },
        ExprV::ListDropLast { path, elem } => ExprV::ListDropLast { path, elem: collection_elem(states, path, elem) },
        ExprV::Assign { lhs, rhs } => ExprV::Assign { lhs, rhs: Box::new(annotate_expr(*rhs, states)) },
        ExprV::CompoundAssign { lhs, op, rhs } => ExprV::CompoundAssign {
            lhs,
            op,
            rhs: Box::new(annotate_expr(*rhs, states)),
        },
        ExprV::Interpolation(parts) => ExprV::Interpolation(
            Seq::new(
                parts.len(),
                |i: int|
                    if 0 <= i < parts.len() {
                        match parts[i] {
                            PartV::Expr(inner) => PartV::Expr(annotate_expr(inner, states)),
                            PartV::Literal(l) => PartV::Literal(l),
                        }
                    } else {
                        PartV::Literal(Seq::empty())
                    },
            ),
        ),
        ExprV::Block(es) => ExprV::Block(
            Seq::new(
                es.len(),
                |i: int|
                    if 0 <= i < es.len() {
                        annotate_expr(es[i], states)
                    } else {
                        ExprV::IntLit(0)
                    },
            ),
        ),
        _ => e,
    }
}

/// A binding with its expression annotated.
pub open spec fn annotate_binding(b: BindingV, states: Seq<StateV>) -> BindingV {
    BindingV { prop_name: b.prop_name, expr: annotate_expr(b.expr, states) }
}

/// A handler with its expression annotated.
pub open spec fn annotate_handler(h: HandlerV, states: Seq<StateV>) -> HandlerV {
    HandlerV { signal: h.signal, arg: h.arg, expr: annotate_expr(h.expr, states) }
}

/// The tree under `n` with every expression in its bindings, handlers,
/// `if` conditions and `for` headers annotated.
pub open spec fn annotate_node(n: NodeV, states: Seq<StateV>) -> NodeV
    decreases n,
{
    NodeV {
        bindings: n.bindings.map_values(|b: BindingV| annotate_binding(b, states)),
        handlers: n.handlers.map_values(|h: HandlerV| annotate_handler(h, states)),
        children: annotate_members(n.children, states),
        ..n
    }
}

/// Members with their expressions annotated, in order.
pub open spec fn annotate_members(s: Seq<MemberV>, states: Seq<StateV>) -> Seq<MemberV>
    decreases s,
{
    Seq::new(
        s.len(),
        |j: int|
            if 0 <= j < s.len() {
                annotate_member(s[j], states)
            } else {
                s[j]
            },
    )
}

/// An `if` branch with its condition and body annotated.
pub open spec fn annotate_branch(b: crate::ir_view::BranchV, states: Seq<StateV>) -> crate::ir_view::BranchV
    decreases b,
{
    crate::ir_view::BranchV { condition: annotate_expr(b.condition, states), body: annotate_members(b.body, states) }
}

/// A member with its expressions annotated.
pub open spec fn annotate_member(m: MemberV, states: Seq<StateV>) -> MemberV
    decreases m,
{
    match m {
        MemberV::Widget(s) => MemberV::Widget(SlotV { node: annotate_node(s.node, states), slot_data: s.slot_data }),
        MemberV::ControlFlow(FlowV::If { branches }) => MemberV::ControlFlow(
            FlowV::If {
                branches: Seq::new(
                    branches.len(),
                    |b: int|
                        if 0 <= b < branches.len() {
                            annotate_branch(branches[b], states)
                        } else {
                            branches[b]
                        },
                ),
            },
        ),
        MemberV::ControlFlow(FlowV::For { binder, index_binder, collection, body }) => MemberV::ControlFlow(
            FlowV::For {
                binder,
                index_binder,
                collection: annotate_expr(collection, states),
                body: annotate_members(body, states),
            },
        ),
    }
}

/// A component with the expressions of its content tree annotated (its
/// host bindings are left as they are).
pub open spec fn annotate_component(c: ComponentV) -> ComponentV {
    ComponentV { root: annotate_node(c.root, c.states), ..c }
}

} // verus!
