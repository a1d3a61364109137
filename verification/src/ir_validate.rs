//! The checks of [`crate::ir_rules`], computed over the in-memory IR. Each
//! returns `Ok` exactly when its rule holds, and a `Validate` error naming
//! the first violation otherwise.
use crate::ir::{
    ControlFlowNode, HandlerExpr, InterpolationPart, IrChildSlot, IrComponent, IrLiteral, IrMember, IrNode,
    IrSlotData, IrState, IrStateType, IrType, KindPayload, TrackSize,
};
use crate::ir_loader::{grid_rects_overlap, GridCellRect, IrLoadError};
use crate::ir_rules::{
    focus_annotation_container, handler_argument_ok, host_prop_ok, host_surface_ok, is_focus_annotation,
    is_host_attr, is_wrap_attr, layout_childless, literal_has_type, literal_placement_ok, lookup, lookup_from,
    member_rule_ok, node_rule_ok, recognised_key, is_dismiss, sets_modal_scope, grid_child_rect, grid_ok, track_ok,
    grid_tree_ok, grid_member_ok, ParentKind, parent_kind, slot_parent_ok, zstack_tree, zstack_member,
    is_placement_attr, control_flow_tree, direct_for_parent_ok, iteration_tree, iteration_member, LoopScope,
    PropertyKey, prop_key, prop_type, expr_refs_ok, collection_rhs_ok, collection_element_ok, loop_local_ok,
    condition_ok, for_header_ok, scope_of, refs_tree, refs_member, scalar_binding_ok, toggle_prop_ok, toggle_tree,
    toggle_member, binding_refs_ok, handler_refs_ok, toggle_binding_ok, annotate_expr, annotate_node,
    annotate_member, annotate_component, collection_elem, component_valid, annotate_members, annotate_branch,
    annotate_binding, annotate_handler, state_default_ok, states_ok, tree_rule_ok, NodeRule,
};
use crate::ir_view::{
    binding_view, branch_view, component_view, expr_view, handler_view, lemma_branches_view_index,
    lemma_exprs_view_index, lemma_lits_view_index, lemma_members_view_index, lemma_parts_view_index, lit_view,
    member_view, node_view, part_view, prop_view, slot_view, state_view, states_view, ExprV, LiteralV, MemberV,
};
use crate::text::str_eq;
use vstd::prelude::*;

verus! {

broadcast use vstd::string::group_string_axioms;

/// `r` is `Ok` exactly when `ok`, and a validation error otherwise.
pub open spec fn verdict(r: Result<(), IrLoadError>, ok: bool) -> bool {
    &&& (r is Ok <==> ok)
    &&& (r matches Err(e) ==> e is Validate)
}

fn verr(m: &str) -> (e: IrLoadError)
    ensures
        e is Validate,
        e matches IrLoadError::Validate(t) && t@ == m@,
{
    IrLoadError::Validate(String::from_str(m))
}

fn verr3(a: &str, b: &str, c: &str) -> (e: IrLoadError)
    ensures
        e is Validate,
        e matches IrLoadError::Validate(t) && t@ == a@ + b@ + c@,
{
    let mut m = String::from_str(a);
    m.append(b);
    m.append(c);
    IrLoadError::Validate(m)
}

fn verr5(a: &str, b: &str, c: &str, d: &str, f: &str) -> (e: IrLoadError)
    ensures
        e is Validate,
        e matches IrLoadError::Validate(t) && t@ == a@ + b@ + c@ + d@ + f@,
{
    let mut m = String::from_str(a);
    m.append(b);
    m.append(c);
    m.append(d);
    m.append(f);
    IrLoadError::Validate(m)
}

/// The pieces of `parts`, one after the other.
pub open spec fn joined(parts: Seq<&str>) -> Seq<char>
    decreases parts.len(),
{
    if parts.len() == 0 {
        Seq::empty()
    } else {
        joined(parts.drop_last()) + parts.last()@
    }
}

fn verr_of(parts: &[&str]) -> (e: IrLoadError)
    ensures
        e is Validate,
        e matches IrLoadError::Validate(t) && t@ == joined(parts@),
{
    let mut m = String::new();
    let mut i: usize = 0;
    while i < parts.len()
        invariant
            i <= parts@.len(),
            m@ == joined(parts@.subrange(0, i as int)),
        decreases parts.len() - i,
    {
        m.append(parts[i]);
        i += 1;
        assert(parts@.subrange(0, i as int).drop_last() =~= parts@.subrange(0, i - 1));
    }
    assert(parts@.subrange(0, parts@.len() as int) =~= parts@);
    IrLoadError::Validate(m)
}

/// The index of the first attribute named `name` at or after `i`, or the
/// length.
pub open spec fn first_named(props: Seq<crate::ir_view::PropV>, name: Seq<char>, i: int) -> int
    decreases props.len() - i,
{
    if i >= props.len() {
        props.len() as int
    } else if i >= 0 && props[i].name == name {
        i
    } else {
        first_named(props, name, i + 1)
    }
}

/// A state type as `{:?}` writes it.
pub open spec fn state_type_debug_text(t: IrStateType) -> Seq<char> {
    match t {
        IrStateType::Scalar(IrType::I32) => "Scalar(I32)"@,
        IrStateType::Scalar(IrType::Str) => "Scalar(Str)"@,
        IrStateType::Scalar(IrType::Bool) => "Scalar(Bool)"@,
        IrStateType::Collection(IrType::I32) => "Collection(I32)"@,
        IrStateType::Collection(IrType::Str) => "Collection(Str)"@,
        IrStateType::Collection(IrType::Bool) => "Collection(Bool)"@,
    }
}

/// A state type as `{:?}` writes it.
fn state_type_debug(t: IrStateType) -> (r: &'static str)
    ensures
        r@ == state_type_debug_text(t),
{
    match t {
        IrStateType::Scalar(IrType::I32) => "Scalar(I32)",
        IrStateType::Scalar(IrType::Str) => "Scalar(Str)",
        IrStateType::Scalar(IrType::Bool) => "Scalar(Bool)",
        IrStateType::Collection(IrType::I32) => "Collection(I32)",
        IrStateType::Collection(IrType::Str) => "Collection(Str)",
        IrStateType::Collection(IrType::Bool) => "Collection(Bool)",
    }
}

/// The name of a scalar type as the IR writes it.
pub open spec fn scalar_type_text(t: IrType) -> Seq<char> {
    match t {
        IrType::I32 => "i32"@,
        IrType::Str => "string"@,
        IrType::Bool => "bool"@,
    }
}

/// The name of a scalar type as the IR writes it.
fn scalar_type_name(t: IrType) -> (r: &'static str)
    ensures
        r@ == scalar_type_text(t),
{
    match t {
        IrType::I32 => "i32",
        IrType::Str => "string",
        IrType::Bool => "bool",
    }
}

// ── States ──────────────────────────────────────────────────────────────

/// The declared type of the first state named `name`.
pub fn lookup_state(states: &Vec<IrState>, name: &str) -> (r: Option<IrStateType>)
    ensures
        r == lookup(states_view(states@), name@),
{
    let ghost sv = states_view(states@);
    let mut i: usize = 0;
    while i < states.len()
        invariant
            i <= states@.len(),
            sv == states_view(states@),
            lookup(sv, name@) == lookup_from(sv, name@, i as int),
        decreases states@.len() - i,
    {
        if str_eq(states[i].name.as_str(), name) {
            return Some(states[i].ty);
        }
        i += 1;
    }
    None
}

/// The first item from the `i`-th on that is not a literal of type `elem`.
pub open spec fn first_untyped(elem: IrType, items: Seq<LiteralV>, i: int) -> Option<int>
    decreases items.len() - i,
{
    if i < 0 || i >= items.len() {
        None
    } else if !literal_has_type(elem, items[i]) {
        Some(i)
    } else {
        first_untyped(elem, items, i + 1)
    }
}

/// What is wrong with a list item that is not of type `elem`.
pub open spec fn item_type_message(elem: IrType, item: LiteralV) -> Seq<char> {
    match item {
        LiteralV::List(_) => "cannot contain a nested list literal"@,
        _ => "element must match `"@ + scalar_type_text(elem) + "`"@,
    }
}

/// The message for a state whose default does not match its type.
pub open spec fn state_default_message(st: crate::ir_view::StateV) -> Seq<char> {
    match (st.ty, st.default) {
        (IrStateType::Scalar(_), LiteralV::List(_)) => "scalar state `"@ + st.name + "` cannot use a list literal default"@,
        (IrStateType::Scalar(_), _) => "state `"@ + st.name + "` default does not match declared type"@,
        (IrStateType::Collection(elem), LiteralV::List(items)) => "collection state `"@ + st.name + "` default "@ + (
        match first_untyped(elem, items, 0) {
            Some(i) => item_type_message(elem, items[i]),
            None => Seq::empty(),
        }) + ""@,
        (IrStateType::Collection(_), _) => "collection state `"@ + st.name + "` default must be a list literal"@,
    }
}

/// The message of the first state, from the `i`-th on, that repeats an
/// earlier name or whose default does not match its type.
pub open spec fn states_failure(sv: Seq<crate::ir_view::StateV>, i: int) -> Option<Seq<char>>
    decreases sv.len() - i,
{
    if i < 0 || i >= sv.len() {
        None
    } else if exists|j: int| 0 <= j < i && #[trigger] sv[j].name == sv[i].name {
        Some("duplicate `state` name: `"@ + sv[i].name + "`"@)
    } else if !state_default_ok(sv[i]) {
        Some(state_default_message(sv[i]))
    } else {
        states_failure(sv, i + 1)
    }
}

/// The first host attribute, from the `i`-th on, that breaks the host rules.
pub open spec fn first_bad_host_prop(ps: Seq<crate::ir_view::PropV>, i: int) -> Option<int>
    decreases ps.len() - i,
{
    if i < 0 || i >= ps.len() {
        None
    } else if !host_prop_ok(ps[i]) {
        Some(i)
    } else {
        first_bad_host_prop(ps, i + 1)
    }
}

/// The first content-root attribute, from the `i`-th on, named like a host one.
pub open spec fn first_host_named_prop(ps: Seq<crate::ir_view::PropV>, i: int) -> Option<int>
    decreases ps.len() - i,
{
    if i < 0 || i >= ps.len() {
        None
    } else if is_host_attr(ps[i].name) {
        Some(i)
    } else {
        first_host_named_prop(ps, i + 1)
    }
}

/// The first content-root binding, from the `i`-th on, of a host attribute.
pub open spec fn first_host_named_binding(bs: Seq<crate::ir_view::BindingV>, i: int) -> Option<int>
    decreases bs.len() - i,
{
    if i < 0 || i >= bs.len() {
        None
    } else if is_host_attr(bs[i].prop_name) {
        Some(i)
    } else {
        first_host_named_binding(bs, i + 1)
    }
}

/// What is wrong with a host attribute that breaks the host rules.
pub open spec fn host_prop_message(p: crate::ir_view::PropV) -> Seq<char> {
    if p.name == "title"@ {
        "host `title` prop must be a string literal"@
    } else if p.name == "backdrop"@ || p.name == "theme"@ {
        "host `"@ + p.name + "` prop must be a keyword identifier, not a typed literal"@
    } else {
        "unknown host attribute `"@ + p.name + "`; M3-Phase 6 host attributes are: title, backdrop, theme"@
    }
}

/// The message of the first host-surface rule a component breaks, checked
/// in order: host attributes, host bindings, then host attributes on the
/// content root.
pub open spec fn host_failure(c: crate::ir_view::ComponentV) -> Option<Seq<char>> {
    match first_bad_host_prop(c.host_props, 0) {
        Some(i) => Some(host_prop_message(c.host_props[i])),
        None => if c.host_bindings.len() > 0 {
            Some("host attribute `"@ + c.host_bindings[0].prop_name + "` is not bindable in M3-Phase 6"@)
        } else {
            match first_host_named_prop(c.root.props, 0) {
                Some(j) => Some(
                    "host attribute `"@ + c.root.props[j].name + "` must live on `host_props`, not on the content root"@,
                ),
                None => match first_host_named_binding(c.root.bindings, 0) {
                    Some(k) => Some(
                        "host attribute `"@ + c.root.bindings[k].prop_name
                            + "` must live on `host_bindings`, not on the content root"@,
                    ),
                    None => None,
                },
            }
        },
    }
}

/// Whether literal `l` has scalar type `elem`.
fn literal_has_type_exec(elem: IrType, l: &IrLiteral) -> (b: bool)
    ensures
        b == literal_has_type(elem, lit_view(*l)),
{
    match (elem, l) {
        (IrType::I32, IrLiteral::Int(_)) | (IrType::Str, IrLiteral::Str(_)) | (IrType::Bool, IrLiteral::Bool(_)) => true,
        _ => false,
    }
}

/// A list literal's items all have scalar type `elem`.
fn list_items_have_type(elem: IrType, items: &Vec<IrLiteral>) -> (r: Result<(), IrLoadError>)
    ensures
        verdict(
            r,
            forall|i: int|
                0 <= i < crate::ir_view::lits_view(items@).len() ==> literal_has_type(
                    elem,
                    #[trigger] crate::ir_view::lits_view(items@)[i],
                ),
        ),
        r is Err ==> (first_untyped(elem, crate::ir_view::lits_view(items@), 0) matches Some(i) && r matches Err(
            IrLoadError::Validate(t),
        ) && t@ == item_type_message(elem, crate::ir_view::lits_view(items@)[i])),
{
    proof {
        lemma_lits_view_index(items@);
    }
    let mut i: usize = 0;
    while i < items.len()
        invariant
            i <= items@.len(),
            crate::ir_view::lits_view(items@).len() == items@.len(),
            forall|k: int| 0 <= k < items@.len() ==> #[trigger] crate::ir_view::lits_view(items@)[k] == lit_view(items@[k]),
            forall|k: int| 0 <= k < i ==> literal_has_type(elem, #[trigger] crate::ir_view::lits_view(items@)[k]),
            first_untyped(elem, crate::ir_view::lits_view(items@), 0) == first_untyped(
                elem,
                crate::ir_view::lits_view(items@),
                i as int,
            ),
        decreases items@.len() - i,
    {
        if !literal_has_type_exec(elem, &items[i]) {
            assert(!literal_has_type(elem, crate::ir_view::lits_view(items@)[i as int]));
            return match &items[i] {
                IrLiteral::List(_) => Err(verr("cannot contain a nested list literal")),
                _ => Err(verr3("element must match `", scalar_type_name(elem), "`")),
            };
        }
        i += 1;
    }
    Ok(())
}

/// A state's default matches its declared type.
pub fn validate_state_default(st: &IrState) -> (r: Result<(), IrLoadError>)
    ensures
        verdict(r, state_default_ok(state_view(*st))),
        r is Err ==> (r matches Err(IrLoadError::Validate(t)) && t@ == state_default_message(state_view(*st))),
{
    let ghost sv = state_view(*st);
    assert(sv.ty == st.ty && sv.default == lit_view(st.default));
    match st.ty {
        IrStateType::Scalar(t) => {
            let ok = literal_has_type_exec(t, &st.default);
            assert(state_default_ok(sv) == ok);
            if ok {
                return Ok(());
            }
            if matches!(st.default, IrLiteral::List(_)) {
                Err(verr3("scalar state `", st.name.as_str(), "` cannot use a list literal default"))
            } else {
                Err(verr3("state `", st.name.as_str(), "` default does not match declared type"))
            }
        },
        IrStateType::Collection(elem) => match &st.default {
            IrLiteral::List(items) => {
                let res = list_items_have_type(elem, items);
                let ghost lv = crate::ir_view::lits_view(items@);
                assert(sv.default == LiteralV::List(lv));
                if res.is_ok() {
                    assert(state_default_ok(sv));
                    return Ok(());
                }
                proof {
                    let i0 = choose|i: int| 0 <= i < lv.len() && !literal_has_type(elem, lv[i]);
                    assert(!literal_has_type(elem, lv[i0]));
                    if state_default_ok(sv) {
                        match sv.default {
                            LiteralV::List(items2) => {
                                assert(items2 == lv);
                                assert(literal_has_type(elem, items2[i0]));
                            },
                            _ => {},
                        }
                    }
                }
                let detail = match res {
                    Err(IrLoadError::Validate(m)) => m,
                    _ => String::new(),
                };
                Err(verr5("collection state `", st.name.as_str(), "` default ", detail.as_str(), ""))
            },
            _ => {
                assert(!state_default_ok(sv));
                Err(verr3("collection state `", st.name.as_str(), "` default must be a list literal"))
            },
        },
    }
}

/// No two states share a name, and every default matches its type.
pub fn check_states(states: &Vec<IrState>) -> (r: Result<(), IrLoadError>)
    ensures
        verdict(r, states_ok(states_view(states@))),
        r is Err ==> (states_failure(states_view(states@), 0) matches Some(m) && r matches Err(IrLoadError::Validate(t))
            && t@ == m),
        r is Ok ==> states_failure(states_view(states@), 0) is None,
{
    let ghost sv = states_view(states@);
    let mut i: usize = 0;
    while i < states.len()
        invariant
            i <= states@.len(),
            sv == states_view(states@),
            forall|a: int, b: int| 0 <= a < b < i ==> sv[a].name != sv[b].name,
            forall|a: int| 0 <= a < i ==> state_default_ok(#[trigger] sv[a]),
            states_failure(sv, 0) == states_failure(sv, i as int),
        decreases states@.len() - i,
    {
        let mut j: usize = 0;
        while j < i
            invariant
                j <= i < states@.len(),
                sv == states_view(states@),
                forall|a: int| 0 <= a < j ==> sv[a].name != sv[i as int].name,
                states_failure(sv, 0) == states_failure(sv, i as int),
            decreases i - j,
        {
            if str_eq(states[j].name.as_str(), states[i].name.as_str()) {
                assert(sv[j as int].name == sv[i as int].name);
                assert(sv[i as int].name == states@[i as int].name@);
                assert(states_failure(sv, i as int) == Some("duplicate `state` name: `"@ + sv[i as int].name + "`"@));
                return Err(verr3("duplicate `state` name: `", states[i].name.as_str(), "`"));
            }
            j += 1;
        }
        validate_state_default(&states[i])?;
        i += 1;
    }
    Ok(())
}

// ── Host surface ────────────────────────────────────────────────────────

/// Whether `name` is a static host attribute.
fn is_host_attr_exec(name: &str) -> (b: bool)
    ensures
        b == is_host_attr(name@),
{
    str_eq(name, "title") || str_eq(name, "backdrop") || str_eq(name, "theme")
}

/// The host surface rules.
pub fn check_host_surface(c: &IrComponent) -> (r: Result<(), IrLoadError>)
    ensures
        verdict(r, host_surface_ok(component_view(*c))),
        match host_failure(component_view(*c)) {
            Some(m) => r matches Err(IrLoadError::Validate(t)) && t@ == m,
            None => r is Ok,
        },
{
    let ghost cv = component_view(*c);
    let mut i: usize = 0;
    while i < c.host_props.len()
        invariant
            i <= c.host_props@.len(),
            cv == component_view(*c),
            forall|k: int| 0 <= k < i ==> host_prop_ok(#[trigger] cv.host_props[k]),
            first_bad_host_prop(cv.host_props, 0) == first_bad_host_prop(cv.host_props, i as int),
        decreases c.host_props@.len() - i,
    {
        let p = &c.host_props[i];
        let name = p.name.as_str();
        assert(cv.host_props[i as int] == prop_view(*p));
        if str_eq(name, "title") {
            if !matches!(p.value, IrLiteral::Str(_)) {
                assert(!host_prop_ok(cv.host_props[i as int]));
                return Err(verr("host `title` prop must be a string literal"));
            }
        } else if str_eq(name, "backdrop") || str_eq(name, "theme") {
            if matches!(p.value, IrLiteral::Int(_) | IrLiteral::Str(_) | IrLiteral::Bool(_)) {
                assert(!host_prop_ok(cv.host_props[i as int]));
                return Err(verr3("host `", name, "` prop must be a keyword identifier, not a typed literal"));
            }
        } else {
            assert(!host_prop_ok(cv.host_props[i as int]));
            return Err(verr3("unknown host attribute `", name, "`; M3-Phase 6 host attributes are: title, backdrop, theme"));
        }
        i += 1;
    }
    if c.host_bindings.len() > 0 {
        return Err(verr3("host attribute `", c.host_bindings[0].prop_name.as_str(), "` is not bindable in M3-Phase 6"));
    }
    let mut j: usize = 0;
    while j < c.root.props.len()
        invariant
            j <= c.root.props@.len(),
            cv == component_view(*c),
            forall|k: int| 0 <= k < j ==> !is_host_attr(#[trigger] cv.root.props[k].name),
            first_bad_host_prop(cv.host_props, 0) is None,
            c.host_bindings@.len() == 0,
            first_host_named_prop(cv.root.props, 0) == first_host_named_prop(cv.root.props, j as int),
        decreases c.root.props@.len() - j,
    {
        assert(cv.root.props[j as int] == prop_view(c.root.props@[j as int]));
        if is_host_attr_exec(c.root.props[j].name.as_str()) {
            assert(is_host_attr(cv.root.props[j as int].name));
            return Err(
                verr3("host attribute `", c.root.props[j].name.as_str(), "` must live on `host_props`, not on the content root"),
            );
        }
        j += 1;
    }
    let mut k: usize = 0;
    while k < c.root.bindings.len()
        invariant
            k <= c.root.bindings@.len(),
            cv == component_view(*c),
            forall|x: int| 0 <= x < k ==> !is_host_attr(#[trigger] cv.root.bindings[x].prop_name),
            first_bad_host_prop(cv.host_props, 0) is None,
            c.host_bindings@.len() == 0,
            first_host_named_prop(cv.root.props, 0) is None,
            first_host_named_binding(cv.root.bindings, 0) == first_host_named_binding(cv.root.bindings, k as int),
        decreases c.root.bindings@.len() - k,
    {
        assert(cv.root.bindings[k as int] == binding_view(c.root.bindings@[k as int]));
        if is_host_attr_exec(c.root.bindings[k].prop_name.as_str()) {
            assert(is_host_attr(cv.root.bindings[k as int].prop_name));
            return Err(
                verr3(
                    "host attribute `",
                    c.root.bindings[k].prop_name.as_str(),
                    "` must live on `host_bindings`, not on the content root",
                ),
            );
        }
        k += 1;
    }
    Ok(())
}

// ── Rules each node meets on its own ────────────────────────────────────

/// Whether widget type `wt` is layout-childless.
fn layout_childless_exec(wt: &str) -> (b: bool)
    ensures
        b == layout_childless(wt@),
{
    str_eq(wt, "Rectangle") || str_eq(wt, "Text") || str_eq(wt, "Button") || str_eq(wt, "ToggleButton")
}

/// Whether `wt` admits the focus annotations.
fn focus_container_exec(wt: &str) -> (b: bool)
    ensures
        b == focus_annotation_container(wt@),
{
    str_eq(wt, "VStack") || str_eq(wt, "HStack") || str_eq(wt, "Box") || str_eq(wt, "WrapPanel") || str_eq(
        wt,
        "ScrollView",
    ) || str_eq(wt, "Grid") || str_eq(wt, "ZStack")
}

/// Whether `name` is a focus annotation.
fn is_focus_annotation_exec(name: &str) -> (b: bool)
    ensures
        b == is_focus_annotation(name@),
{
    str_eq(name, "focus-group") || str_eq(name, "modal-scope")
}

/// Whether `k` is a recognised key name.
pub fn is_recognised_key_name(k: &str) -> (b: bool)
    ensures
        b == recognised_key(k@),
{
    str_eq(k, "Escape") || str_eq(k, "ArrowLeft") || str_eq(k, "ArrowRight") || str_eq(k, "ArrowUp") || str_eq(
        k,
        "ArrowDown",
    ) || str_eq(k, "Home") || str_eq(k, "End") || str_eq(k, "PageUp") || str_eq(k, "PageDown") || str_eq(
        k,
        "Enter",
    ) || str_eq(k, "F1") || str_eq(k, "F2") || str_eq(k, "F3") || str_eq(k, "F4") || str_eq(k, "F5") || str_eq(
        k,
        "F6",
    ) || str_eq(k, "F7") || str_eq(k, "F8") || str_eq(k, "F9") || str_eq(k, "F10") || str_eq(k, "F11") || str_eq(
        k,
        "F12",
    )
}

/// Node `n` meets `rule` on its own.
#[verifier::loop_isolation(false)]
fn check_node_rule(n: &IrNode, rule: NodeRule) -> (r: Result<(), IrLoadError>)
    ensures
        verdict(r, node_rule_ok(node_view(*n), rule)),
{
    let ghost nv = node_view(*n);
    proof {
        lemma_members_view_index(n.children@);
    }
    let wt = n.widget_type.as_str();
    match rule {
        NodeRule::ChildCountsAndBoxLiterals => {
            let count = n.children.len();
            if str_eq(wt, "Box") && count > 1 {
                return Err(
                    verr3(
                        "`Box` node accepts at most one child, got ",
                        crate::decimal::usize_to_string(count).as_str(),
                        " (use `VStack` / `HStack` / `ZStack` for multi-child layouts)",
                    ),
                );
            }
            if layout_childless_exec(wt) && count > 0 {
                return Err(
                    verr5(
                        "`",
                        wt,
                        "` node accepts no children, got ",
                        crate::decimal::usize_to_string(count).as_str(),
                        " (layout arranges it as a single rectangle; wrap it in a container widget instead)",
                    ),
                );
            }
            let mut i: usize = 0;
            while i < n.props.len()
                invariant
                    i <= n.props@.len(),
                    nv == node_view(*n),
                    forall|k: int| 0 <= k < i ==> literal_placement_ok(nv.widget_type, #[trigger] nv.props[k]),
                decreases n.props@.len() - i,
            {
                let p = &n.props[i];
                assert(nv.props[i as int] == prop_view(*p));
                match &p.value {
                    IrLiteral::Ratio { .. } => {
                        if !(str_eq(wt, "Box") && str_eq(p.name.as_str(), "aspect")) {
                            return Err(
                                verr5("ratio literal valid only on `Box.aspect`, found on `", wt, ".", p.name.as_str(), "`"),
                            );
                        }
                    },
                    IrLiteral::Color(_) => {
                        if !(str_eq(wt, "Box") && str_eq(p.name.as_str(), "fill")) {
                            return Err(
                                verr5("color literal valid only on `Box.fill`, found on `", wt, ".", p.name.as_str(), "`"),
                            );
                        }
                    },
                    _ => {},
                }
                i += 1;
            }
            Ok(())
        },
        NodeRule::WrapPanelSpacing => {
            if !str_eq(wt, "WrapPanel") {
                return Ok(());
            }
            let mut i: usize = 0;
            while i < n.props.len()
                invariant
                    i <= n.props@.len(),
                    nv == node_view(*n),
                    forall|k: int|
                        0 <= k < i && is_wrap_attr(#[trigger] nv.props[k].name) ==> match nv.props[k].value {
                            LiteralV::Int(v) => v >= 0,
                            _ => true,
                        },
                decreases n.props@.len() - i,
            {
                let p = &n.props[i];
                assert(nv.props[i as int] == prop_view(*p));
                let name = p.name.as_str();
                if str_eq(name, "item-cross-size") || str_eq(name, "item-spacing") || str_eq(name, "line-spacing") {
                    if let IrLiteral::Int(v) = &p.value {
                        if *v < 0 {
                            assert(is_wrap_attr(nv.props[i as int].name));
                            return Err(
                                verr5(
                                    "`WrapPanel.",
                                    name,
                                    "` must be non-negative, got ",
                                    crate::decimal::i32_to_string(*v).as_str(),
                                    "",
                                ),
                            );
                        }
                    }
                }
                i += 1;
            }
            Ok(())
        },
        NodeRule::ScrollViewContent => {
            if !str_eq(wt, "ScrollView") {
                return Ok(());
            }
            let mut i: usize = 0;
            while i < n.children.len()
                invariant
                    i <= n.children@.len(),
                    nv == node_view(*n),
                    nv.children.len() == n.children@.len(),
                    forall|k: int| 0 <= k < n.children@.len() ==> #[trigger] nv.children[k] == member_view(n.children@[k]),
                    forall|k: int| 0 <= k < i ==> #[trigger] nv.children[k] is Widget,
                decreases n.children@.len() - i,
            {
                if let IrMember::ControlFlow(_) = &n.children[i] {
                    assert(!(nv.children[i as int] is Widget));
                    return Err(
                        verr(
                            "`ScrollView` content child must be a single widget; a conditional member is not valid directly in ScrollView (wrap it in the content widget)",
                        ),
                    );
                }
                i += 1;
            }
            if n.children.len() != 1 {
                return Err(
                    verr3(
                        "`ScrollView` requires exactly one content child, got ",
                        crate::decimal::usize_to_string(n.children.len()).as_str(),
                        "",
                    ),
                );
            }
            assert(nv.children[0] is Widget);
            Ok(())
        },
        NodeRule::FocusAnnotations => {
            let container = focus_container_exec(wt);
            let mut i: usize = 0;
            let mut modal_true = false;
            while i < n.props.len()
                invariant
                    i <= n.props@.len(),
                    nv == node_view(*n),
                    container == focus_annotation_container(nv.widget_type),
                    forall|k: int|
                        0 <= k < i && is_focus_annotation(#[trigger] nv.props[k].name) ==> container && nv.props[k].value is Bool,
                    modal_true <==> exists|k: int| 0 <= k < i && sets_modal_scope(#[trigger] nv.props[k]),
                decreases n.props@.len() - i,
            {
                let p = &n.props[i];
                assert(nv.props[i as int] == prop_view(*p));
                let name = p.name.as_str();
                if is_focus_annotation_exec(name) {
                    assert(is_focus_annotation(nv.props[i as int].name));
                    if !container {
                        return Err(
                            verr5(
                                "`",
                                name,
                                "` is admitted on any container and is not valid on widget `",
                                wt,
                                "`",
                            ),
                        );
                    }
                    if !matches!(p.value, IrLiteral::Bool(_)) {
                        return Err(
                            verr3("`", name, "` is constant-only; expected a `true` or `false` literal"),
                        );
                    }
                }
                let here = str_eq(name, "modal-scope") && matches!(p.value, IrLiteral::Bool(true));
                assert(here == sets_modal_scope(nv.props[i as int]));
                if here {
                    modal_true = true;
                }
                i += 1;
            }
            let mut j: usize = 0;
            while j < n.bindings.len()
                invariant
                    j <= n.bindings@.len(),
                    nv == node_view(*n),
                    forall|k: int| 0 <= k < j ==> !is_focus_annotation(#[trigger] nv.bindings[k].prop_name),
                decreases n.bindings@.len() - j,
            {
                assert(nv.bindings[j as int] == binding_view(n.bindings@[j as int]));
                if is_focus_annotation_exec(n.bindings[j].prop_name.as_str()) {
                    assert(is_focus_annotation(nv.bindings[j as int].prop_name));
                    return Err(verr3("`", n.bindings[j].prop_name.as_str(), "` is constant-only and cannot be bound"));
                }
                j += 1;
            }
            let mut h: usize = 0;
            let mut dismiss = false;
            while h < n.handlers.len()
                invariant
                    h <= n.handlers@.len(),
                    nv == node_view(*n),
                    dismiss <==> exists|k: int| 0 <= k < h && is_dismiss(#[trigger] nv.handlers[k]),
                decreases n.handlers@.len() - h,
            {
                assert(nv.handlers[h as int] == handler_view(n.handlers@[h as int]));
                let here = str_eq(n.handlers[h].signal.as_str(), "dismiss");
                assert(here == is_dismiss(nv.handlers[h as int]));
                if here {
                    dismiss = true;
                }
                h += 1;
            }
            if dismiss && !modal_true {
                return Err(
                    verr(
                        "`dismiss` handler can never be raised: a dismissal request is addressed to a modal scope; write `modal-scope: true` on the same container or remove the handler",
                    ),
                );
            }
            Ok(())
        },
        NodeRule::KeyDownArguments => {
            let mut i: usize = 0;
            while i < n.handlers.len()
                invariant
                    i <= n.handlers@.len(),
                    nv == node_view(*n),
                    forall|k: int| 0 <= k < i ==> handler_argument_ok(#[trigger] nv.handlers[k]),
                decreases n.handlers@.len() - i,
            {
                let hd = &n.handlers[i];
                assert(nv.handlers[i as int] == handler_view(*hd));
                if str_eq(hd.signal.as_str(), "key-down") {
                    match &hd.arg {
                        None => {
                            return Err(
                                verr(
                                    "`key-down` handler can never be raised: the key must be named in the declaration, e.g. `key-down(\"ArrowLeft\")`",
                                ),
                            );
                        },
                        Some(key) => {
                            if !is_recognised_key_name(key.as_str()) {
                                return Err(
                                    verr3(
                                        "`key-down(\"",
                                        key.as_str(),
                                        "\")` names an unrecognised key; recognised keys are `Escape`, the arrow / Home / End / Page keys, `Enter`, `F1`-`F12`",
                                    ),
                                );
                            }
                        },
                    }
                } else if hd.arg.is_some() {
                    return Err(verr3("`", hd.signal.as_str(), "` does not take an argument; only `key-down` does"));
                }
                i += 1;
            }
            Ok(())
        },
    }
}

// ── Whole-tree traversals ───────────────────────────────────────────────

/// Every node under `n` meets `rule`.
#[verifier::loop_isolation(false)]
pub fn check_tree_rule(n: &IrNode, rule: NodeRule) -> (r: Result<(), IrLoadError>)
    ensures
        verdict(r, tree_rule_ok(node_view(*n), rule)),
    decreases n,
{
    let ghost nv = node_view(*n);
    proof {
        lemma_members_view_index(n.children@);
    }
    check_node_rule(n, rule)?;
    let mut i: usize = 0;
    while i < n.children.len()
        invariant
            i <= n.children@.len(),
            forall|k: int| 0 <= k < i ==> member_rule_ok(#[trigger] nv.children[k], rule),
        decreases n.children@.len() - i,
    {
        proof {
            assert(decreases_to!(n => n.children@[i as int]));
        }
        let res = check_member_rule(&n.children[i], rule);
        if res.is_err() {
            assert(!member_rule_ok(nv.children[i as int], rule));
            return res;
        }
        i += 1;
    }
    Ok(())
}

/// Every node under member `m` meets `rule`.
#[verifier::loop_isolation(false)]
pub fn check_member_rule(m: &IrMember, rule: NodeRule) -> (r: Result<(), IrLoadError>)
    ensures
        verdict(r, member_rule_ok(member_view(*m), rule)),
    decreases m,
{
    match m {
        IrMember::Widget(slot) => check_tree_rule(&slot.node, rule),
        IrMember::ControlFlow(ControlFlowNode::If { branches }) => {
            let ghost bv = crate::ir_view::branches_view(branches@);
            proof {
                lemma_branches_view_index(branches@);
            }
            let mut b: usize = 0;
            while b < branches.len()
                invariant
                    b <= branches@.len(),
                    forall|x: int, y: int|
                        0 <= x < b && 0 <= y < bv[x].body.len() ==> member_rule_ok(#[trigger] bv[x].body[y], rule),
                decreases branches@.len() - b,
            {
                let body = &branches[b].body;
                proof {
                    lemma_members_view_index(body@);
                }
                let mut j: usize = 0;
                while j < body.len()
                    invariant
                        j <= body@.len(),
                        forall|x: int, y: int|
                            0 <= x < b && 0 <= y < bv[x].body.len() ==> member_rule_ok(#[trigger] bv[x].body[y], rule),
                        forall|y: int| 0 <= y < j ==> member_rule_ok(#[trigger] bv[b as int].body[y], rule),
                    decreases body@.len() - j,
                {
                    proof {
                        assert(decreases_to!(m => body@[j as int]));
                    }
                    let res = check_member_rule(&body[j], rule);
                    if res.is_err() {
                        assert(!member_rule_ok(bv[b as int].body[j as int], rule));
                        return res;
                    }
                    j += 1;
                }
                b += 1;
            }
            Ok(())
        },
        IrMember::ControlFlow(ControlFlowNode::For { body, .. }) => {
            proof {
                lemma_members_view_index(body@);
            }
            let ghost mv = crate::ir_view::members_view(body@);
            let mut j: usize = 0;
            while j < body.len()
                invariant
                    j <= body@.len(),
                    forall|y: int| 0 <= y < j ==> member_rule_ok(#[trigger] mv[y], rule),
                decreases body@.len() - j,
            {
                proof {
                    assert(decreases_to!(m => body@[j as int]));
                }
                let res = check_member_rule(&body[j], rule);
                if res.is_err() {
                    proof {
                        match member_view(*m) {
                            MemberV::ControlFlow(crate::ir_view::FlowV::For { body: bb, .. }) => {
                                assert(bb == mv);
                                assert(!member_rule_ok(bb[j as int], rule));
                            },
                            _ => {
                                assert(false);
                            },
                        }
                    }
                    return res;
                }
                j += 1;
            }
            Ok(())
        },
    }
}

// ── Grid ────────────────────────────────────────────────────────────────

/// Every track of a list meets the Grid track rules.
fn check_tracks(tracks: &Vec<TrackSize>) -> (r: Result<(), IrLoadError>)
    ensures
        verdict(r, forall|i: int| 0 <= i < tracks@.len() ==> track_ok(#[trigger] tracks@[i])),
{
    let mut i: usize = 0;
    while i < tracks.len()
        invariant
            i <= tracks@.len(),
            forall|k: int| 0 <= k < i ==> track_ok(#[trigger] tracks@[k]),
        decreases tracks@.len() - i,
    {
        match tracks[i] {
            TrackSize::Fixed(v) => {
                if v < 1 {
                    return Err(
                        verr3(
                            "`Grid` fixed track size must be a positive integer, got ",
                            crate::decimal::i32_to_string(v).as_str(),
                            "",
                        ),
                    );
                }
            },
            TrackSize::Star(w) => {
                if w < 1 || w > 1024 {
                    let shown = crate::decimal::usize_to_string(w as usize);
                    return Err(verr3("`Grid` star weight must be in [1, 1024], got ", shown.as_str(), ""));
                }
            },
        }
        i += 1;
    }
    Ok(())
}

/// The rectangle a Grid child occupies, or why it does not fit.
fn grid_child_rect_exec(slot: &IrChildSlot, columns_len: usize, rows_len: usize) -> (r: Result<GridCellRect, IrLoadError>)
    ensures
        match grid_child_rect(slot_view(*slot), columns_len as int, rows_len as int) {
            Some(rc) => r == Ok::<GridCellRect, IrLoadError>(rc),
            None => r matches Err(e) && e is Validate,
        },
        r matches Ok(rc) ==> 0 <= rc.row < 0x1_0000_0000 && 0 <= rc.column < 0x1_0000_0000 && 0 <= rc.row_span
            < 0x1_0000_0000 && 0 <= rc.column_span < 0x1_0000_0000,
{
    let (row, column, row_span, column_span): (u32, u32, u32, u32) = match slot.slot_data {
        Some(IrSlotData::Grid { row, column, row_span, column_span, .. }) => (row, column, row_span, column_span),
        Some(IrSlotData::ZStack { .. }) => {
            return Err(verr("invalid-placement-ir: `placement zstack` is not valid on a Grid child"));
        },
        None => (0, 0, 1, 1),
    };
    let rows = rows_len as u64;
    let columns = columns_len as u64;
    if row as u64 >= rows {
        let (shown, bound) = (crate::decimal::usize_to_string(row as usize), crate::decimal::usize_to_string(rows_len));
        return Err(verr_of(&["`Grid` child placement `row` ", shown.as_str(), " is out of range [0, ", bound.as_str(), ")"]));
    }
    if column as u64 >= columns {
        let (shown, bound) = (crate::decimal::usize_to_string(column as usize), crate::decimal::usize_to_string(columns_len));
        return Err(verr_of(&["`Grid` child placement `column` ", shown.as_str(), " is out of range [0, ", bound.as_str(), ")"]));
    }
    if row_span < 1 {
        let shown = crate::decimal::usize_to_string(row_span as usize);
        return Err(verr3("`Grid` child placement `row-span` must be a positive integer (>= 1), got ", shown.as_str(), ""));
    }
    if column_span < 1 {
        let shown = crate::decimal::usize_to_string(column_span as usize);
        return Err(verr3("`Grid` child placement `column-span` must be a positive integer (>= 1), got ", shown.as_str(), ""));
    }
    if row as u64 + row_span as u64 > rows {
        let (r, sp, sum, bound) = (
            crate::decimal::usize_to_string(row as usize),
            crate::decimal::usize_to_string(row_span as usize),
            crate::decimal::i64_to_string(row as i64 + row_span as i64),
            crate::decimal::usize_to_string(rows_len),
        );
        return Err(verr_of(&["`Grid` child row span exceeds the grid: row ", r.as_str(), " + row-span ", sp.as_str(), " = ", sum.as_str(), " > ", bound.as_str(), " declared row tracks"]));
    }
    if column as u64 + column_span as u64 > columns {
        let (c, sp, sum, bound) = (
            crate::decimal::usize_to_string(column as usize),
            crate::decimal::usize_to_string(column_span as usize),
            crate::decimal::i64_to_string(column as i64 + column_span as i64),
            crate::decimal::usize_to_string(columns_len),
        );
        return Err(verr_of(&["`Grid` child column span exceeds the grid: column ", c.as_str(), " + column-span ", sp.as_str(), " = ", sum.as_str(), " > ", bound.as_str(), " declared column tracks"]));
    }
    Ok(GridCellRect { row: row as i64, column: column as i64, row_span: row_span as i64, column_span: column_span as i64 })
}

/// A Grid node's own rules.
#[verifier::loop_isolation(false)]
#[verifier::spinoff_prover]
fn check_grid(n: &IrNode) -> (r: Result<(), IrLoadError>)
    ensures
        verdict(r, grid_ok(node_view(*n))),
{
    let ghost nv = node_view(*n);
    proof {
        lemma_members_view_index(n.children@);
    }
    let (columns, rows) = match &n.kind_payload {
        Some(KindPayload::Grid { columns, rows }) => (columns, rows),
        None => {
            return Err(verr("`Grid` requires `columns:` and `rows:` track lists"));
        },
    };
    assert(nv.kind_payload == Some(crate::ir_view::PayloadV::Grid { columns: columns@, rows: rows@ }));
    if columns.len() == 0 {
        return Err(verr("`Grid` requires at least one column track"));
    }
    if rows.len() == 0 {
        return Err(verr("`Grid` requires at least one row track"));
    }
    check_tracks(columns)?;
    check_tracks(rows)?;
    let cl = columns.len();
    let rl = rows.len();
    let mut rects: Vec<GridCellRect> = Vec::new();
    let mut i: usize = 0;
    while i < n.children.len()
        invariant
            i <= n.children@.len(),
            rects@.len() == i,
            forall|k: int|
                0 <= k < i ==> match #[trigger] nv.children[k] {
                    MemberV::Widget(s) => s.node.widget_type != "Cell"@ && grid_child_rect(s, cl as int, rl as int)
                        == Some(rects@[k]),
                    MemberV::ControlFlow(_) => false,
                },
            forall|k: int|
                0 <= k < i ==> 0 <= #[trigger] rects@[k].row < 0x1_0000_0000 && 0 <= rects@[k].column < 0x1_0000_0000
                    && 0 <= rects@[k].row_span < 0x1_0000_0000 && 0 <= rects@[k].column_span < 0x1_0000_0000,
        decreases n.children@.len() - i,
    {
        match &n.children[i] {
            IrMember::Widget(slot) => {
                assert(nv.children[i as int] == MemberV::Widget(slot_view(*slot)));
                if str_eq(slot.node.widget_type.as_str(), "Cell") {
                    return Err(
                        crate::ir_loader::legacy_placement_ir_form(
                            "Grid `Cell` child wrapper is stale textual IR; regenerate to `child { placement grid ... node ... }`",
                        ),
                    );
                }
                let rect = grid_child_rect_exec(slot, cl, rl)?;
                rects.push(rect);
            },
            IrMember::ControlFlow(_) => {
                return Err(
                    verr(
                        "`Grid` children must use child slots; conditional members are not valid directly in runtime Grid IR",
                    ),
                );
            },
        }
        i += 1;
    }
    let mut a: usize = 0;
    while a < rects.len()
        invariant
            a <= rects@.len(),
            rects@.len() == n.children@.len(),
            forall|x: int, y: int|
                0 <= x < a && x < y < rects@.len() ==> !crate::ir_loader::grid_rects_overlap_spec(
                    #[trigger] rects@[x],
                    #[trigger] rects@[y],
                ),
        decreases rects@.len() - a,
    {
        let mut b: usize = a + 1;
        while b < rects.len()
            invariant
                a < rects@.len(),
                a + 1 <= b <= rects@.len(),
                forall|x: int, y: int|
                    0 <= x < a && x < y < rects@.len() ==> !crate::ir_loader::grid_rects_overlap_spec(
                        #[trigger] rects@[x],
                        #[trigger] rects@[y],
                    ),
                forall|y: int| a < y < b ==> !crate::ir_loader::grid_rects_overlap_spec(rects@[a as int], #[trigger] rects@[y]),
            decreases rects@.len() - b,
        {
            if grid_rects_overlap(&rects[a], &rects[b]) {
                proof {
                    let ca = nv.children[a as int];
                    let cb = nv.children[b as int];
                    assert(ca matches MemberV::Widget(_));
                    assert(cb matches MemberV::Widget(_));
                }
                let (r, c) = (crate::decimal::i64_to_string(rects[b].row), crate::decimal::i64_to_string(rects[b].column));
                return Err(
                    verr_of(&["`Grid` child placement at (row ", r.as_str(), ", column ", c.as_str(), ") overlaps an earlier Grid child rectangle; same-cell and overlapping placements are rejected"]),
                );
            }
            b += 1;
        }
        a += 1;
    }
    proof {
        assert forall|x: int, y: int| 0 <= x < y < nv.children.len() implies match (
            #[trigger] nv.children[x],
            #[trigger] nv.children[y],
        ) {
            (MemberV::Widget(sa), MemberV::Widget(sb)) => match (
                grid_child_rect(sa, columns@.len() as int, rows@.len() as int),
                grid_child_rect(sb, columns@.len() as int, rows@.len() as int),
            ) {
                (Some(ra), Some(rb)) => !crate::ir_loader::grid_rects_overlap_spec(ra, rb),
                _ => true,
            },
            _ => true,
        } by {
            assert(!crate::ir_loader::grid_rects_overlap_spec(rects@[x], rects@[y]));
        }
    }
    Ok(())
}

/// The Grid / Cell rules over the tree under `n`.
#[verifier::loop_isolation(false)]
pub fn check_grid_tree(n: &IrNode) -> (r: Result<(), IrLoadError>)
    ensures
        verdict(r, grid_tree_ok(node_view(*n))),
    decreases n,
{
    let ghost nv = node_view(*n);
    proof {
        lemma_members_view_index(n.children@);
    }
    let wt = n.widget_type.as_str();
    let is_grid = str_eq(wt, "Grid");
    if !is_grid && n.kind_payload.is_some() {
        return Err(
            verr3(
                "Grid track-list payload (`kind_payload`) is only valid on a `Grid` node, found on `",
                wt,
                "`",
            ),
        );
    }
    if is_grid {
        check_grid(n)?;
        let mut i: usize = 0;
        while i < n.children.len()
            invariant
                i <= n.children@.len(),
                forall|k: int|
                    0 <= k < i ==> match #[trigger] nv.children[k] {
                        MemberV::Widget(s) => grid_tree_ok(s.node),
                        _ => true,
                    },
            decreases n.children@.len() - i,
        {
            if let IrMember::Widget(slot) = &n.children[i] {
                proof {
                    assert(decreases_to!(n => n.children@[i as int]));
                }
                let res = check_grid_tree(&slot.node);
                if res.is_err() {
                    assert(nv.children[i as int] == MemberV::Widget(slot_view(*slot)));
                    return res;
                }
            }
            i += 1;
        }
        Ok(())
    } else if str_eq(wt, "Cell") {
        Err(verr("`Cell` is only valid as a direct child of a `Grid`"))
    } else {
        let mut i: usize = 0;
        while i < n.children.len()
            invariant
                i <= n.children@.len(),
                forall|k: int| 0 <= k < i ==> grid_member_ok(#[trigger] nv.children[k]),
            decreases n.children@.len() - i,
        {
            proof {
                assert(decreases_to!(n => n.children@[i as int]));
            }
            let res = check_grid_member(&n.children[i]);
            if res.is_err() {
                assert(!grid_member_ok(nv.children[i as int]));
                return res;
            }
            i += 1;
        }
        Ok(())
    }
}

/// The Grid / Cell rules under a member.
#[verifier::loop_isolation(false)]
fn check_grid_member(m: &IrMember) -> (r: Result<(), IrLoadError>)
    ensures
        verdict(r, grid_member_ok(member_view(*m))),
    decreases m,
{
    match m {
        IrMember::Widget(slot) => {
            check_grid_tree(&slot.node)
        },
        IrMember::ControlFlow(ControlFlowNode::If { branches }) => {
            let ghost bv = crate::ir_view::branches_view(branches@);
            proof {
                lemma_branches_view_index(branches@);
            }
            let mut b: usize = 0;
            while b < branches.len()
                invariant
                    b <= branches@.len(),
                    forall|x: int, y: int|
                        0 <= x < b && 0 <= y < bv[x].body.len() ==> grid_member_ok(#[trigger] bv[x].body[y]),
                decreases branches@.len() - b,
            {
                let body = &branches[b].body;
                proof {
                    lemma_members_view_index(body@);
                }
                let mut j: usize = 0;
                while j < body.len()
                    invariant
                        j <= body@.len(),
                        forall|x: int, y: int|
                            0 <= x < b && 0 <= y < bv[x].body.len() ==> grid_member_ok(#[trigger] bv[x].body[y]),
                        forall|y: int| 0 <= y < j ==> grid_member_ok(#[trigger] bv[b as int].body[y]),
                    decreases body@.len() - j,
                {
                    proof {
                        assert(decreases_to!(m => body@[j as int]));
                    }
                    let res = check_grid_member(&body[j]);
                    if res.is_err() {
                        assert(!grid_member_ok(bv[b as int].body[j as int]));
                        return res;
                    }
                    j += 1;
                }
                b += 1;
            }
            Ok(())
        },
        IrMember::ControlFlow(ControlFlowNode::For { body, .. }) => {
            proof {
                lemma_members_view_index(body@);
            }
            let ghost mv = crate::ir_view::members_view(body@);
            let mut j: usize = 0;
            while j < body.len()
                invariant
                    j <= body@.len(),
                    forall|y: int| 0 <= y < j ==> grid_member_ok(#[trigger] mv[y]),
                decreases body@.len() - j,
            {
                proof {
                    assert(decreases_to!(m => body@[j as int]));
                }
                let res = check_grid_member(&body[j]);
                if res.is_err() {
                    proof {
                        match member_view(*m) {
                            MemberV::ControlFlow(crate::ir_view::FlowV::For { body: bb, .. }) => {
                                assert(bb == mv);
                                assert(!grid_member_ok(bb[j as int]));
                            },
                            _ => {
                                assert(false);
                            },
                        }
                    }
                    return res;
                }
                j += 1;
            }
            Ok(())
        },
    }
}

// ── ZStack ──────────────────────────────────────────────────────────────

/// The container kind of widget type `wt`.
fn parent_kind_exec(wt: &str) -> (k: ParentKind)
    ensures
        k == parent_kind(wt@),
{
    if str_eq(wt, "Grid") {
        ParentKind::Grid
    } else if str_eq(wt, "Cell") {
        ParentKind::Cell
    } else if str_eq(wt, "ZStack") {
        ParentKind::ZStack
    } else {
        ParentKind::Other
    }
}

/// Whether placement data fits its parent container.
fn slot_parent_ok_exec(parent: ParentKind, data: Option<IrSlotData>) -> (b: bool)
    ensures
        b == slot_parent_ok(parent, data),
{
    match data {
        None => true,
        Some(IrSlotData::Grid { .. }) => parent == ParentKind::Grid,
        Some(IrSlotData::ZStack { .. }) => parent == ParentKind::ZStack,
    }
}

/// The ZStack rules under `n`, a child of a `parent` container.
#[verifier::loop_isolation(false)]
pub fn check_zstack_tree(n: &IrNode, parent: ParentKind) -> (r: Result<(), IrLoadError>)
    ensures
        verdict(r, zstack_tree(node_view(*n), parent)),
    decreases n,
{
    let ghost nv = node_view(*n);
    proof {
        lemma_members_view_index(n.children@);
    }
    let wt = n.widget_type.as_str();
    if str_eq(wt, "ZStack") {
        if n.kind_payload.is_some() {
            return Err(verr("`ZStack` must not carry a `kind_payload`"));
        }
        let mut i: usize = 0;
        while i < n.props.len()
            invariant
                i <= n.props@.len(),
                forall|k: int|
                    0 <= k < i ==> ((parent == ParentKind::ZStack && is_placement_attr(#[trigger] nv.props[k].name))
                        || is_focus_annotation(nv.props[k].name)),
            decreases n.props@.len() - i,
        {
            let name = n.props[i].name.as_str();
            assert(nv.props[i as int] == prop_view(n.props@[i as int]));
            let placement = str_eq(name, "h-align") || str_eq(name, "v-align");
            assert(placement == is_placement_attr(nv.props[i as int].name));
            if !((parent == ParentKind::ZStack && placement) || is_focus_annotation_exec(name)) {
                return Err(verr3("`ZStack` accepts no Phase-6 attributes; found `", name, "`"));
            }
            i += 1;
        }
        if n.bindings.len() > 0 {
            return Err(verr("`ZStack` accepts no Phase-6 bindings"));
        }
    }
    let mut i: usize = 0;
    while i < n.props.len()
        invariant
            i <= n.props@.len(),
            forall|k: int| 0 <= k < i ==> !is_placement_attr(#[trigger] nv.props[k].name),
        decreases n.props@.len() - i,
    {
        let name = n.props[i].name.as_str();
        assert(nv.props[i as int] == prop_view(n.props@[i as int]));
        if str_eq(name, "h-align") || str_eq(name, "v-align") {
            assert(is_placement_attr(nv.props[i as int].name));
            return Err(
                crate::ir_loader::legacy_placement_ir_form(
                    "bare `h-align` / `v-align` props are stale textual IR; regenerate to child-slot placement",
                ),
            );
        }
        i += 1;
    }
    let current = parent_kind_exec(wt);
    let mut i: usize = 0;
    while i < n.children.len()
        invariant
            i <= n.children@.len(),
            forall|k: int| 0 <= k < i ==> zstack_member(#[trigger] nv.children[k], current),
        decreases n.children@.len() - i,
    {
        proof {
            assert(decreases_to!(n => n.children@[i as int]));
        }
        let res = check_zstack_member(&n.children[i], current);
        if res.is_err() {
            assert(!zstack_member(nv.children[i as int], current));
            return res;
        }
        i += 1;
    }
    Ok(())
}

/// The ZStack rules under a member of a `parent` container.
#[verifier::loop_isolation(false)]
fn check_zstack_member(m: &IrMember, parent: ParentKind) -> (r: Result<(), IrLoadError>)
    ensures
        verdict(r, zstack_member(member_view(*m), parent)),
    decreases m,
{
    match m {
        IrMember::Widget(slot) => {
            let ok = slot_parent_ok_exec(parent, slot.slot_data);
            if !ok {
                return Err(
                    match (parent, slot.slot_data) {
                        (ParentKind::Grid, _) => verr("invalid-placement-ir: `placement zstack` is not valid on a Grid child"),
                        (ParentKind::ZStack, _) => verr("invalid-placement-ir: `placement grid` is not valid on a ZStack child"),
                        _ => verr("invalid-placement-ir: placement data is valid only on Grid or ZStack child slots"),
                    },
                );
            }
            check_zstack_tree(&slot.node, parent)
        },
        IrMember::ControlFlow(ControlFlowNode::If { branches }) => {
            let ghost bv = crate::ir_view::branches_view(branches@);
            proof {
                lemma_branches_view_index(branches@);
            }
            let mut b: usize = 0;
            while b < branches.len()
                invariant
                    b <= branches@.len(),
                    forall|x: int, y: int|
                        0 <= x < b && 0 <= y < bv[x].body.len() ==> zstack_member(#[trigger] bv[x].body[y], parent),
                decreases branches@.len() - b,
            {
                let body = &branches[b].body;
                proof {
                    lemma_members_view_index(body@);
                }
                let mut j: usize = 0;
                while j < body.len()
                    invariant
                        j <= body@.len(),
                        forall|x: int, y: int|
                            0 <= x < b && 0 <= y < bv[x].body.len() ==> zstack_member(#[trigger] bv[x].body[y], parent),
                        forall|y: int| 0 <= y < j ==> zstack_member(#[trigger] bv[b as int].body[y], parent),
                    decreases body@.len() - j,
                {
                    proof {
                        assert(decreases_to!(m => body@[j as int]));
                    }
                    let res = check_zstack_member(&body[j], parent);
                    if res.is_err() {
                        assert(!zstack_member(bv[b as int].body[j as int], parent));
                        return res;
                    }
                    j += 1;
                }
                b += 1;
            }
            Ok(())
        },
        IrMember::ControlFlow(ControlFlowNode::For { body, .. }) => {
            proof {
                lemma_members_view_index(body@);
            }
            let ghost mv = crate::ir_view::members_view(body@);
            let mut j: usize = 0;
            while j < body.len()
                invariant
                    j <= body@.len(),
                    forall|y: int| 0 <= y < j ==> zstack_member(#[trigger] mv[y], parent),
                decreases body@.len() - j,
            {
                proof {
                    assert(decreases_to!(m => body@[j as int]));
                }
                let res = check_zstack_member(&body[j], parent);
                if res.is_err() {
                    proof {
                        match member_view(*m) {
                            MemberV::ControlFlow(crate::ir_view::FlowV::For { body: bb, .. }) => {
                                assert(bb == mv);
                                assert(!zstack_member(bb[j as int], parent));
                            },
                            _ => {
                                assert(false);
                            },
                        }
                    }
                    return res;
                }
                j += 1;
            }
            Ok(())
        },
    }
}

// ── Control flow and iteration ──────────────────────────────────────────

/// Each `if` one branch of one widget, each `for` body one widget.
#[verifier::loop_isolation(false)]
pub fn check_control_flow_tree(n: &IrNode) -> (r: Result<(), IrLoadError>)
    ensures
        verdict(r, control_flow_tree(node_view(*n))),
    decreases n,
{
    let ghost nv = node_view(*n);
    proof {
        lemma_members_view_index(n.children@);
    }
    let mut i: usize = 0;
    while i < n.children.len()
        invariant
            i <= n.children@.len(),
            forall|k: int|
                0 <= k < i ==> match #[trigger] nv.children[k] {
                    MemberV::Widget(s) => control_flow_tree(s.node),
                    MemberV::ControlFlow(crate::ir_view::FlowV::If { branches }) => branches.len() == 1
                        && branches[0].body.len() == 1 && match branches[0].body[0] {
                        MemberV::Widget(s) => control_flow_tree(s.node),
                        MemberV::ControlFlow(_) => false,
                    },
                    MemberV::ControlFlow(crate::ir_view::FlowV::For { body, .. }) => body.len() == 1 && match body[0] {
                        MemberV::Widget(s) => control_flow_tree(s.node),
                        MemberV::ControlFlow(_) => false,
                    },
                },
        decreases n.children@.len() - i,
    {
        proof {
            assert(decreases_to!(n => n.children@[i as int]));
        }
        assert(nv.children[i as int] == member_view(n.children@[i as int]));
        match &n.children[i] {
            IrMember::Widget(slot) => {
                check_control_flow_tree(&slot.node)?;
            },
            IrMember::ControlFlow(ControlFlowNode::If { branches }) => {
                proof {
                    lemma_branches_view_index(branches@);
                }
                if branches.len() != 1 {
                    return Err(
                        verr3(
                            "`if` control flow supports exactly one branch in M3-Phase 6, got ",
                            crate::decimal::usize_to_string(branches.len()).as_str(),
                            "",
                        ),
                    );
                }
                let body = &branches[0].body;
                proof {
                    lemma_members_view_index(body@);
                }
                if body.len() != 1 {
                    return Err(
                        verr3(
                            "`if` body supports exactly one widget member in M3-Phase 6, got ",
                            crate::decimal::usize_to_string(body.len()).as_str(),
                            "",
                        ),
                    );
                }
                match &body[0] {
                    IrMember::Widget(slot) => {
                        proof {
                            assert(decreases_to!(n => slot.node));
                        }
                        check_control_flow_tree(&slot.node)?;
                    },
                    IrMember::ControlFlow(_) => {
                        return Err(verr("a nested control-flow member is not valid directly in an `if` body in M3-Phase 6"));
                    },
                }
            },
            IrMember::ControlFlow(ControlFlowNode::For { body, .. }) => {
                proof {
                    lemma_members_view_index(body@);
                }
                if body.len() != 1 {
                    return Err(
                        verr3(
                            "`for` body supports exactly one widget member in M3-Phase 7, got ",
                            crate::decimal::usize_to_string(body.len()).as_str(),
                            "",
                        ),
                    );
                }
                match &body[0] {
                    IrMember::Widget(slot) => {
                        proof {
                            assert(decreases_to!(n => slot.node));
                        }
                        check_control_flow_tree(&slot.node)?;
                    },
                    IrMember::ControlFlow(_) => {
                        return Err(verr("a nested control-flow member is not valid directly in a `for` body in M3-Phase 7"));
                    },
                }
            },
        }
        i += 1;
    }
    Ok(())
}

/// Whether a container may hold a `for` member directly; the reason when
/// it may not.
fn check_direct_for_parent(wt: &str) -> (r: Result<(), IrLoadError>)
    ensures
        verdict(r, direct_for_parent_ok(wt@)),
{
    if str_eq(wt, "ScrollView") {
        Err(verr("direct `for` is not valid in ScrollView; wrap it in a content widget such as `WrapPanel`"))
    } else if str_eq(wt, "Box") {
        Err(verr("direct `for` is not valid in Box because Box admits at most one child"))
    } else if str_eq(wt, "Grid") || str_eq(wt, "Cell") {
        Err(verr("direct `for` is not valid in Grid placement contexts in M3-Phase 7"))
    } else {
        Ok(())
    }
}

/// The iteration rules under `n` (`inside`: within a `for` template).
#[verifier::loop_isolation(false)]
pub fn check_iteration_tree(n: &IrNode, inside: bool) -> (r: Result<(), IrLoadError>)
    ensures
        verdict(r, iteration_tree(node_view(*n), inside)),
    decreases n,
{
    let ghost nv = node_view(*n);
    proof {
        lemma_members_view_index(n.children@);
    }
    if inside && n.handlers.len() > 0 {
        return Err(verr("handlers inside a `for` body template are deferred in M3-Phase 7"));
    }
    let wt = n.widget_type.as_str();
    let current = parent_kind_exec(wt);
    let mut i: usize = 0;
    while i < n.children.len()
        invariant
            i <= n.children@.len(),
            forall|k: int|
                0 <= k < i ==> match #[trigger] nv.children[k] {
                    MemberV::Widget(s) => iteration_tree(s.node, inside),
                    MemberV::ControlFlow(crate::ir_view::FlowV::If { branches }) => forall|b: int, j: int|
                        0 <= b < branches.len() && 0 <= j < branches[b].body.len() ==> iteration_member(
                            #[trigger] branches[b].body[j],
                            parent_kind(nv.widget_type),
                            inside,
                        ),
                    MemberV::ControlFlow(crate::ir_view::FlowV::For { body, .. }) => direct_for_parent_ok(nv.widget_type)
                        && !inside && body.len() == 1 && match body[0] {
                        MemberV::Widget(s) => iteration_tree(s.node, true),
                        MemberV::ControlFlow(_) => false,
                    },
                },
        decreases n.children@.len() - i,
    {
        proof {
            assert(decreases_to!(n => n.children@[i as int]));
        }
        assert(nv.children[i as int] == member_view(n.children@[i as int]));
        match &n.children[i] {
            IrMember::Widget(slot) => {
                check_iteration_tree(&slot.node, inside)?;
            },
            IrMember::ControlFlow(ControlFlowNode::If { branches }) => {
                let ghost bv = crate::ir_view::branches_view(branches@);
                proof {
                    lemma_branches_view_index(branches@);
                }
                let mut b: usize = 0;
                while b < branches.len()
                    invariant
                        b <= branches@.len(),
                        forall|x: int, y: int|
                            0 <= x < b && 0 <= y < bv[x].body.len() ==> iteration_member(
                                #[trigger] bv[x].body[y],
                                current,
                                inside,
                            ),
                    decreases branches@.len() - b,
                {
                    let body = &branches[b].body;
                    proof {
                        lemma_members_view_index(body@);
                    }
                    let mut j: usize = 0;
                    while j < body.len()
                        invariant
                            j <= body@.len(),
                            forall|x: int, y: int|
                                0 <= x < b && 0 <= y < bv[x].body.len() ==> iteration_member(
                                    #[trigger] bv[x].body[y],
                                    current,
                                    inside,
                                ),
                            forall|y: int| 0 <= y < j ==> iteration_member(#[trigger] bv[b as int].body[y], current, inside),
                        decreases body@.len() - j,
                    {
                        proof {
                            assert(decreases_to!(n => body@[j as int]));
                        }
                        let res = check_iteration_member(&body[j], current, inside);
                        if res.is_err() {
                            proof {
                                assert(current == parent_kind(nv.widget_type));
                                match nv.children[i as int] {
                                    MemberV::ControlFlow(crate::ir_view::FlowV::If { branches: bb }) => {
                                        assert(bb == bv);
                                        assert(!iteration_member(bb[b as int].body[j as int], current, inside));
                                    },
                                    _ => {
                                        assert(false);
                                    },
                                }
                            }
                            return res;
                        }
                        j += 1;
                    }
                    b += 1;
                }
            },
            IrMember::ControlFlow(ControlFlowNode::For { body, .. }) => {
                proof {
                    lemma_members_view_index(body@);
                }
                check_direct_for_parent(wt)?;
                if inside {
                    return Err(verr("nested `for` is deferred in M3-Phase 7"));
                }
                if body.len() != 1 {
                    return Err(verr("`for` body admits exactly one widget child in M3-Phase 7"));
                }
                match &body[0] {
                    IrMember::Widget(slot) => {
                        proof {
                            assert(decreases_to!(n => slot.node));
                        }
                        check_iteration_tree(&slot.node, true)?;
                    },
                    IrMember::ControlFlow(_) => {
                        return Err(verr("`for` body admits exactly one widget child in M3-Phase 7"));
                    },
                }
            },
        }
        i += 1;
    }
    Ok(())
}

/// The iteration rules under a member of an `if` body in a `parent`
/// container.
#[verifier::loop_isolation(false)]
fn check_iteration_member(m: &IrMember, parent: ParentKind, inside: bool) -> (r: Result<(), IrLoadError>)
    ensures
        verdict(r, iteration_member(member_view(*m), parent, inside)),
    decreases m,
{
    match m {
        IrMember::Widget(slot) => check_iteration_tree(&slot.node, inside),
        IrMember::ControlFlow(ControlFlowNode::If { branches }) => {
            let ghost bv = crate::ir_view::branches_view(branches@);
            proof {
                lemma_branches_view_index(branches@);
            }
            let mut b: usize = 0;
            while b < branches.len()
                invariant
                    b <= branches@.len(),
                    forall|x: int, y: int|
                        0 <= x < b && 0 <= y < bv[x].body.len() ==> iteration_member(#[trigger] bv[x].body[y], parent, inside),
                decreases branches@.len() - b,
            {
                let body = &branches[b].body;
                proof {
                    lemma_members_view_index(body@);
                }
                let mut j: usize = 0;
                while j < body.len()
                    invariant
                        j <= body@.len(),
                        forall|x: int, y: int|
                            0 <= x < b && 0 <= y < bv[x].body.len() ==> iteration_member(
                                #[trigger] bv[x].body[y],
                                parent,
                                inside,
                            ),
                        forall|y: int| 0 <= y < j ==> iteration_member(#[trigger] bv[b as int].body[y], parent, inside),
                    decreases body@.len() - j,
                {
                    proof {
                        assert(decreases_to!(m => body@[j as int]));
                    }
                    let res = check_iteration_member(&body[j], parent, inside);
                    if res.is_err() {
                        assert(!iteration_member(bv[b as int].body[j as int], parent, inside));
                        return res;
                    }
                    j += 1;
                }
                b += 1;
            }
            Ok(())
        },
        IrMember::ControlFlow(ControlFlowNode::For { body, .. }) => {
            proof {
                lemma_members_view_index(body@);
            }
            if inside {
                return Err(verr("nested `for` is deferred in M3-Phase 7"));
            }
            if parent == ParentKind::Grid || parent == ParentKind::Cell {
                return Err(verr("direct `for` is not valid in Grid placement contexts in M3-Phase 7"));
            }
            if body.len() != 1 {
                return Err(verr("`for` body admits exactly one widget child in M3-Phase 7"));
            }
            match &body[0] {
                IrMember::Widget(slot) => {
                    proof {
                        assert(decreases_to!(m => slot.node));
                    }
                    check_iteration_tree(&slot.node, true)
                },
                IrMember::ControlFlow(_) => Err(verr("`for` body admits exactly one widget child in M3-Phase 7")),
            }
        },
    }
}

// ── Name resolution ─────────────────────────────────────────────────────

/// The loop-local names of an enclosing `for`, and its element type.
pub struct ForScope {
    pub binder: String,
    pub index_binder: Option<String>,
    pub elem: IrType,
}

/// The content of a `for` scope.
pub open spec fn scope_view(s: ForScope) -> LoopScope {
    LoopScope { binder: s.binder@, index_binder: crate::ir_view::opt_str(s.index_binder), elem: s.elem }
}

/// The content of an optional `for` scope.
pub open spec fn opt_scope(o: Option<&ForScope>) -> Option<LoopScope> {
    match o {
        Some(s) => Some(scope_view(*s)),
        None => None,
    }
}

/// The property a bindable widget attribute writes, and its declared type.
pub fn resolve_prop_key(widget_type: &str, prop_name: &str) -> (r: Option<(PropertyKey, IrType)>)
    ensures
        r == prop_key(widget_type@, prop_name@),
{
    let wt = widget_type;
    let name = prop_name;
    let button_family = str_eq(wt, "Button") || str_eq(wt, "ToggleButton");
    if str_eq(wt, "Text") && str_eq(name, "text") {
        Some((PropertyKey::TextContent, IrType::Str))
    } else if str_eq(wt, "Text") && str_eq(name, "font") {
        Some((PropertyKey::TextStyle, IrType::I32))
    } else if button_family && str_eq(name, "text") {
        Some((PropertyKey::ButtonLabel, IrType::Str))
    } else if button_family && str_eq(name, "style") {
        Some((PropertyKey::ButtonStyle, IrType::I32))
    } else if button_family && str_eq(name, "enabled") {
        Some((PropertyKey::ButtonEnabled, IrType::Bool))
    } else if str_eq(wt, "ToggleButton") && str_eq(name, "checked") {
        Some((PropertyKey::ToggleButtonChecked, IrType::Bool))
    } else if str_eq(wt, "ScrollView") && str_eq(name, "offset-y") {
        Some((PropertyKey::ScrollViewOffsetY, IrType::I32))
    } else {
        None
    }
}

/// The declared type of a bindable widget attribute.
fn prop_type_exec(widget_type: &str, prop_name: &str) -> (r: Option<IrType>)
    ensures
        r == prop_type(widget_type@, prop_name@),
{
    match resolve_prop_key(widget_type, prop_name) {
        Some((_, t)) => Some(t),
        None => None,
    }
}

/// Every name `e` reads or writes resolves; `undeclared` begins the message
/// naming an unresolved one.
#[verifier::loop_isolation(false)]
pub fn check_expr_refs(e: &HandlerExpr, states: &Vec<IrState>, scope: Option<&ForScope>, undeclared: &str) -> (r: Result<(), IrLoadError>)
    ensures
        verdict(r, expr_refs_ok(expr_view(*e), states_view(states@), opt_scope(scope))),
    decreases e, 0int,
{
    let ghost sv = states_view(states@);
    match e {
        HandlerExpr::IntLit(_) | HandlerExpr::StrLit(_) | HandlerExpr::BoolLit(_) => Ok(()),
        HandlerExpr::ItemRead { binder } => match scope {
            Some(sc) => if str_eq(binder.as_str(), sc.binder.as_str()) {
                Ok(())
            } else {
                Err(verr3("`item-read ", binder.as_str(), "` is not in scope for the current `for` body"))
            },
            None => Err(verr3("loop-local binder `", binder.as_str(), "` may be read only inside its `for` body")),
        },
        HandlerExpr::IndexRead { binder } => match scope {
            Some(sc) => match &sc.index_binder {
                Some(ib) => if str_eq(binder.as_str(), ib.as_str()) {
                    Ok(())
                } else {
                    Err(verr3("`index-read ", binder.as_str(), "` is not in scope for the current `for` body"))
                },
                None => Err(
                    verr3("loop-local index binder `", binder.as_str(), "` may be read only inside its `for` body"),
                ),
            },
            None => Err(
                verr3("loop-local index binder `", binder.as_str(), "` may be read only inside its `for` body"),
            ),
        },
        HandlerExpr::PropRead { path } | HandlerExpr::StrPropRead { path } | HandlerExpr::BoolPropRead { path } => {
            match lookup_state(states, path.as_str()) {
                Some(IrStateType::Scalar(_)) => Ok(()),
                Some(IrStateType::Collection(_)) => Err(
                    verr3("scalar expression references collection state `", path.as_str(), "`"),
                ),
                None => Err(verr3(undeclared, path.as_str(), "`")),
            }
        },
        HandlerExpr::ListPropRead { .. } => Err(
            verr("collection reads are valid only as a `for` collection header in M3-Phase 7"),
        ),
        HandlerExpr::Assign { lhs, rhs } => match lookup_state(states, lhs.as_str()) {
            Some(IrStateType::Scalar(_)) => check_expr_refs(rhs, states, scope, undeclared),
            Some(IrStateType::Collection(elem)) => check_collection_rhs(lhs.as_str(), elem, rhs, states, undeclared),
            None => Err(verr3(undeclared, lhs.as_str(), "`")),
        },
        HandlerExpr::CompoundAssign { lhs, rhs, .. } => match lookup_state(states, lhs.as_str()) {
            Some(IrStateType::Scalar(_)) => check_expr_refs(rhs, states, scope, undeclared),
            Some(IrStateType::Collection(_)) => Err(
                verr3("collection state `", lhs.as_str(), "` cannot use compound assignment"),
            ),
            None => Err(verr3(undeclared, lhs.as_str(), "`")),
        },
        HandlerExpr::ListAppend { .. } | HandlerExpr::ListDropLast { .. } => Err(
            verr("collection edit expressions are valid only as a collection assignment RHS in M3-Phase 7"),
        ),
        HandlerExpr::ListLit(_) => Err(
            verr("list literals are valid only as collection state defaults or collection assignment RHS in M3-Phase 7"),
        ),
        HandlerExpr::Interpolation(parts) => {
            let ghost pv = crate::ir_view::parts_view(parts@);
            proof {
                lemma_parts_view_index(parts@);
            }
            let mut i: usize = 0;
            while i < parts.len()
                invariant
                    i <= parts@.len(),
                    forall|k: int|
                        0 <= k < i ==> match #[trigger] pv[k] {
                            crate::ir_view::PartV::Expr(inner) => expr_refs_ok(inner, sv, opt_scope(scope)),
                            crate::ir_view::PartV::Literal(_) => true,
                        },
                decreases parts@.len() - i,
            {
                if let InterpolationPart::Expr(inner) = &parts[i] {
                    proof {
                        assert(decreases_to!(e => parts@[i as int]));
                    }
                    let res = check_expr_refs(inner, states, scope, undeclared);
                    if res.is_err() {
                        assert(pv[i as int] == part_view(parts@[i as int]));
                        return res;
                    }
                }
                i += 1;
            }
            Ok(())
        },
        HandlerExpr::Block(es) => {
            let ghost ev = crate::ir_view::exprs_view(es@);
            proof {
                lemma_exprs_view_index(es@);
            }
            let mut i: usize = 0;
            while i < es.len()
                invariant
                    i <= es@.len(),
                    forall|k: int| 0 <= k < i ==> expr_refs_ok(#[trigger] ev[k], sv, opt_scope(scope)),
                decreases es@.len() - i,
            {
                proof {
                    assert(decreases_to!(e => es@[i as int]));
                }
                let res = check_expr_refs(&es[i], states, scope, undeclared);
                if res.is_err() {
                    proof {
                        match expr_view(*e) {
                            ExprV::Block(b2) => {
                                assert(b2 == ev);
                                assert(!expr_refs_ok(b2[i as int], sv, opt_scope(scope)));
                            },
                            _ => {
                                assert(false);
                            },
                        }
                    }
                    return res;
                }
                i += 1;
            }
            Ok(())
        },
    }
}

/// The right-hand side of an assignment to collection state `lhs`.
#[verifier::loop_isolation(false)]
fn check_collection_rhs(lhs: &str, elem: IrType, rhs: &HandlerExpr, states: &Vec<IrState>, undeclared: &str) -> (r: Result<(), IrLoadError>)
    ensures
        verdict(r, collection_rhs_ok(lhs@, elem, expr_view(*rhs), states_view(states@))),
    decreases rhs, 2int,
{
    match rhs {
        HandlerExpr::ListAppend { path, elem: re, value } => {
            if str_eq(path.as_str(), lhs) && *re == elem {
                check_collection_element(lhs, elem, value, states, undeclared)
            } else {
                Err(verr_of(&["collection assignment `", lhs, "` RHS must use `", lhs, "` as its receiver, got `", path.as_str(), "`"]))
            }
        },
        HandlerExpr::ListDropLast { path, elem: re } => {
            if str_eq(path.as_str(), lhs) && *re == elem {
                Ok(())
            } else {
                Err(verr_of(&["collection assignment `", lhs, "` RHS must use `", lhs, "` as its receiver, got `", path.as_str(), "`"]))
            }
        },
        HandlerExpr::ListLit(items) => {
            let res = list_items_have_type(elem, items);
            proof {
                let lv = crate::ir_view::lits_view(items@);
                assert(expr_view(*rhs) == ExprV::ListLit(lv));
                if res.is_err() {
                    let i0 = choose|i: int| 0 <= i < lv.len() && !literal_has_type(elem, lv[i]);
                    if collection_rhs_ok(lhs@, elem, expr_view(*rhs), states_view(states@)) {
                        match expr_view(*rhs) {
                            ExprV::ListLit(l2) => {
                                assert(literal_has_type(elem, l2[i0]));
                            },
                            _ => {},
                        }
                    }
                }
            }
            res
        },
        _ => Err(
            verr3(
                "collection assignment `",
                lhs,
                "` requires list-append, list-drop-last, or list literal RHS",
            ),
        ),
    }
}

/// A value appended to collection state `lhs` of element type `elem`.
#[verifier::loop_isolation(false)]
fn check_collection_element(lhs: &str, elem: IrType, value: &HandlerExpr, states: &Vec<IrState>, undeclared: &str) -> (r: Result<(), IrLoadError>)
    ensures
        verdict(r, collection_element_ok(elem, expr_view(*value), states_view(states@))),
    decreases value, 1int,
{
    match value {
        HandlerExpr::IntLit(_) if elem == IrType::I32 => Ok(()),
        HandlerExpr::StrLit(_) if elem == IrType::Str => Ok(()),
        HandlerExpr::BoolLit(_) if elem == IrType::Bool => Ok(()),
        HandlerExpr::PropRead { path } | HandlerExpr::StrPropRead { path } | HandlerExpr::BoolPropRead { path } => {
            match lookup_state(states, path.as_str()) {
                Some(IrStateType::Scalar(found)) => if found == elem {
                    Ok(())
                } else {
                    Err(verr_of(&["collection assignment `", lhs, "` appends `", path.as_str(), "` with type `", scalar_type_name(found), "`, expected `", scalar_type_name(elem), "`"]))
                },
                Some(IrStateType::Collection(_)) => Err(
                    verr5("collection assignment `", lhs, "` cannot append collection state `", path.as_str(), "` as one element"),
                ),
                None => Err(verr3(undeclared, path.as_str(), "`")),
            }
        },
        HandlerExpr::Interpolation(_) if elem == IrType::Str => check_expr_refs(value, states, None, undeclared),
        HandlerExpr::ItemRead { .. } | HandlerExpr::IndexRead { .. } => check_expr_refs(value, states, None, undeclared),
        _ => Err(
            verr5(
                "collection assignment `",
                lhs,
                "` appends a value that does not match element type `",
                scalar_type_name(elem),
                "`",
            ),
        ),
    }
}

/// Loop-local reads in a binding fit the attribute type `target`.
#[verifier::loop_isolation(false)]
pub fn check_loop_local(e: &HandlerExpr, target: IrType, scope: &ForScope) -> (r: Result<(), IrLoadError>)
    ensures
        verdict(r, loop_local_ok(expr_view(*e), target, scope_view(*scope))),
    decreases e,
{
    match e {
        HandlerExpr::ItemRead { binder } => {
            if !str_eq(binder.as_str(), scope.binder.as_str()) {
                return Ok(());
            }
            match (target, scope.elem) {
                (IrType::Str, IrType::Bool) => Err(
                    verr("bool loop binder cannot be used in string binding; bool formatting/display conversion is not defined in M3-Phase 7"),
                ),
                (IrType::I32, IrType::I32) | (IrType::Str, IrType::I32) | (IrType::Str, IrType::Str) | (
                    IrType::Bool,
                    IrType::Bool,
                ) => Ok(()),
                (expected, found) => Err(
                    verr_of(&["loop binder `", binder.as_str(), "` has element type `", scalar_type_name(found), "`, not `", scalar_type_name(expected), "`"]),
                ),
            }
        },
        HandlerExpr::IndexRead { binder } => {
            let matches_index = match &scope.index_binder {
                Some(ib) => str_eq(binder.as_str(), ib.as_str()),
                None => false,
            };
            if matches_index && target == IrType::Bool {
                Err(verr("loop index binder cannot be used in a bool binding"))
            } else {
                Ok(())
            }
        },
        HandlerExpr::Interpolation(parts) => {
            let ghost pv = crate::ir_view::parts_view(parts@);
            proof {
                lemma_parts_view_index(parts@);
            }
            let mut i: usize = 0;
            while i < parts.len()
                invariant
                    i <= parts@.len(),
                    forall|k: int|
                        0 <= k < i ==> match #[trigger] pv[k] {
                            crate::ir_view::PartV::Expr(inner) => loop_local_ok(inner, IrType::Str, scope_view(*scope)),
                            crate::ir_view::PartV::Literal(_) => true,
                        },
                decreases parts@.len() - i,
            {
                if let InterpolationPart::Expr(inner) = &parts[i] {
                    proof {
                        assert(decreases_to!(e => parts@[i as int]));
                    }
                    let res = check_loop_local(inner, IrType::Str, scope);
                    if res.is_err() {
                        assert(pv[i as int] == part_view(parts@[i as int]));
                        return res;
                    }
                }
                i += 1;
            }
            Ok(())
        },
        HandlerExpr::Block(es) => {
            let ghost ev = crate::ir_view::exprs_view(es@);
            proof {
                lemma_exprs_view_index(es@);
            }
            let mut i: usize = 0;
            while i < es.len()
                invariant
                    i <= es@.len(),
                    forall|k: int| 0 <= k < i ==> loop_local_ok(#[trigger] ev[k], target, scope_view(*scope)),
                decreases es@.len() - i,
            {
                proof {
                    assert(decreases_to!(e => es@[i as int]));
                }
                let res = check_loop_local(&es[i], target, scope);
                if res.is_err() {
                    proof {
                        match expr_view(*e) {
                            ExprV::Block(b2) => {
                                assert(b2 == ev);
                                assert(!loop_local_ok(b2[i as int], target, scope_view(*scope)));
                            },
                            _ => {
                                assert(false);
                            },
                        }
                    }
                    return res;
                }
                i += 1;
            }
            Ok(())
        },
        HandlerExpr::Assign { rhs, .. } | HandlerExpr::CompoundAssign { rhs, .. } => check_loop_local(rhs, target, scope),
        HandlerExpr::ListAppend { value, .. } => check_loop_local(value, target, scope),
        _ => Ok(()),
    }
}

/// An `if` condition.
fn check_condition(e: &HandlerExpr, states: &Vec<IrState>) -> (r: Result<(), IrLoadError>)
    ensures
        verdict(r, condition_ok(expr_view(*e), states_view(states@))),
{
    match e {
        HandlerExpr::BoolLit(_) => Ok(()),
        HandlerExpr::BoolPropRead { path } => match lookup_state(states, path.as_str()) {
            Some(IrStateType::Scalar(IrType::Bool)) => Ok(()),
            Some(other) => Err(verr_of(&["`if` condition `", path.as_str(), "` must resolve to bool, got ", state_type_debug(other)])),
            None => Err(verr3("`if` condition references undeclared name `", path.as_str(), "`")),
        },
        HandlerExpr::PropRead { path } | HandlerExpr::StrPropRead { path } => Err(
            verr3("`if` condition `", path.as_str(), "` must use a bool condition expression"),
        ),
        _ => Err(verr("`if` condition must be a bool literal or bool state read")),
    }
}

/// A `for` header.
fn check_for_header(binder: &String, index_binder: &Option<String>, collection: &HandlerExpr, states: &Vec<IrState>) -> (r: Result<(), IrLoadError>)
    ensures
        verdict(
            r,
            for_header_ok(binder@, crate::ir_view::opt_str(*index_binder), expr_view(*collection), states_view(states@)),
        ),
{
    if binder.as_str().is_empty() {
        return Err(verr("`for` binder must not be empty"));
    }
    if lookup_state(states, binder.as_str()).is_some() {
        return Err(verr3("`for` binder `", binder.as_str(), "` collides with a declared state"));
    }
    if let Some(ib) = index_binder {
        if ib.as_str().is_empty() {
            return Err(verr("`for` index binder must not be empty"));
        }
        if str_eq(ib.as_str(), binder.as_str()) {
            return Err(verr("`for` binder and index binder must be distinct"));
        }
        if lookup_state(states, ib.as_str()).is_some() {
            return Err(verr3("`for` index binder `", ib.as_str(), "` collides with a declared state"));
        }
    }
    match collection {
        HandlerExpr::ListPropRead { path, elem } => match lookup_state(states, path.as_str()) {
            Some(IrStateType::Collection(found)) => if found == *elem {
                Ok(())
            } else {
                Err(verr_of(&["collection read `", path.as_str(), "` has element tag `", scalar_type_name(*elem), "`, but state is `", scalar_type_name(found), "`"]))
            },
            Some(IrStateType::Scalar(_)) => Err(
                verr3("collection expression references scalar state `", path.as_str(), "`"),
            ),
            None => Err(verr3("`for` references undeclared collection `", path.as_str(), "`")),
        },
        _ => Err(verr("`for` collection must be a collection state read")),
    }
}

/// A copy of an optional string.
fn copy_opt(o: &Option<String>) -> (r: Option<String>)
    ensures
        crate::ir_view::opt_str(r) == crate::ir_view::opt_str(*o),
{
    match o {
        Some(s) => Some(s.clone()),
        None => None,
    }
}

/// The scope a `for` member opens.
fn scope_for(binder: &String, index_binder: &Option<String>, collection: &HandlerExpr) -> (sc: ForScope)
    ensures
        scope_view(sc) == scope_of(binder@, crate::ir_view::opt_str(*index_binder), expr_view(*collection)),
{
    let elem = match collection {
        HandlerExpr::ListPropRead { elem, .. } => *elem,
        _ => IrType::I32,
    };
    ForScope { binder: binder.clone(), index_binder: copy_opt(index_binder), elem }
}

/// Name resolution over the tree under `n`.
#[verifier::loop_isolation(false)]
pub fn check_refs_tree(n: &IrNode, states: &Vec<IrState>, scope: Option<&ForScope>, inside: bool) -> (r: Result<(), IrLoadError>)
    ensures
        verdict(r, refs_tree(node_view(*n), states_view(states@), opt_scope(scope), inside)),
    decreases n,
{
    let ghost nv = node_view(*n);
    let ghost sv = states_view(states@);
    proof {
        lemma_members_view_index(n.children@);
    }
    let wt = n.widget_type.as_str();
    let mut i: usize = 0;
    while i < n.bindings.len()
        invariant
            i <= n.bindings@.len(),
            forall|k: int| 0 <= k < i ==> binding_refs_ok(nv.widget_type, #[trigger] nv.bindings[k], sv, opt_scope(scope)),
        decreases n.bindings@.len() - i,
    {
        let b = &n.bindings[i];
        assert(nv.bindings[i as int] == binding_view(*b));
        if let Some(sc) = scope {
            if let Some(ty) = prop_type_exec(wt, b.prop_name.as_str()) {
                let res = check_loop_local(&b.expr, ty, sc);
                if res.is_err() {
                    assert(!binding_refs_ok(nv.widget_type, nv.bindings[i as int], sv, opt_scope(scope)));
                    return res;
                }
            }
        }
        let mut prefix = String::from_str("binding `");
        prefix.append(b.prop_name.as_str());
        prefix.append("` references undeclared name `");
        let res = check_expr_refs(&b.expr, states, scope, prefix.as_str());
        if res.is_err() {
            assert(!binding_refs_ok(nv.widget_type, nv.bindings[i as int], sv, opt_scope(scope)));
            return res;
        }
        i += 1;
    }
    let mut h: usize = 0;
    while h < n.handlers.len()
        invariant
            h <= n.handlers@.len(),
            inside ==> h == 0,
            forall|k: int| 0 <= k < h ==> handler_refs_ok(#[trigger] nv.handlers[k], sv),
        decreases n.handlers@.len() - h,
    {
        if inside {
            return Err(verr("handlers inside a `for` body template are deferred in M3-Phase 7"));
        }
        let hd = &n.handlers[h];
        assert(nv.handlers[h as int] == handler_view(*hd));
        let mut prefix = String::from_str("handler `on ");
        prefix.append(hd.signal.as_str());
        prefix.append("` references undeclared name `");
        let res = check_expr_refs(&hd.expr, states, None, prefix.as_str());
        if res.is_err() {
            assert(!handler_refs_ok(nv.handlers[h as int], sv));
            return res;
        }
        h += 1;
    }
    let mut c: usize = 0;
    while c < n.children.len()
        invariant
            c <= n.children@.len(),
            forall|k: int| 0 <= k < c ==> refs_member(#[trigger] nv.children[k], sv, opt_scope(scope), inside),
        decreases n.children@.len() - c,
    {
        proof {
            assert(decreases_to!(n => n.children@[c as int]));
        }
        let res = check_refs_member(&n.children[c], states, scope, inside);
        if res.is_err() {
            assert(!refs_member(nv.children[c as int], sv, opt_scope(scope), inside));
            return res;
        }
        c += 1;
    }
    Ok(())
}

/// Name resolution under member `m`.
#[verifier::loop_isolation(false)]
fn check_refs_member(m: &IrMember, states: &Vec<IrState>, scope: Option<&ForScope>, inside: bool) -> (r: Result<(), IrLoadError>)
    ensures
        verdict(r, refs_member(member_view(*m), states_view(states@), opt_scope(scope), inside)),
    decreases m,
{
    let ghost sv = states_view(states@);
    match m {
        IrMember::Widget(slot) => check_refs_tree(&slot.node, states, scope, inside),
        IrMember::ControlFlow(ControlFlowNode::If { branches }) => {
            let ghost bv = crate::ir_view::branches_view(branches@);
            proof {
                lemma_branches_view_index(branches@);
            }
            let mut b: usize = 0;
            while b < branches.len()
                invariant
                    b <= branches@.len(),
                    forall|x: int| 0 <= x < b ==> condition_ok(#[trigger] bv[x].condition, sv),
                    forall|x: int, y: int|
                        0 <= x < b && 0 <= y < bv[x].body.len() ==> refs_member(
                            #[trigger] bv[x].body[y],
                            sv,
                            opt_scope(scope),
                            inside,
                        ),
                decreases branches@.len() - b,
            {
                let res = check_condition(&branches[b].condition, states);
                if res.is_err() {
                    proof {
                        match member_view(*m) {
                            MemberV::ControlFlow(crate::ir_view::FlowV::If { branches: bb }) => {
                                assert(bb == bv);
                                assert(!condition_ok(bb[b as int].condition, sv));
                            },
                            _ => {
                                assert(false);
                            },
                        }
                    }
                    return res;
                }
                let body = &branches[b].body;
                proof {
                    lemma_members_view_index(body@);
                }
                let mut j: usize = 0;
                while j < body.len()
                    invariant
                        j <= body@.len(),
                        forall|x: int| 0 <= x <= b ==> condition_ok(#[trigger] bv[x].condition, sv),
                        forall|x: int, y: int|
                            0 <= x < b && 0 <= y < bv[x].body.len() ==> refs_member(
                                #[trigger] bv[x].body[y],
                                sv,
                                opt_scope(scope),
                                inside,
                            ),
                        forall|y: int| 0 <= y < j ==> refs_member(#[trigger] bv[b as int].body[y], sv, opt_scope(scope), inside),
                    decreases body@.len() - j,
                {
                    proof {
                        assert(decreases_to!(m => body@[j as int]));
                    }
                    let res = check_refs_member(&body[j], states, scope, inside);
                    if res.is_err() {
                        assert(!refs_member(bv[b as int].body[j as int], sv, opt_scope(scope), inside));
                        return res;
                    }
                    j += 1;
                }
                b += 1;
            }
            Ok(())
        },
        IrMember::ControlFlow(ControlFlowNode::For { binder, index_binder, collection, body }) => {
            check_for_header(binder, index_binder, collection, states)?;
            if inside {
                return Err(verr("nested `for` is deferred in M3-Phase 7"));
            }
            let child = scope_for(binder, index_binder, collection);
            proof {
                lemma_members_view_index(body@);
            }
            let ghost mv = crate::ir_view::members_view(body@);
            let mut j: usize = 0;
            while j < body.len()
                invariant
                    j <= body@.len(),
                    forall|y: int| 0 <= y < j ==> refs_member(#[trigger] mv[y], sv, Some(scope_view(child)), true),
                decreases body@.len() - j,
            {
                proof {
                    assert(decreases_to!(m => body@[j as int]));
                }
                let res = check_refs_member(&body[j], states, Some(&child), true);
                if res.is_err() {
                    proof {
                        match member_view(*m) {
                            MemberV::ControlFlow(crate::ir_view::FlowV::For { body: bb, .. }) => {
                                assert(bb == mv);
                                assert(!refs_member(bb[j as int], sv, Some(scope_view(child)), true));
                            },
                            _ => {
                                assert(false);
                            },
                        }
                    }
                    return res;
                }
                j += 1;
            }
            Ok(())
        },
    }
}

// ── ToggleButton ────────────────────────────────────────────────────────

/// A binding of attribute type `expected`; `label` names it in messages.
#[verifier::loop_isolation(false)]
fn check_scalar_binding(e: &HandlerExpr, expected: IrType, states: &Vec<IrState>, scope: Option<&ForScope>, label: &str) -> (r: Result<(), IrLoadError>)
    ensures
        verdict(r, scalar_binding_ok(expr_view(*e), expected, states_view(states@), opt_scope(scope))),
{
    let literal_ok = match (expected, e) {
        (IrType::I32, HandlerExpr::IntLit(_)) | (IrType::Str, HandlerExpr::StrLit(_)) | (IrType::Bool, HandlerExpr::BoolLit(_)) => true,
        _ => false,
    };
    if literal_ok {
        return Ok(());
    }
    let read_path: Option<&String> = match (expected, e) {
        (IrType::I32, HandlerExpr::PropRead { path }) | (IrType::Str, HandlerExpr::StrPropRead { path }) | (
            IrType::Bool,
            HandlerExpr::BoolPropRead { path },
        ) => Some(path),
        _ => None,
    };
    if let Some(path) = read_path {
        return match lookup_state(states, path.as_str()) {
            Some(IrStateType::Scalar(found)) => if found == expected {
                Ok(())
            } else {
                Err(verr_of(&["binding `", label, "` reads `", path.as_str(), "` with type `", scalar_type_name(found), "`, expected `", scalar_type_name(expected), "`"]))
            },
            Some(IrStateType::Collection(_)) => Err(
                verr5("binding `", label, "` references collection state `", path.as_str(), "`"),
            ),
            None => Err(verr5("binding `", label, "` references undeclared name `", path.as_str(), "`")),
        };
    }
    match e {
        HandlerExpr::Interpolation(_) if expected == IrType::Str => {
            let mut prefix = String::from_str("binding `");
            prefix.append(label);
            prefix.append("` references undeclared name `");
            check_expr_refs(e, states, scope, prefix.as_str())
        },
        HandlerExpr::ItemRead { .. } | HandlerExpr::IndexRead { .. } => match scope {
            Some(sc) => check_loop_local(e, expected, sc),
            None => Err(verr5("binding `", label, "` must resolve to `", scalar_type_name(expected), "`")),
        },
        _ => Err(verr5("binding `", label, "` must resolve to `", scalar_type_name(expected), "`")),
    }
}

/// The ToggleButton rules under `n`.
#[verifier::loop_isolation(false)]
pub fn check_toggle_tree(n: &IrNode, states: &Vec<IrState>, scope: Option<&ForScope>) -> (r: Result<(), IrLoadError>)
    ensures
        verdict(r, toggle_tree(node_view(*n), states_view(states@), opt_scope(scope))),
    decreases n,
{
    let ghost nv = node_view(*n);
    let ghost sv = states_view(states@);
    proof {
        lemma_members_view_index(n.children@);
    }
    if str_eq(n.widget_type.as_str(), "ToggleButton") {
        let mut i: usize = 0;
        while i < n.props.len()
            invariant
                i <= n.props@.len(),
                forall|k: int| 0 <= k < i ==> toggle_prop_ok(#[trigger] nv.props[k]),
            decreases n.props@.len() - i,
        {
            let p = &n.props[i];
            assert(nv.props[i as int] == prop_view(*p));
            let name = p.name.as_str();
            if str_eq(name, "text") {
                if !literal_has_type_exec(IrType::Str, &p.value) {
                    return Err(verr("ToggleButton.text must be a `string` literal"));
                }
            } else if str_eq(name, "style") {
                if !matches!(p.value, IrLiteral::Ident(_)) {
                    return Err(verr("ToggleButton.style must be a keyword identifier"));
                }
            } else if str_eq(name, "enabled") || str_eq(name, "checked") {
                if !literal_has_type_exec(IrType::Bool, &p.value) {
                    return Err(verr3("ToggleButton.", name, " must be a `bool` literal"));
                }
            } else {
                return Err(
                    verr3("unknown ToggleButton attribute `", name, "`; valid attributes: text, style, enabled, checked"),
                );
            }
            i += 1;
        }
        let mut j: usize = 0;
        while j < n.bindings.len()
            invariant
                j <= n.bindings@.len(),
                forall|k: int| 0 <= k < j ==> toggle_binding_ok(#[trigger] nv.bindings[k], sv, opt_scope(scope)),
            decreases n.bindings@.len() - j,
        {
            let b = &n.bindings[j];
            assert(nv.bindings[j as int] == binding_view(*b));
            let name = b.prop_name.as_str();
            if str_eq(name, "style") {
                assert(!toggle_binding_ok(nv.bindings[j as int], sv, opt_scope(scope)));
                return Err(verr("ToggleButton.style is not bindable in M3-Phase 8"));
            }
            match prop_type_exec("ToggleButton", name) {
                None => {
                    assert(!toggle_binding_ok(nv.bindings[j as int], sv, opt_scope(scope)));
                    return Err(
                        verr3("unknown ToggleButton binding `", name, "`; valid bindable attributes: text, enabled, checked"),
                    );
                },
                Some(ty) => {
                    let mut label = String::from_str("ToggleButton.");
                    label.append(name);
                    let res = check_scalar_binding(&b.expr, ty, states, scope, label.as_str());
                    if res.is_err() {
                        assert(!toggle_binding_ok(nv.bindings[j as int], sv, opt_scope(scope)));
                        return res;
                    }
                },
            }
            j += 1;
        }
    } else {
        let mut i: usize = 0;
        while i < n.props.len()
            invariant
                i <= n.props@.len(),
                forall|k: int| 0 <= k < i ==> (#[trigger] nv.props[k]).name != "checked"@,
            decreases n.props@.len() - i,
        {
            assert(nv.props[i as int] == prop_view(n.props@[i as int]));
            if str_eq(n.props[i].name.as_str(), "checked") {
                return Err(verr3("`checked` is only valid on ToggleButton, not `", n.widget_type.as_str(), "`"));
            }
            i += 1;
        }
        let mut j: usize = 0;
        while j < n.bindings.len()
            invariant
                j <= n.bindings@.len(),
                forall|k: int| 0 <= k < j ==> (#[trigger] nv.bindings[k]).prop_name != "checked"@,
            decreases n.bindings@.len() - j,
        {
            assert(nv.bindings[j as int] == binding_view(n.bindings@[j as int]));
            if str_eq(n.bindings[j].prop_name.as_str(), "checked") {
                return Err(
                    verr3("`checked` binding is only valid on ToggleButton, not `", n.widget_type.as_str(), "`"),
                );
            }
            j += 1;
        }
    }
    let mut c: usize = 0;
    while c < n.children.len()
        invariant
            c <= n.children@.len(),
            forall|k: int| 0 <= k < c ==> toggle_member(#[trigger] nv.children[k], sv, opt_scope(scope)),
        decreases n.children@.len() - c,
    {
        proof {
            assert(decreases_to!(n => n.children@[c as int]));
        }
        let res = check_toggle_member(&n.children[c], states, scope);
        if res.is_err() {
            assert(!toggle_member(nv.children[c as int], sv, opt_scope(scope)));
            return res;
        }
        c += 1;
    }
    Ok(())
}

/// The ToggleButton rules under member `m`.
#[verifier::loop_isolation(false)]
fn check_toggle_member(m: &IrMember, states: &Vec<IrState>, scope: Option<&ForScope>) -> (r: Result<(), IrLoadError>)
    ensures
        verdict(r, toggle_member(member_view(*m), states_view(states@), opt_scope(scope))),
    decreases m,
{
    let ghost sv = states_view(states@);
    match m {
        IrMember::Widget(slot) => check_toggle_tree(&slot.node, states, scope),
        IrMember::ControlFlow(ControlFlowNode::If { branches }) => {
            let ghost bv = crate::ir_view::branches_view(branches@);
            proof {
                lemma_branches_view_index(branches@);
            }
            let mut b: usize = 0;
            while b < branches.len()
                invariant
                    b <= branches@.len(),
                    forall|x: int, y: int|
                        0 <= x < b && 0 <= y < bv[x].body.len() ==> toggle_member(#[trigger] bv[x].body[y], sv, opt_scope(scope)),
                decreases branches@.len() - b,
            {
                let body = &branches[b].body;
                proof {
                    lemma_members_view_index(body@);
                }
                let mut j: usize = 0;
                while j < body.len()
                    invariant
                        j <= body@.len(),
                        forall|x: int, y: int|
                            0 <= x < b && 0 <= y < bv[x].body.len() ==> toggle_member(
                                #[trigger] bv[x].body[y],
                                sv,
                                opt_scope(scope),
                            ),
                        forall|y: int| 0 <= y < j ==> toggle_member(#[trigger] bv[b as int].body[y], sv, opt_scope(scope)),
                    decreases body@.len() - j,
                {
                    proof {
                        assert(decreases_to!(m => body@[j as int]));
                    }
                    let res = check_toggle_member(&body[j], states, scope);
                    if res.is_err() {
                        assert(!toggle_member(bv[b as int].body[j as int], sv, opt_scope(scope)));
                        return res;
                    }
                    j += 1;
                }
                b += 1;
            }
            Ok(())
        },
        IrMember::ControlFlow(ControlFlowNode::For { binder, index_binder, collection, body }) => {
            let child = scope_for(binder, index_binder, collection);
            proof {
                lemma_members_view_index(body@);
            }
            let ghost mv = crate::ir_view::members_view(body@);
            let mut j: usize = 0;
            while j < body.len()
                invariant
                    j <= body@.len(),
                    forall|y: int| 0 <= y < j ==> toggle_member(#[trigger] mv[y], sv, Some(scope_view(child))),
                decreases body@.len() - j,
            {
                proof {
                    assert(decreases_to!(m => body@[j as int]));
                }
                let res = check_toggle_member(&body[j], states, Some(&child));
                if res.is_err() {
                    proof {
                        match member_view(*m) {
                            MemberV::ControlFlow(crate::ir_view::FlowV::For { body: bb, .. }) => {
                                assert(bb == mv);
                                assert(!toggle_member(bb[j as int], sv, Some(scope_view(child))));
                            },
                            _ => {
                                assert(false);
                            },
                        }
                    }
                    return res;
                }
                j += 1;
            }
            Ok(())
        },
    }
}

// ── Collection element types ────────────────────────────────────────────

/// The element type a collection expression over `path` carries.
fn collection_elem_exec(states: &Vec<IrState>, path: &str, elem: IrType) -> (t: IrType)
    ensures
        t == collection_elem(states_view(states@), path@, elem),
{
    match lookup_state(states, path) {
        Some(IrStateType::Collection(found)) => found,
        _ => elem,
    }
}

/// `e` with its collection reads, appends and drops annotated.
pub fn annotate_expr_types(e: HandlerExpr, states: &Vec<IrState>) -> (r: HandlerExpr)
    ensures
        expr_view(r) == annotate_expr(expr_view(e), states_view(states@)),
    decreases e,
{
    let ghost e0 = e;
    match e {
        HandlerExpr::ListPropRead { path, elem } => {
            let el = collection_elem_exec(states, path.as_str(), elem);
            HandlerExpr::ListPropRead { path, elem: el }
        },
        HandlerExpr::ListAppend { path, elem, value } => {
            let el = collection_elem_exec(states, path.as_str(), elem);
            let v = annotate_expr_types(*value, states);
            HandlerExpr::ListAppend { path, elem: el, value: Box::new(v) }
        },
        HandlerExpr::ListDropLast { path, elem } => {
            let el = collection_elem_exec(states, path.as_str(), elem);
            HandlerExpr::ListDropLast { path, elem: el }
        },
        HandlerExpr::Assign { lhs, rhs } => {
            let v = annotate_expr_types(*rhs, states);
            HandlerExpr::Assign { lhs, rhs: Box::new(v) }
        },
        HandlerExpr::CompoundAssign { lhs, op, rhs } => {
            let v = annotate_expr_types(*rhs, states);
            HandlerExpr::CompoundAssign { lhs, op, rhs: Box::new(v) }
        },
        HandlerExpr::Interpolation(parts) => {
            let ghost pv = crate::ir_view::parts_view(parts@);
            proof {
                assert(decreases_to!(e0 => parts));
                lemma_parts_view_index(parts@);
            }
            let out = annotate_parts(parts, states);
            proof {
                lemma_parts_view_index(out@);
                match annotate_expr(expr_view(e0), states_view(states@)) {
                    ExprV::Interpolation(q) => {
                        assert(q =~= crate::ir_view::parts_view(out@));
                    },
                    _ => {},
                }
            }
            HandlerExpr::Interpolation(out)
        },
        HandlerExpr::Block(es) => {
            proof {
                assert(decreases_to!(e0 => es));
                lemma_exprs_view_index(es@);
            }
            let out = annotate_exprs(es, states);
            proof {
                lemma_exprs_view_index(out@);
                match annotate_expr(expr_view(e0), states_view(states@)) {
                    ExprV::Block(q) => {
                        assert(q =~= crate::ir_view::exprs_view(out@));
                    },
                    _ => {},
                }
            }
            HandlerExpr::Block(out)
        },
        other => other,
    }
}

/// Each expression annotated, in order.
#[verifier::loop_isolation(false)]
fn annotate_exprs(v: Vec<HandlerExpr>, states: &Vec<IrState>) -> (r: Vec<HandlerExpr>)
    ensures
        r@.len() == v@.len(),
        forall|i: int| 0 <= i < v@.len() ==> #[trigger] expr_view(r@[i]) == annotate_expr(expr_view(v@[i]), states_view(states@)),
    decreases v,
{
    let ghost v0 = v;
    let ghost orig = v@;
    let mut rest = v;
    let mut out: Vec<HandlerExpr> = Vec::new();
    while rest.len() > 0
        invariant
            out@.len() + rest@.len() == orig.len(),
            rest@ == orig.subrange(out@.len() as int, orig.len() as int),
            orig == v0@,
            forall|i: int| 0 <= i < out@.len() ==> #[trigger] expr_view(out@[i]) == annotate_expr(expr_view(orig[i]), states_view(states@)),
        decreases rest@.len(),
    {
        let ghost k = out@.len() as int;
        let x = rest.remove(0);
        proof {
            assert(x == orig[k]);
            assert(decreases_to!(v0 => orig[k]));
        }
        let y = annotate_expr_types(x, states);
        out.push(y);
        proof {
            assert(rest@ =~= orig.subrange(out@.len() as int, orig.len() as int));
        }
    }
    out
}

/// Each interpolation part with its expression annotated, in order.
#[verifier::loop_isolation(false)]
fn annotate_parts(v: Vec<InterpolationPart>, states: &Vec<IrState>) -> (r: Vec<InterpolationPart>)
    ensures
        r@.len() == v@.len(),
        forall|i: int|
            0 <= i < v@.len() ==> #[trigger] part_view(r@[i]) == match part_view(v@[i]) {
                crate::ir_view::PartV::Expr(inner) => crate::ir_view::PartV::Expr(annotate_expr(inner, states_view(states@))),
                crate::ir_view::PartV::Literal(l) => crate::ir_view::PartV::Literal(l),
            },
    decreases v,
{
    let ghost v0 = v;
    let ghost orig = v@;
    let mut rest = v;
    let mut out: Vec<InterpolationPart> = Vec::new();
    while rest.len() > 0
        invariant
            out@.len() + rest@.len() == orig.len(),
            rest@ == orig.subrange(out@.len() as int, orig.len() as int),
            orig == v0@,
            forall|i: int|
                0 <= i < out@.len() ==> #[trigger] part_view(out@[i]) == match part_view(orig[i]) {
                    crate::ir_view::PartV::Expr(inner) => crate::ir_view::PartV::Expr(annotate_expr(inner, states_view(states@))),
                    crate::ir_view::PartV::Literal(l) => crate::ir_view::PartV::Literal(l),
                },
        decreases rest@.len(),
    {
        let ghost k = out@.len() as int;
        let x = rest.remove(0);
        proof {
            assert(x == orig[k]);
            assert(decreases_to!(v0 => orig[k]));
        }
        let y = match x {
            InterpolationPart::Expr(inner) => InterpolationPart::Expr(annotate_expr_types(inner, states)),
            InterpolationPart::Literal(l) => InterpolationPart::Literal(l),
        };
        out.push(y);
        proof {
            assert(rest@ =~= orig.subrange(out@.len() as int, orig.len() as int));
        }
    }
    out
}

/// Each member annotated, in order.
#[verifier::loop_isolation(false)]
fn annotate_member_list(v: Vec<IrMember>, states: &Vec<IrState>) -> (r: Vec<IrMember>)
    ensures
        r@.len() == v@.len(),
        forall|i: int| 0 <= i < v@.len() ==> #[trigger] member_view(r@[i]) == annotate_member(member_view(v@[i]), states_view(states@)),
    decreases v,
{
    let ghost v0 = v;
    let ghost orig = v@;
    let mut rest = v;
    let mut out: Vec<IrMember> = Vec::new();
    while rest.len() > 0
        invariant
            out@.len() + rest@.len() == orig.len(),
            rest@ == orig.subrange(out@.len() as int, orig.len() as int),
            forall|i: int| 0 <= i < out@.len() ==> #[trigger] member_view(out@[i]) == annotate_member(member_view(orig[i]), states_view(states@)),
        decreases rest@.len(),
    {
        let ghost k = out@.len() as int;
        let x = rest.remove(0);
        proof {
            assert(x == orig[k]);
            assert(decreases_to!(v0 => orig[k]));
        }
        let y = annotate_member_types(x, states);
        out.push(y);
        proof {
            assert(rest@ =~= orig.subrange(out@.len() as int, orig.len() as int));
        }
    }
    out
}

/// A member with its expressions annotated.
fn annotate_member_types(m: IrMember, states: &Vec<IrState>) -> (r: IrMember)
    ensures
        member_view(r) == annotate_member(member_view(m), states_view(states@)),
    decreases m,
{
    let ghost m0 = m;
    match m {
        IrMember::Widget(slot) => {
            let IrChildSlot { node, slot_data } = slot;
            let n2 = annotate_node_types(node, states);
            IrMember::Widget(IrChildSlot { node: n2, slot_data })
        },
        IrMember::ControlFlow(ControlFlowNode::If { branches }) => {
            proof {
                assert(decreases_to!(m0 => branches));
                lemma_branches_view_index(branches@);
            }
            let out = annotate_branches(branches, states);
            proof {
                lemma_branches_view_index(out@);
                match annotate_member(member_view(m0), states_view(states@)) {
                    MemberV::ControlFlow(crate::ir_view::FlowV::If { branches: q }) => {
                        assert(q =~= crate::ir_view::branches_view(out@));
                    },
                    _ => {},
                }
            }
            IrMember::ControlFlow(ControlFlowNode::If { branches: out })
        },
        IrMember::ControlFlow(ControlFlowNode::For { binder, index_binder, collection, body }) => {
            proof {
                assert(decreases_to!(m0 => body));
                lemma_members_view_index(body@);
            }
            let c2 = annotate_expr_types(collection, states);
            let out = annotate_member_list(body, states);
            proof {
                lemma_members_view_index(out@);
                match annotate_member(member_view(m0), states_view(states@)) {
                    MemberV::ControlFlow(crate::ir_view::FlowV::For { body: q, .. }) => {
                        assert(q =~= crate::ir_view::members_view(out@));
                    },
                    _ => {},
                }
            }
            IrMember::ControlFlow(ControlFlowNode::For { binder, index_binder, collection: c2, body: out })
        },
    }
}

/// Each `if` branch with its condition and body annotated, in order.
#[verifier::loop_isolation(false)]
fn annotate_branches(v: Vec<crate::ir::ControlFlowBranch>, states: &Vec<IrState>) -> (r: Vec<crate::ir::ControlFlowBranch>)
    ensures
        r@.len() == v@.len(),
        forall|i: int| 0 <= i < v@.len() ==> #[trigger] branch_view(r@[i]) == annotate_branch(branch_view(v@[i]), states_view(states@)),
    decreases v,
{
    let ghost v0 = v;
    let ghost orig = v@;
    let mut rest = v;
    let mut out: Vec<crate::ir::ControlFlowBranch> = Vec::new();
    while rest.len() > 0
        invariant
            out@.len() + rest@.len() == orig.len(),
            rest@ == orig.subrange(out@.len() as int, orig.len() as int),
            forall|i: int| 0 <= i < out@.len() ==> #[trigger] branch_view(out@[i]) == annotate_branch(branch_view(orig[i]), states_view(states@)),
        decreases rest@.len(),
    {
        let ghost k = out@.len() as int;
        let x = rest.remove(0);
        proof {
            assert(x == orig[k]);
            assert(decreases_to!(v0 => orig[k]));
        }
        let crate::ir::ControlFlowBranch { condition, body } = x;
        proof {
            assert(decreases_to!(v0 => body));
            lemma_members_view_index(body@);
        }
        let c2 = annotate_expr_types(condition, states);
        let b2 = annotate_member_list(body, states);
        let nb = crate::ir::ControlFlowBranch { condition: c2, body: b2 };
        proof {
            lemma_members_view_index(b2@);
            assert(branch_view(nb).body =~= annotate_members(branch_view(orig[k]).body, states_view(states@)));
        }
        out.push(nb);
        proof {
            assert(rest@ =~= orig.subrange(out@.len() as int, orig.len() as int));
        }
    }
    out
}

/// Each binding with its expression annotated, in order.
fn annotate_bindings(v: Vec<crate::ir::IrBinding>, states: &Vec<IrState>) -> (r: Vec<crate::ir::IrBinding>)
    ensures
        crate::ir_view::bindings_view(r@) == crate::ir_view::bindings_view(v@).map_values(
            |b: crate::ir_view::BindingV| annotate_binding(b, states_view(states@)),
        ),
{
    let ghost orig = v@;
    let mut rest = v;
    let mut out: Vec<crate::ir::IrBinding> = Vec::new();
    while rest.len() > 0
        invariant
            out@.len() + rest@.len() == orig.len(),
            rest@ == orig.subrange(out@.len() as int, orig.len() as int),
            forall|i: int| 0 <= i < out@.len() ==> #[trigger] binding_view(out@[i]) == annotate_binding(binding_view(orig[i]), states_view(states@)),
        decreases rest@.len(),
    {
        let ghost k = out@.len() as int;
        let x = rest.remove(0);
        assert(x == orig[k]);
        let crate::ir::IrBinding { prop_name, expr } = x;
        let e2 = annotate_expr_types(expr, states);
        out.push(crate::ir::IrBinding { prop_name, expr: e2 });
        proof {
            assert(rest@ =~= orig.subrange(out@.len() as int, orig.len() as int));
        }
    }
    assert(crate::ir_view::bindings_view(out@) =~= crate::ir_view::bindings_view(orig).map_values(
        |b: crate::ir_view::BindingV| annotate_binding(b, states_view(states@)),
    ));
    out
}

/// Each handler with its expression annotated, in order.
fn annotate_handlers(v: Vec<crate::ir::IrHandler>, states: &Vec<IrState>) -> (r: Vec<crate::ir::IrHandler>)
    ensures
        crate::ir_view::handlers_view(r@) == crate::ir_view::handlers_view(v@).map_values(
            |h: crate::ir_view::HandlerV| annotate_handler(h, states_view(states@)),
        ),
{
    let ghost orig = v@;
    let mut rest = v;
    let mut out: Vec<crate::ir::IrHandler> = Vec::new();
    while rest.len() > 0
        invariant
            out@.len() + rest@.len() == orig.len(),
            rest@ == orig.subrange(out@.len() as int, orig.len() as int),
            forall|i: int| 0 <= i < out@.len() ==> #[trigger] handler_view(out@[i]) == annotate_handler(handler_view(orig[i]), states_view(states@)),
        decreases rest@.len(),
    {
        let ghost k = out@.len() as int;
        let x = rest.remove(0);
        assert(x == orig[k]);
        let crate::ir::IrHandler { signal, arg, expr } = x;
        let e2 = annotate_expr_types(expr, states);
        out.push(crate::ir::IrHandler { signal, arg, expr: e2 });
        proof {
            assert(rest@ =~= orig.subrange(out@.len() as int, orig.len() as int));
        }
    }
    assert(crate::ir_view::handlers_view(out@) =~= crate::ir_view::handlers_view(orig).map_values(
        |h: crate::ir_view::HandlerV| annotate_handler(h, states_view(states@)),
    ));
    out
}

/// The tree under `n` with every expression in its bindings, handlers,
/// `if` conditions and `for` headers annotated.
pub fn annotate_node_types(n: IrNode, states: &Vec<IrState>) -> (r: IrNode)
    ensures
        node_view(r) == annotate_node(node_view(n), states_view(states@)),
    decreases n,
{
    let ghost n0 = n;
    let IrNode { widget_type, props, bindings, handlers, children, kind_payload } = n;
    proof {
        assert(decreases_to!(n0 => children));
        lemma_members_view_index(children@);
    }
    let b2 = annotate_bindings(bindings, states);
    let h2 = annotate_handlers(handlers, states);
    let c2 = annotate_member_list(children, states);
    let r = IrNode { widget_type, props, bindings: b2, handlers: h2, children: c2, kind_payload };
    proof {
        lemma_members_view_index(c2@);
        assert(node_view(r).children =~= annotate_node(node_view(n0), states_view(states@)).children);
    }
    r
}

/// A component with the collection expressions of its content tree
/// annotated with their declared element types.
pub fn annotate_collection_expr_types(comp: IrComponent) -> (r: IrComponent)
    ensures
        component_view(r) == annotate_component(component_view(comp)),
{
    let IrComponent { name, base, host_props, host_bindings, states, root } = comp;
    let root2 = annotate_node_types(root, &states);
    IrComponent { name, base, host_props, host_bindings, states, root: root2 }
}

/// Every rule of a component, checked in turn.
pub fn validate(comp: &IrComponent) -> (r: Result<(), IrLoadError>)
    ensures
        verdict(r, component_valid(component_view(*comp))),
        states_failure(states_view(comp.states@), 0) matches Some(m) ==> (r matches Err(IrLoadError::Validate(t))
            && t@ == m),
        states_failure(states_view(comp.states@), 0) is None ==> (host_failure(component_view(*comp)) matches Some(
            m,
        ) ==> (r matches Err(IrLoadError::Validate(t)) && t@ == m)),
{
    check_states(&comp.states)?;
    check_host_surface(comp)?;
    check_refs_tree(&comp.root, &comp.states, None, false)?;
    check_tree_rule(&comp.root, NodeRule::ChildCountsAndBoxLiterals)?;
    check_tree_rule(&comp.root, NodeRule::FocusAnnotations)?;
    check_tree_rule(&comp.root, NodeRule::KeyDownArguments)?;
    check_tree_rule(&comp.root, NodeRule::WrapPanelSpacing)?;
    check_tree_rule(&comp.root, NodeRule::ScrollViewContent)?;
    check_grid_tree(&comp.root)?;
    check_zstack_tree(&comp.root, ParentKind::Root)?;
    check_control_flow_tree(&comp.root)?;
    check_iteration_tree(&comp.root, false)?;
    check_toggle_tree(&comp.root, &comp.states, None)
}

} // verus!
