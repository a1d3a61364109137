use wasamo_runtime::ir::{
    CompoundOp, ControlFlowNode, HandlerExpr, InterpolationPart, IrAlignment,
    IrBinding, IrChildSlot, IrComponent, IrHandler, IrLiteral, IrMember, IrNode, IrProp,
    IrSlotData, IrState, IrStateType, IrType, KindPayload, TrackSize,
};
use wasamo_runtime::ir_loader::{parse_ir, resolve_static_window_title, IrLoadError};
use wasamo_runtime::ir_rules::PropertyKey;
use wasamo_runtime::placement::{slot_data_for_parent_kind, Alignment, CellPlacement, SlotData, ZStackPlacement};
use wasamo_runtime::ir_validate::{resolve_prop_key, validate, validate_state_default};

fn child_slot(node: IrNode) -> IrChildSlot {
    IrChildSlot {
        node,
        slot_data: None,
    }
}

fn text_node() -> IrNode {
    IrNode {
        widget_type: "Text".into(),
        props: Vec::new(),
        bindings: Vec::new(),
        handlers: Vec::new(),
        children: Vec::new(),
        kind_payload: None,
    }
}

fn zstack_slot(node: IrNode, h_align: IrAlignment, v_align: IrAlignment) -> IrChildSlot {
    IrChildSlot {
        node,
        slot_data: Some(IrSlotData::ZStack { h_align, v_align }),
    }
}

fn grid_slot(
    node: IrNode,
    row: u32,
    column: u32,
    h_align: IrAlignment,
    v_align: IrAlignment,
) -> IrChildSlot {
    IrChildSlot {
        node,
        slot_data: Some(IrSlotData::Grid {
            row,
            column,
            row_span: 2,
            column_span: 3,
            h_align,
            v_align,
        }),
    }
}


fn parse_ok(src: &str) -> IrComponent {
    match parse_ir(src) {
        Ok(c) => c,
        Err(e) => panic!("parse failed: {}\nsrc:\n{src}", e.message()),
    }
}

fn child_widget<'a>(node: &'a IrNode, index: usize) -> &'a IrNode {
    match &node.children[index] {
        IrMember::Widget(slot) => &slot.node,
        other => panic!("expected widget child at {index}, got {other:?}"),
    }
}

fn render(c: &IrComponent) -> String {
    let mut out = String::new();
    out.push_str(";wasamo-ir v0\n\n");
    out.push_str(&format!("component {} inherits {} {{\n", c.name, c.base));
    for s in &c.states {
        let ty = match &s.ty {
            IrStateType::Scalar(IrType::I32) => "i32",
            IrStateType::Scalar(IrType::Str) => "string",
            IrStateType::Scalar(IrType::Bool) => "bool",
            IrStateType::Collection(IrType::I32) => "i32[]",
            IrStateType::Collection(IrType::Str) => "string[]",
            IrStateType::Collection(IrType::Bool) => "bool[]",
        };
        out.push_str(&format!(
            "    state {}: {} = {}\n",
            s.name,
            ty,
            render_lit(&s.default)
        ));
    }
    for p in &c.host_props {
        out.push_str(&format!(
            "    host prop {} = {}\n",
            p.name,
            render_lit(&p.value)
        ));
    }
    for b in &c.host_bindings {
        out.push_str(&format!(
            "    host bind {} = {}\n",
            b.prop_name,
            render_expr(&b.expr)
        ));
    }
    if !c.states.is_empty() || !c.host_props.is_empty() || !c.host_bindings.is_empty() {
        out.push('\n');
    }
    render_node(&mut out, &c.root, 1);
    out.push_str("}\n");
    out
}

fn render_node(out: &mut String, n: &IrNode, depth: usize) {
    let i = "    ".repeat(depth);
    out.push_str(&format!("{i}node {} {{\n", n.widget_type));
    if let Some(KindPayload::Grid { columns, rows }) = &n.kind_payload {
        out.push_str(&format!(
            "{i}    tracks columns = {}\n",
            render_tracks(columns)
        ));
        out.push_str(&format!("{i}    tracks rows = {}\n", render_tracks(rows)));
    }
    for p in &n.props {
        out.push_str(&format!(
            "{i}    prop {} = {}\n",
            p.name,
            render_lit(&p.value)
        ));
    }
    for b in &n.bindings {
        out.push_str(&format!(
            "{i}    bind {} = {}\n",
            b.prop_name,
            render_expr(&b.expr)
        ));
    }
    for h in &n.handlers {
        match &h.arg {
            Some(arg) => out.push_str(&format!("{i}    on {}(\"{}\") {{\n", h.signal, arg)),
            None => out.push_str(&format!("{i}    on {} {{\n", h.signal)),
        }
        out.push_str(&format!("{i}        {}\n", render_expr(&h.expr)));
        out.push_str(&format!("{i}    }}\n"));
    }
    for child in &n.children {
        match child {
            IrMember::Widget(slot) => render_child_slot(out, slot, depth + 1),
            IrMember::ControlFlow(ControlFlowNode::If { branches }) => {
                let i = "  ".repeat(depth + 1);
                for branch in branches {
                    out.push_str(&format!("{}if {} {{\n", i, render_expr(&branch.condition)));
                    for body_member in &branch.body {
                        if let IrMember::Widget(slot) = body_member {
                            render_child_slot(out, slot, depth + 2);
                        }
                    }
                    out.push_str(&format!("{}}}\n", i));
                }
            }
            IrMember::ControlFlow(ControlFlowNode::For {
                binder,
                index_binder,
                collection,
                body,
            }) => {
                let i = "  ".repeat(depth + 1);
                let collection_name = match collection {
                    HandlerExpr::ListPropRead { path, .. } => path.as_str(),
                    other => unreachable!("For.collection must be ListPropRead, got {other:?}"),
                };
                match index_binder {
                    Some(index) => out.push_str(&format!(
                        "{i}for {binder}, {index} in {collection_name} {{\n"
                    )),
                    None => out.push_str(&format!("{i}for {binder} in {collection_name} {{\n")),
                }
                for body_member in body {
                    if let IrMember::Widget(slot) = body_member {
                        render_child_slot(out, slot, depth + 2);
                    }
                }
                out.push_str(&format!("{}}}\n", i));
            }
        }
    }
    out.push_str(&format!("{i}}}\n"));
}

fn render_child_slot(out: &mut String, slot: &IrChildSlot, depth: usize) {
    let i = "    ".repeat(depth);
    out.push_str(&format!("{i}child {{\n"));
    if let Some(slot_data) = &slot.slot_data {
        render_slot_data(out, slot_data, depth + 1);
    }
    render_node(out, &slot.node, depth + 1);
    out.push_str(&format!("{i}}}\n"));
}

fn render_slot_data(out: &mut String, slot_data: &IrSlotData, depth: usize) {
    let i = "    ".repeat(depth);
    match slot_data {
        IrSlotData::Grid {
            row,
            column,
            row_span,
            column_span,
            h_align,
            v_align,
        } => out.push_str(&format!(
            "{i}placement grid {{ row: {row}, column: {column}, row-span: {row_span}, column-span: {column_span}, h-align: {}, v-align: {} }}\n",
            render_alignment(*h_align),
            render_alignment(*v_align)
        )),
        IrSlotData::ZStack { h_align, v_align } => out.push_str(&format!(
            "{i}placement zstack {{ h-align: {}, v-align: {} }}\n",
            render_alignment(*h_align),
            render_alignment(*v_align)
        )),
    }
}

fn render_tracks(tracks: &[TrackSize]) -> String {
    tracks
        .iter()
        .map(|track| match track {
            TrackSize::Fixed(px) => px.to_string(),
            TrackSize::Star(weight) => format!("{weight}*"),
        })
        .collect::<Vec<_>>()
        .join(" ")
}

fn render_alignment(alignment: IrAlignment) -> &'static str {
    match alignment {
        IrAlignment::Start => "start",
        IrAlignment::Center => "center",
        IrAlignment::End => "end",
        IrAlignment::Stretch => "stretch",
    }
}

fn render_lit(l: &IrLiteral) -> String {
    match l {
        IrLiteral::Int(n) => n.to_string(),
        IrLiteral::Str(s) => format!("\"{}\"", s.replace('\\', "\\\\").replace('"', "\\\"")),
        IrLiteral::Ident(id) => id.clone(),
        IrLiteral::Bool(b) => (if *b { "true" } else { "false" }).to_string(),
        IrLiteral::List(items) => {
            let inner: Vec<String> = items.iter().map(render_lit).collect();
            format!("[{}]", inner.join(", "))
        }
        IrLiteral::Ratio { num, den } => format!("{}:{}", num, den),
        IrLiteral::Color(value) => {
            let alpha = (*value >> 24) & 0xFF;
            let rgb = *value & 0x00FF_FFFF;
            if alpha == 0xFF {
                format!("#{:06x}", rgb)
            } else {
                format!("#{:06x}{:02x}", rgb, alpha)
            }
        }
    }
}

fn render_expr(e: &HandlerExpr) -> String {
    match e {
        HandlerExpr::IntLit(n) => n.to_string(),
        HandlerExpr::StrLit(s) => format!("\"{}\"", s),
        HandlerExpr::BoolLit(b) => (if *b { "true" } else { "false" }).to_string(),
        HandlerExpr::PropRead { path } => format!("(prop-read {})", path),
        HandlerExpr::StrPropRead { path } => format!("(str-prop-read {})", path),
        HandlerExpr::BoolPropRead { path } => format!("(bool-prop-read {})", path),
        HandlerExpr::ListPropRead { path, .. } => format!("(list-prop-read {})", path),
        HandlerExpr::ItemRead { binder } => format!("(item-read {})", binder),
        HandlerExpr::IndexRead { binder } => format!("(index-read {})", binder),
        HandlerExpr::ListAppend { path, value, .. } => {
            format!("(list-append {} {})", path, render_expr(value))
        }
        HandlerExpr::ListDropLast { path, .. } => format!("(list-drop-last {})", path),
        HandlerExpr::ListLit(items) => {
            let inner: Vec<String> = items.iter().map(render_lit).collect();
            format!("[{}]", inner.join(", "))
        }
        HandlerExpr::Assign { lhs, rhs } => format!("(assign {} {})", lhs, render_expr(rhs)),
        HandlerExpr::CompoundAssign { lhs, op, rhs } => {
            let op_str = match op {
                CompoundOp::Add => "+=",
                CompoundOp::Sub => "-=",
                CompoundOp::Mul => "*=",
                CompoundOp::Div => "/=",
            };
            format!("(compound-assign {} {} {})", op_str, lhs, render_expr(rhs))
        }
        HandlerExpr::Interpolation(parts) => {
            let inner: Vec<String> = parts
                .iter()
                .map(|p| match p {
                    InterpolationPart::Literal(s) => format!("\"{}\"", s),
                    InterpolationPart::Expr(e) => format!("({})", render_expr(e)),
                })
                .collect();
            format!("(interp {})", inner.join(" "))
        }
        HandlerExpr::Block(exprs) => {
            if exprs.is_empty() {
                "(block)".to_string()
            } else {
                let inner: Vec<String> = exprs.iter().map(render_expr).collect();
                format!("(block {})", inner.join(" "))
            }
        }
    }
}

fn parse_err(src: &str) -> IrLoadError {
    match parse_ir(src) {
        Ok(_) => panic!("expected parse error, but parse succeeded:\n{src}"),
        Err(e) => e,
    }
}

fn assert_malformed_display_nonempty(err: &IrLoadError) {
    assert!(
        err.is_malformed(),
        "expected malformed-class error, got {err:?}"
    );
    let msg = err.message();
    assert!(
        !msg.is_empty(),
        "Display impl must produce non-empty message for {err:?}"
    );
}

fn assert_validate_err(src: &str, needle: &str) {
    match parse_err(src) {
        IrLoadError::Validate(msg) => assert!(
            msg.contains(needle),
            "validate message `{msg}` did not contain `{needle}`"
        ),
        other => panic!("expected Validate error, got {other:?}"),
    }
}

fn assert_validate_err_not_contains(src: &str, needle: &str) {
    match parse_err(src) {
        IrLoadError::Validate(msg) => assert!(
            !msg.contains(needle),
            "validate message `{msg}` unexpectedly contained `{needle}`"
        ),
        other => panic!("expected Validate error, got {other:?}"),
    }
}

fn assert_parse_err(src: &str, needle: &str) {
    match parse_err(src) {
        IrLoadError::Parse(msg) => {
            assert!(
                msg.contains(needle),
                "parse message `{msg}` did not contain `{needle}`"
            )
        }
        other => panic!("expected Parse error, got {other:?}"),
    }
}

fn valid_grid_src(cell_body: &str) -> String {
    format!(
        ";wasamo-ir v0\ncomponent C inherits W {{\n\
         node Grid {{\n\
           tracks columns = 1* 1*\n\
           tracks rows = 1* 1*\n\
           {cell_body}\n\
         }}\n}}"
    )
}

fn grid_child(placement: &str) -> String {
    format!("child {{ placement grid {{ {placement} }} node Text {{}} }}")
}

const FOCUS_ANNOTATION_CONTAINER_FIXTURES: &[(&str, &str)] = &[
    ("VStack", "node VStack { {ATTR} }"),
    ("HStack", "node HStack { {ATTR} }"),
    ("Box", "node Box { {ATTR} }"),
    ("WrapPanel", "node WrapPanel { {ATTR} }"),
    ("ScrollView", "node ScrollView { {ATTR} node Box {} }"),
    (
        "Grid",
        "node Grid { tracks columns = 1* tracks rows = 1* {ATTR} }",
    ),
    ("ZStack", "node ZStack { {ATTR} }"),
];

fn assert_focus_annotation_accepted_everywhere(attr_line: &str) {
    for (kind, body) in FOCUS_ANNOTATION_CONTAINER_FIXTURES {
        let src = format!(
            ";wasamo-ir v0\ncomponent C inherits W {{ {} }}",
            body.replace("{ATTR}", attr_line)
        );
        let c = parse_ok(&src);
        validate(&c).unwrap_or_else(|e| {
            panic!("{kind} accepting `{attr_line}` failed: {}\nsrc:\n{src}", e.message())
        });
    }
}

#[test]
fn resolve_prop_key_button_enabled_is_bool() {
    let (key, ty) = resolve_prop_key("Button", "enabled").expect("Button.enabled exists");
    assert_eq!(key, PropertyKey::ButtonEnabled);
    assert_eq!(ty, IrType::Bool);
}

#[test]
fn resolve_prop_key_text_text_is_string() {
    let (key, ty) = resolve_prop_key("Text", "text").expect("Text.text exists");
    assert_eq!(key, PropertyKey::TextContent);
    assert_eq!(ty, IrType::Str);
}

#[test]
fn resolve_prop_key_button_text_is_string() {
    let (key, ty) = resolve_prop_key("Button", "text").expect("Button.text exists");
    assert_eq!(key, PropertyKey::ButtonLabel);
    assert_eq!(ty, IrType::Str);
}

#[test]
fn resolve_prop_key_button_style_is_i32() {
    let (key, ty) = resolve_prop_key("Button", "style").expect("Button.style exists");
    assert_eq!(key, PropertyKey::ButtonStyle);
    assert_eq!(ty, IrType::I32);
}

#[test]
fn resolve_prop_key_togglebutton_checked_is_bool() {
    let (key, ty) =
        resolve_prop_key("ToggleButton", "checked").expect("ToggleButton.checked exists");
    assert_eq!(key, PropertyKey::ToggleButtonChecked);
    assert_eq!(ty, IrType::Bool);
}

#[test]
fn resolve_prop_key_togglebutton_button_family_attrs() {
    assert_eq!(
        resolve_prop_key("ToggleButton", "text"),
        Some((PropertyKey::ButtonLabel, IrType::Str))
    );
    assert_eq!(
        resolve_prop_key("ToggleButton", "enabled"),
        Some((PropertyKey::ButtonEnabled, IrType::Bool))
    );
}

#[test]
fn resolve_prop_key_text_font_is_i32() {
    let (key, ty) = resolve_prop_key("Text", "font").expect("Text.font exists");
    assert_eq!(key, PropertyKey::TextStyle);
    assert_eq!(ty, IrType::I32);
}

#[test]
fn resolve_prop_key_scrollview_offset_y_is_i32() {
    let (key, ty) =
        resolve_prop_key("ScrollView", "offset-y").expect("ScrollView.offset-y exists");
    assert_eq!(key, PropertyKey::ScrollViewOffsetY);
    assert_eq!(ty, IrType::I32);
}

#[test]
fn header_required() {
    let err = parse_ir("component C inherits W { node V {} }").unwrap_err();
    assert!(matches!(err, IrLoadError::InvalidHeader(_)));
}

#[test]
fn header_wrong_version() {
    let err = parse_ir(";wasamo-ir v9\ncomponent C inherits W { node V {} }").unwrap_err();
    assert!(matches!(err, IrLoadError::InvalidHeader(_)));
}

#[test]
fn empty_component_with_root() {
    let c = parse_ok(";wasamo-ir v0\ncomponent C inherits W { node V {} }");
    assert_eq!(c.name, "C");
    assert_eq!(c.base, "W");
    assert!(c.states.is_empty());
    assert_eq!(c.root.widget_type, "V");
}

#[test]
fn state_i32_with_int_default() {
    let c = parse_ok(
        ";wasamo-ir v0\ncomponent C inherits W {\n\
         state count: i32 = 0\n\
         node V {}\n}",
    );
    assert_eq!(c.states.len(), 1);
    assert_eq!(c.states[0].name, "count");
    assert_eq!(c.states[0].ty, IrStateType::Scalar(IrType::I32));
    assert_eq!( format!("{:?}", c.states[0].default), format!("{:?}", IrLiteral::Int(0)));
}

#[test]
fn state_string_with_str_default() {
    let c = parse_ok(
        ";wasamo-ir v0\ncomponent C inherits W {\n\
         state msg: string = \"hi\"\n\
         node V {}\n}",
    );
    assert_eq!(c.states[0].ty, IrStateType::Scalar(IrType::Str));
    assert_eq!( format!("{:?}", c.states[0].default), format!("{:?}", IrLiteral::Str("hi".into())));
}

#[test]
fn collection_state_i32_list_default_parses() {
    let c = parse_ok(
        ";wasamo-ir v0\ncomponent C inherits W {\n\
         state thumbs: i32[] = [1, 2, 3]\n\
         node V {}\n}",
    );
    assert_eq!(c.states[0].ty, IrStateType::Collection(IrType::I32));
    assert_eq!( format!("{:?}", c.states[0].default), format!("{:?}", IrLiteral::List(vec![
            IrLiteral::Int(1),
            IrLiteral::Int(2),
            IrLiteral::Int(3)
        ])));
}

#[test]
fn collection_state_string_and_bool_list_defaults_parse() {
    let c = parse_ok(
        ";wasamo-ir v0\ncomponent C inherits W {\n\
         state labels: string[] = [\"a\", \"b\"]\n\
         state flags: bool[] = [true, false]\n\
         node V {}\n}",
    );
    assert_eq!(c.states[0].ty, IrStateType::Collection(IrType::Str));
    assert_eq!( format!("{:?}", c.states[0].default), format!("{:?}", IrLiteral::List(vec![IrLiteral::Str("a".into()), IrLiteral::Str("b".into())])));
    assert_eq!(c.states[1].ty, IrStateType::Collection(IrType::Bool));
    assert_eq!( format!("{:?}", c.states[1].default), format!("{:?}", IrLiteral::List(vec![IrLiteral::Bool(true), IrLiteral::Bool(false)])));
}

#[test]
fn collection_state_rejects_mismatched_list_element() {
    let err = parse_ir(
        ";wasamo-ir v0\ncomponent C inherits W {\n\
         state thumbs: i32[] = [1, \"two\"]\n\
         node V {}\n}",
    )
    .unwrap_err();
    assert!(
        matches!(err, IrLoadError::Validate(ref m) if m.contains("element must match `i32`")),
        "{err:?}"
    );
}

#[test]
fn collection_state_rejects_nested_list_default() {
    let state = IrState {
        name: "nested".into(),
        ty: IrStateType::Collection(IrType::I32),
        default: IrLiteral::List(vec![IrLiteral::List(vec![IrLiteral::Int(1)])]),
    };
    let err = validate_state_default(&state).unwrap_err();
    assert!(
        matches!(err, IrLoadError::Validate(ref m) if m.contains("cannot contain a nested list literal")),
        "{err:?}"
    );
}

#[test]
fn scalar_state_rejects_list_default() {
    let err = parse_ir(
        ";wasamo-ir v0\ncomponent C inherits W {\n\
         state count: i32 = [1]\n\
         node V {}\n}",
    )
    .unwrap_err();
    assert!(
        matches!(err, IrLoadError::Validate(ref m) if m.contains("scalar state `count` cannot use a list literal default")),
        "{err:?}"
    );
}

#[test]
fn scalar_state_rejects_type_mismatched_default() {
    let err = parse_ir(
        ";wasamo-ir v0\ncomponent C inherits W {\n\
         state count: i32 = true\n\
         node V {}\n}",
    )
    .unwrap_err();
    assert!(
        matches!(err, IrLoadError::Validate(ref m) if m.contains("default does not match declared type")),
        "{err:?}"
    );
}

#[test]
fn for_member_parses_binders_collection_and_body() {
    let c = parse_ok(
        ";wasamo-ir v0\ncomponent C inherits W {\n\
         state thumbs: i32[] = [1, 2]\n\
         node WrapPanel {\n\
           for thumb, i in thumbs {\n\
             node Text { bind text = (interp \"#\" ((index-read i)) \":\" ((item-read thumb))) }\n\
           }\n\
         }\n}",
    );
    match &c.root.children[0] {
        IrMember::ControlFlow(ControlFlowNode::For {
            binder,
            index_binder,
            collection,
            body,
        }) => {
            assert_eq!(binder, "thumb");
            assert_eq!(index_binder.as_deref(), Some("i"));
            assert_eq!( format!("{:?}", *collection), format!("{:?}", HandlerExpr::ListPropRead {
                    path: "thumbs".into(),
                    elem: IrType::I32,
                }));
            assert_eq!(body.len(), 1);
        }
        other => panic!("expected for member, got {other:?}"),
    }
}

#[test]
fn for_member_rejects_scalar_collection_target() {
    let err = parse_ir(
        ";wasamo-ir v0\ncomponent C inherits W {\n\
         state count: i32 = 0\n\
         node WrapPanel { for x in count { node Text {} } }\n}",
    )
    .unwrap_err();
    assert!(
        matches!(err, IrLoadError::Validate(ref m) if m.contains("collection expression references scalar state `count`")),
        "{err:?}"
    );
}

#[test]
fn for_member_rejects_undeclared_collection_target() {
    let err = parse_ir(
        ";wasamo-ir v0\ncomponent C inherits W {\n\
         node WrapPanel { for x in missing { node Text {} } }\n}",
    )
    .unwrap_err();
    assert!(
        matches!(err, IrLoadError::Validate(ref m) if m.contains("undeclared collection `missing`")),
        "{err:?}"
    );
}

#[test]
fn for_member_rejects_binder_state_collision() {
    let err = parse_ir(
        ";wasamo-ir v0\ncomponent C inherits W {\n\
         state x: i32 = 0\n\
         state xs: i32[] = []\n\
         node WrapPanel { for x in xs { node Text {} } }\n}",
    )
    .unwrap_err();
    assert!(
        matches!(err, IrLoadError::Validate(ref m) if m.contains("binder `x` collides")),
        "{err:?}"
    );
}

#[test]
fn for_member_rejects_same_binder_and_index() {
    let err = parse_ir(
        ";wasamo-ir v0\ncomponent C inherits W {\n\
         state xs: i32[] = []\n\
         node WrapPanel { for x, x in xs { node Text {} } }\n}",
    )
    .unwrap_err();
    assert!(
        matches!(err, IrLoadError::Validate(ref m) if m.contains("binder and index binder must be distinct")),
        "{err:?}"
    );
}

#[test]
fn for_member_rejects_index_state_collision() {
    let err = parse_ir(
        ";wasamo-ir v0\ncomponent C inherits W {\n\
         state i: i32 = 0\n\
         state xs: i32[] = []\n\
         node WrapPanel { for x, i in xs { node Text {} } }\n}",
    )
    .unwrap_err();
    assert!(
        matches!(err, IrLoadError::Validate(ref m) if m.contains("index binder `i` collides")),
        "{err:?}"
    );
}

#[test]
fn for_member_rejects_multi_child_body() {
    let err = parse_ir(
        ";wasamo-ir v0\ncomponent C inherits W {\n\
         state xs: i32[] = []\n\
         node WrapPanel { for x in xs { node Text {} node Text {} } }\n}",
    )
    .unwrap_err();
    assert!(
        matches!(err, IrLoadError::Validate(ref m) if m.contains("`for` body supports exactly one widget member")),
        "{err:?}"
    );
}

#[test]
fn for_member_rejects_nested_control_flow_body() {
    let err = parse_ir(
        ";wasamo-ir v0\ncomponent C inherits W {\n\
         state xs: i32[] = []\n\
         node WrapPanel { for x in xs { if true { node Text {} } } }\n}",
    )
    .unwrap_err();
    assert!(
        matches!(err, IrLoadError::Validate(ref m) if m.contains("nested control-flow")),
        "{err:?}"
    );
}

#[test]
fn for_member_rejects_direct_disallowed_containers() {
    let cases = [
        (
            ";wasamo-ir v0\ncomponent C inherits W {\n\
             state xs: i32[] = []\n\
             node ScrollView { for x in xs { node Text {} } }\n}",
            "ScrollView",
        ),
        (
            ";wasamo-ir v0\ncomponent C inherits W {\n\
             state xs: i32[] = []\n\
             node Box { for x in xs { node Text {} } }\n}",
            "Box",
        ),
        (
            ";wasamo-ir v0\ncomponent C inherits W {\n\
             state xs: i32[] = []\n\
             node Grid { tracks columns = 1* tracks rows = 1* for x in xs { node Cell { node Text {} } } }\n}",
            "Grid",
        ),
    ];
    for (src, needle) in cases {
        let err = parse_ir(src).unwrap_err();
        assert!(
            matches!(err, IrLoadError::Validate(ref m) if m.contains(needle)),
            "{needle}: {err:?}"
        );
    }
}

#[test]
fn for_member_rejects_component_body_surface_at_parse() {
    let err = parse_ir(
        ";wasamo-ir v0\ncomponent C inherits W {\n\
         state xs: i32[] = []\n\
         for x in xs { node Text {} }\n\
         node Window {}\n}",
    )
    .unwrap_err();
    assert!(
        matches!(err, IrLoadError::Parse(ref m) if m.contains("unexpected token in component body")),
        "{err:?}"
    );
}

#[test]
fn for_member_rejects_handler_and_nested_for_inside_template() {
    let handler = parse_ir(
        ";wasamo-ir v0\ncomponent C inherits W {\n\
         state xs: i32[] = []\n\
         node WrapPanel { for x in xs { node Button { on clicked { 1 } } } }\n}",
    )
    .unwrap_err();
    assert!(
        matches!(handler, IrLoadError::Validate(ref m) if m.contains("handlers inside a `for` body")),
        "{handler:?}"
    );

    let nested = parse_ir(
        ";wasamo-ir v0\ncomponent C inherits W {\n\
         state xs: i32[] = []\n\
         node WrapPanel { for x in xs { node VStack { for y in xs { node Text {} } } } }\n}",
    )
    .unwrap_err();
    assert!(
        matches!(nested, IrLoadError::Validate(ref m) if m.contains("nested `for`")),
        "{nested:?}"
    );
}

#[test]
fn loop_local_reads_are_scoped_to_for_body() {
    let outside_item = parse_ir(
        ";wasamo-ir v0\ncomponent C inherits W {\n\
         state xs: string[] = []\n\
         node VStack { node Text { bind text = (item-read x) } }\n}",
    )
    .unwrap_err();
    assert!(
        matches!(outside_item, IrLoadError::Validate(ref m) if m.contains("may be read only inside")),
        "{outside_item:?}"
    );

    let missing_index = parse_ir(
        ";wasamo-ir v0\ncomponent C inherits W {\n\
         state xs: string[] = []\n\
         node WrapPanel { for x in xs { node Text { bind text = (index-read i) } } }\n}",
    )
    .unwrap_err();
    assert!(
        matches!(missing_index, IrLoadError::Validate(ref m) if m.contains("may be read only inside")),
        "{missing_index:?}"
    );

    let bool_interp = parse_ir(
        ";wasamo-ir v0\ncomponent C inherits W {\n\
         state flags: bool[] = []\n\
         node WrapPanel { for flag in flags { node Text { bind text = (interp \"v=\" ((item-read flag))) } } }\n}",
    )
    .unwrap_err();
    assert!(
        matches!(bool_interp, IrLoadError::Validate(ref m) if m.contains("bool loop binder")),
        "{bool_interp:?}"
    );

    let string_item_to_i32_target = parse_ir(
        ";wasamo-ir v0\ncomponent C inherits W {\n\
         state labels: string[] = []\n\
         node WrapPanel { for label in labels { node Text { bind font = (item-read label) } } }\n}",
    )
    .unwrap_err();
    assert!(
        matches!(string_item_to_i32_target, IrLoadError::Validate(ref m) if m.contains("element type `string`, not `i32`")),
        "{string_item_to_i32_target:?}"
    );

    let index_read_to_bool_target = parse_ir(
        ";wasamo-ir v0\ncomponent C inherits W {\n\
         state nums: i32[] = []\n\
         node WrapPanel { for n, i in nums { node Button { bind enabled = (index-read i) } } }\n}",
    )
    .unwrap_err();
    assert!(
        matches!(index_read_to_bool_target, IrLoadError::Validate(ref m) if m.contains("index binder cannot be used in a bool binding")),
        "{index_read_to_bool_target:?}"
    );
}

#[test]
fn collection_assignment_drop_last_rhs_parses_and_validates() {
    let c = parse_ok(
        ";wasamo-ir v0\ncomponent C inherits W {\n\
         state thumbs: i32[] = [1]\n\
         node Button { on clicked { (assign thumbs (list-drop-last thumbs)) } }\n}",
    );
    let handler = &c.root.handlers[0];
    assert_eq!( format!("{:?}", handler.expr), format!("{:?}", HandlerExpr::Assign {
            lhs: "thumbs".into(),
            rhs: Box::new(HandlerExpr::ListDropLast {
                path: "thumbs".into(),
                elem: IrType::I32,
            }),
        }));
}

#[test]
fn collection_assignment_append_rhs_parses_and_validates() {
    let c = parse_ok(
        ";wasamo-ir v0\ncomponent C inherits W {\n\
         state thumbs: i32[] = [1]\n\
         state next: i32 = 2\n\
         node Button { on clicked { (assign thumbs (list-append thumbs (prop-read next))) } }\n}",
    );
    let handler = &c.root.handlers[0];
    assert_eq!( format!("{:?}", handler.expr), format!("{:?}", HandlerExpr::Assign {
            lhs: "thumbs".into(),
            rhs: Box::new(HandlerExpr::ListAppend {
                path: "thumbs".into(),
                elem: IrType::I32,
                value: Box::new(HandlerExpr::PropRead {
                    path: "next".into(),
                }),
            }),
        }));
}

#[test]
fn collection_assignment_append_literal_type_mismatch_rejected() {
    let err = parse_ir(
        ";wasamo-ir v0\ncomponent C inherits W {\n\
         state xs: i32[] = []\n\
         node Button { on clicked { (assign xs (list-append xs \"bad\")) } }\n}",
    )
    .unwrap_err();
    assert!(
        matches!(err, IrLoadError::Validate(ref m) if m.contains("does not match element type `i32`")),
        "{err:?}"
    );
}

#[test]
fn collection_assignment_append_scalar_read_type_mismatch_rejected() {
    let err = parse_ir(
        ";wasamo-ir v0\ncomponent C inherits W {\n\
         state xs: i32[] = []\n\
         state label: string = \"bad\"\n\
         node Button { on clicked { (assign xs (list-append xs (str-prop-read label))) } }\n}",
    )
    .unwrap_err();
    assert!(
        matches!(err, IrLoadError::Validate(ref m) if m.contains("appends `label` with type `string`, expected `i32`")),
        "{err:?}"
    );
}

#[test]
fn append_collection_state_as_element_rejected() {
    let err = parse_ir(
        ";wasamo-ir v0\ncomponent C inherits W {\n\
         state xs: i32[] = []\n\
         state ys: i32[] = []\n\
         node Button { on clicked { (assign xs (list-append xs (prop-read ys))) } }\n}",
    )
    .unwrap_err();
    assert!(
        matches!(err, IrLoadError::Validate(ref m) if m.contains("cannot append collection state")),
        "{err:?}"
    );
}

#[test]
fn collection_assignment_list_literal_rhs_parses_and_validates() {
    let c = parse_ok(
        ";wasamo-ir v0\ncomponent C inherits W {\n\
         state thumbs: i32[] = [1]\n\
         node Button { on clicked { (assign thumbs [2, 3]) } }\n}",
    );
    let handler = &c.root.handlers[0];
    assert_eq!( format!("{:?}", handler.expr), format!("{:?}", HandlerExpr::Assign {
            lhs: "thumbs".into(),
            rhs: Box::new(HandlerExpr::ListLit(vec![
                IrLiteral::Int(2),
                IrLiteral::Int(3)
            ])),
        }));
}

#[test]
fn collection_state_rejects_scalar_default() {
    let err = parse_ir(
        ";wasamo-ir v0\ncomponent C inherits W {\n\
         state xs: i32[] = 1\n\
         node V {}\n}",
    )
    .unwrap_err();
    assert!(
        matches!(err, IrLoadError::Validate(ref m) if m.contains("default must be a list literal")),
        "{err:?}"
    );
}

#[test]
fn collection_compound_assignment_rejected() {
    let err = parse_ir(
        ";wasamo-ir v0\ncomponent C inherits W {\n\
         state xs: i32[] = []\n\
         node Button { on clicked { (compound-assign += xs 1) } }\n}",
    )
    .unwrap_err();
    assert!(
        matches!(err, IrLoadError::Validate(ref m) if m.contains("cannot use compound assignment")),
        "{err:?}"
    );
}

#[test]
fn collection_edit_outside_assignment_rhs_rejected() {
    let err = parse_ir(
        ";wasamo-ir v0\ncomponent C inherits W {\n\
         state xs: i32[] = []\n\
         node Button { on clicked { (list-drop-last xs) } }\n}",
    )
    .unwrap_err();
    assert!(
        matches!(err, IrLoadError::Validate(ref m) if m.contains("collection edit expressions are valid only")),
        "{err:?}"
    );
}

#[test]
fn collection_assignment_wrong_rhs_kind_rejected() {
    let err = parse_ir(
        ";wasamo-ir v0\ncomponent C inherits W {\n\
         state xs: i32[] = []\n\
         state n: i32 = 1\n\
         node Button { on clicked { (assign xs (prop-read n)) } }\n}",
    )
    .unwrap_err();
    assert!(
        matches!(err, IrLoadError::Validate(ref m) if m.contains("requires list-append, list-drop-last, or list literal RHS")),
        "{err:?}"
    );
}

#[test]
fn collection_assignment_wrong_receiver_rejected() {
    let err = parse_ir(
        ";wasamo-ir v0\ncomponent C inherits W {\n\
         state xs: i32[] = []\n\
         state ys: i32[] = []\n\
         node Button { on clicked { (assign xs (list-drop-last ys)) } }\n}",
    )
    .unwrap_err();
    assert!(
        matches!(err, IrLoadError::Validate(ref m) if m.contains("RHS must use `xs` as its receiver")),
        "{err:?}"
    );
}

#[test]
fn scalar_assignment_list_rhs_rejected() {
    let err = parse_ir(
        ";wasamo-ir v0\ncomponent C inherits W {\n\
         state count: i32 = 0\n\
         node Button { on clicked { (assign count [1]) } }\n}",
    )
    .unwrap_err();
    assert!(
        matches!(err, IrLoadError::Validate(ref m) if m.contains("list literals are valid only")),
        "{err:?}"
    );
}

#[test]
fn scalar_read_of_collection_state_rejected() {
    let err = parse_ir(
        ";wasamo-ir v0\ncomponent C inherits W {\n\
         state xs: i32[] = []\n\
         node Text { bind text = (prop-read xs) }\n}",
    )
    .unwrap_err();
    assert!(
        matches!(err, IrLoadError::Validate(ref m) if m.contains("scalar expression references collection state")),
        "{err:?}"
    );
}

#[test]
fn bare_collection_read_outside_for_header_rejected() {
    let err = parse_ir(
        ";wasamo-ir v0\ncomponent C inherits W {\n\
         state xs: i32[] = []\n\
         node Text { bind text = (list-prop-read xs) }\n}",
    )
    .unwrap_err();
    assert!(
        matches!(err, IrLoadError::Validate(ref m) if m.contains("collection reads are valid only")),
        "{err:?}"
    );
}

#[test]
fn prop_int_and_ident_and_str() {
    let c = parse_ok(
        ";wasamo-ir v0\ncomponent C inherits W {\n\
         node V {\n\
           prop spacing = 12\n\
           prop style = system\n\
           prop font = \"Hi\"\n\
         }\n}",
    );
    let props = &c.root.props;
    assert_eq!(props.len(), 3);
    assert_eq!( format!("{:?}", props[0]), format!("{:?}", IrProp {
            name: "spacing".into(),
            value: IrLiteral::Int(12)
        }));
    assert_eq!( format!("{:?}", props[1]), format!("{:?}", IrProp {
            name: "style".into(),
            value: IrLiteral::Ident("system".into())
        }));
    assert_eq!( format!("{:?}", props[2]), format!("{:?}", IrProp {
            name: "font".into(),
            value: IrLiteral::Str("Hi".into())
        }));
}

#[test]
fn host_prop_parses_on_component_surface() {
    let c = parse_ok(
        ";wasamo-ir v0\ncomponent C inherits W {\n\
         host prop title = \"Hi\"\n\
         host prop backdrop = mica\n\
         node V {}\n}",
    );
    assert!(c.root.props.is_empty());
    assert_eq!(c.host_props.len(), 2);
    assert_eq!(c.host_props[0].name, "title");
    assert_eq!( format!("{:?}", c.host_props[0].value), format!("{:?}", IrLiteral::Str("Hi".into())));
    assert_eq!(resolve_static_window_title(&c, "Wasamo"), "Hi");
}

#[test]
fn static_window_title_resolves_string_or_default() {
    let absent = parse_ok(";wasamo-ir v0\ncomponent C inherits W {\nnode V {}\n}");
    assert_eq!(resolve_static_window_title(&absent, "Wasamo"), "Wasamo");

    let empty = parse_ok(
        ";wasamo-ir v0\ncomponent C inherits W {\n\
         host prop title = \"\"\n\
         node V {}\n}",
    );
    assert_eq!(resolve_static_window_title(&empty, "Wasamo"), "Wasamo");

    let custom = parse_ok(
        ";wasamo-ir v0\ncomponent C inherits W {\n\
         host prop title = \"Gallery\"\n\
         node V {}\n}",
    );
    assert_eq!(resolve_static_window_title(&custom, "Wasamo"), "Gallery");
}

#[test]
fn static_window_title_rejects_non_string_host_prop() {
    let err = parse_ir(
        ";wasamo-ir v0\ncomponent C inherits W {\n\
         host prop title = 3\n\
         node V {}\n}",
    )
    .unwrap_err();
    assert!(matches!(err, IrLoadError::Validate(_)));
    assert!(
        err.message()
            .contains("host `title` prop must be a string"),
        "{}",
        err.message()
    );
}

#[test]
fn nested_nodes() {
    let c = parse_ok(
        ";wasamo-ir v0\ncomponent C inherits W {\n\
         node V {\n\
           node Text {}\n\
           node Button {}\n\
         }\n}",
    );
    assert_eq!(c.root.widget_type, "V");
    assert_eq!(c.root.children.len(), 2);
    assert_eq!(child_widget(&c.root, 0).widget_type, "Text");
    assert_eq!(child_widget(&c.root, 1).widget_type, "Button");
}

#[test]
fn control_flow_if_parses_as_member_with_single_widget_body() {
    let c = parse_ok(
        ";wasamo-ir v0\ncomponent C inherits W {\n\
         state ready: bool = true\n\
         node VStack {\n\
           if (bool-prop-read ready) { node Text { prop text = \"Shown\" } }\n\
         }\n}",
    );
    match &c.root.children[0] {
        IrMember::ControlFlow(ControlFlowNode::If { branches }) => {
            assert_eq!(branches.len(), 1);
            assert_eq!( format!("{:?}", branches[0].condition), format!("{:?}", HandlerExpr::BoolPropRead {
                    path: "ready".into()
                }));
            assert_eq!(branches[0].body.len(), 1);
            assert_eq!(
                match &branches[0].body[0] {
                    IrMember::Widget(slot) => slot.node.widget_type.as_str(),
                    other => panic!("expected widget body, got {other:?}"),
                },
                "Text"
            );
        }
        other => panic!("expected control-flow member, got {other:?}"),
    }
}

#[test]
fn control_flow_roundtrip_preserves_condition_and_body() {
    let source_ir = parse_ok(
        ";wasamo-ir v0\ncomponent C inherits W {\n\
         state ready: bool = false\n\
         node VStack { if (bool-prop-read ready) { node Text {} } }\n\
         }",
    );
    let reparsed = parse_ok(&render(&source_ir));
    assert_eq!( format!("{:?}", reparsed), format!("{:?}", source_ir));
}

#[test]
fn binding_with_prop_read() {
    let c = parse_ok(
        ";wasamo-ir v0\ncomponent C inherits W {\n\
         state count: i32 = 0\n\
         node V { bind text = (prop-read count) }\n}",
    );
    assert_eq!(c.root.bindings.len(), 1);
    let b = &c.root.bindings[0];
    assert_eq!(b.prop_name, "text");
    assert_eq!( format!("{:?}", b.expr), format!("{:?}", HandlerExpr::PropRead {
            path: "count".into()
        }));
}

#[test]
fn binding_with_str_prop_read() {
    let c = parse_ok(
        ";wasamo-ir v0\ncomponent C inherits W {\n\
         state label: string = \"hi\"\n\
         node V { bind text = (str-prop-read label) }\n}",
    );
    assert_eq!(c.root.bindings.len(), 1);
    let b = &c.root.bindings[0];
    assert_eq!(b.prop_name, "text");
    assert_eq!( format!("{:?}", b.expr), format!("{:?}", HandlerExpr::StrPropRead {
            path: "label".into()
        }));
}

#[test]
fn binding_with_interpolation() {
    let c = parse_ok(
        ";wasamo-ir v0\ncomponent C inherits W {\n\
         state count: i32 = 0\n\
         node V { bind text = (interp \"Count: \" ((prop-read count))) }\n}",
    );
    let b = &c.root.bindings[0];
    assert_eq!( format!("{:?}", b.expr), format!("{:?}", HandlerExpr::Interpolation(vec![
            InterpolationPart::Literal("Count: ".into()),
            InterpolationPart::Expr(HandlerExpr::PropRead {
                path: "count".into()
            }),
        ])));
}

#[test]
fn handler_with_compound_assign() {
    let c = parse_ok(
        ";wasamo-ir v0\ncomponent C inherits W {\n\
         state count: i32 = 0\n\
         node V { on clicked { (compound-assign += count 1) } }\n}",
    );
    assert_eq!(c.root.handlers.len(), 1);
    let h = &c.root.handlers[0];
    assert_eq!(h.signal, "clicked");
    assert_eq!( format!("{:?}", h.expr), format!("{:?}", HandlerExpr::CompoundAssign {
            op: CompoundOp::Add,
            lhs: "count".into(),
            rhs: Box::new(HandlerExpr::IntLit(1)),
        }));
}

#[test]
fn handler_with_assign_and_block() {
    let c = parse_ok(
        ";wasamo-ir v0\ncomponent C inherits W {\n\
         state x: i32 = 0\n\
         state y: i32 = 0\n\
         node V { on clicked { (block (assign x 1) (assign y 2)) } }\n}",
    );
    let h = &c.root.handlers[0];
    let HandlerExpr::Block(exprs) = &h.expr else {
        panic!("expected block, got {:?}", h.expr);
    };
    assert_eq!(exprs.len(), 2);
    assert_eq!( format!("{:?}", exprs[0]), format!("{:?}", HandlerExpr::Assign {
            lhs: "x".into(),
            rhs: Box::new(HandlerExpr::IntLit(1))
        }));
}

#[test]
fn state_bool_with_false_default() {
    let c = parse_ok(
        ";wasamo-ir v0\ncomponent C inherits W {\n\
         state ready: bool = false\n\
         node V {}\n}",
    );
    assert_eq!(c.states.len(), 1);
    assert_eq!(c.states[0].name, "ready");
    assert_eq!(c.states[0].ty, IrStateType::Scalar(IrType::Bool));
    assert_eq!( format!("{:?}", c.states[0].default), format!("{:?}", IrLiteral::Bool(false)));
}

#[test]
fn state_bool_with_true_default() {
    let c = parse_ok(
        ";wasamo-ir v0\ncomponent C inherits W {\n\
         state ready: bool = true\n\
         node V {}\n}",
    );
    assert_eq!(c.states[0].ty, IrStateType::Scalar(IrType::Bool));
    assert_eq!( format!("{:?}", c.states[0].default), format!("{:?}", IrLiteral::Bool(true)));
}

#[test]
fn prop_bool_literal() {
    let c = parse_ok(
        ";wasamo-ir v0\ncomponent C inherits W {\n\
         node Button {\n\
           prop enabled = true\n\
         }\n}",
    );
    let props = &c.root.props;
    assert_eq!( format!("{:?}", props[0]), format!("{:?}", IrProp {
            name: "enabled".into(),
            value: IrLiteral::Bool(true)
        }));
}

#[test]
fn binding_with_bool_prop_read() {
    let c = parse_ok(
        ";wasamo-ir v0\ncomponent C inherits W {\n\
         state ready: bool = false\n\
         node Button { bind enabled = (bool-prop-read ready) }\n}",
    );
    assert_eq!(c.root.bindings.len(), 1);
    let b = &c.root.bindings[0];
    assert_eq!(b.prop_name, "enabled");
    assert_eq!( format!("{:?}", b.expr), format!("{:?}", HandlerExpr::BoolPropRead {
            path: "ready".into()
        }));
}

#[test]
fn binding_with_bool_literal() {
    let c = parse_ok(
        ";wasamo-ir v0\ncomponent C inherits W {\n\
         node Button { bind enabled = true }\n}",
    );
    assert_eq!( format!("{:?}", c.root.bindings[0].expr), format!("{:?}", HandlerExpr::BoolLit(true)));
}

#[test]
fn handler_assign_bool_literal() {
    let c = parse_ok(
        ";wasamo-ir v0\ncomponent C inherits W {\n\
         state ready: bool = true\n\
         node Button { on clicked { (assign ready false) } }\n}",
    );
    let h = &c.root.handlers[0];
    assert_eq!( format!("{:?}", h.expr), format!("{:?}", HandlerExpr::Assign {
            lhs: "ready".into(),
            rhs: Box::new(HandlerExpr::BoolLit(false))
        }));
}

#[test]
fn handler_assign_bool_prop_read() {
    let c = parse_ok(
        ";wasamo-ir v0\ncomponent C inherits W {\n\
         state a: bool = false\n\
         state b: bool = true\n\
         node V { on clicked { (assign a (bool-prop-read b)) } }\n}",
    );
    let h = &c.root.handlers[0];
    assert_eq!( format!("{:?}", h.expr), format!("{:?}", HandlerExpr::Assign {
            lhs: "a".into(),
            rhs: Box::new(HandlerExpr::BoolPropRead { path: "b".into() })
        }));
}

#[test]
fn negative_int_literal() {
    let c = parse_ok(
        ";wasamo-ir v0\ncomponent C inherits W {\n\
         state x: i32 = -5\n\
         node V {}\n}",
    );
    assert_eq!( format!("{:?}", c.states[0].default), format!("{:?}", IrLiteral::Int(-5)));
}

#[test]
fn malformed_no_root_node() {
    let err = parse_err(";wasamo-ir v0\ncomponent C inherits W { }");
    assert!(matches!(err, IrLoadError::Parse(ref m) if m.contains("no root node")));
    assert_malformed_display_nonempty(&err);
}

#[test]
fn malformed_multiple_root_nodes() {
    let err = parse_err(";wasamo-ir v0\ncomponent C inherits W { node V {} node W {} }");
    assert!(matches!(err, IrLoadError::Parse(ref m) if m.contains("multiple root nodes")));
    assert_malformed_display_nonempty(&err);
}

#[test]
fn malformed_missing_component_keyword() {
    let err = parse_err(";wasamo-ir v0\nfoo C inherits W { node V {} }");
    assert!(matches!(err, IrLoadError::Parse(_)));
    assert_malformed_display_nonempty(&err);
}

#[test]
fn malformed_missing_inherits_keyword() {
    let err = parse_err(";wasamo-ir v0\ncomponent C foo W { node V {} }");
    assert!(matches!(err, IrLoadError::Parse(_)));
    assert_malformed_display_nonempty(&err);
}

#[test]
fn malformed_trailing_tokens() {
    let err = parse_err(";wasamo-ir v0\ncomponent C inherits W { node V {} } stray");
    assert!(matches!(err, IrLoadError::Parse(ref m) if m.contains("trailing tokens")));
    assert_malformed_display_nonempty(&err);
}

#[test]
fn malformed_propread_undeclared() {
    let err = parse_err(
        ";wasamo-ir v0\ncomponent C inherits W {\n\
         node V { bind text = (prop-read missing) }\n}",
    );
    assert!(matches!(err, IrLoadError::Validate(ref m) if m.contains("missing")));
    assert_malformed_display_nonempty(&err);
}

#[test]
fn malformed_bool_prop_read_undeclared() {
    let err = parse_err(
        ";wasamo-ir v0\ncomponent C inherits W {\n\
         node V { bind enabled = (bool-prop-read missing) }\n}",
    );
    assert!(matches!(err, IrLoadError::Validate(ref m) if m.contains("missing")));
    assert_malformed_display_nonempty(&err);
}

#[test]
fn malformed_assign_undeclared() {
    let err = parse_err(
        ";wasamo-ir v0\ncomponent C inherits W {\n\
         node V { on clicked { (assign nope 1) } }\n}",
    );
    assert!(matches!(err, IrLoadError::Validate(ref m) if m.contains("nope")));
    assert_malformed_display_nonempty(&err);
}

#[test]
fn malformed_compound_assign_undeclared() {
    let err = parse_err(
        ";wasamo-ir v0\ncomponent C inherits W {\n\
         node V { on clicked { (compound-assign += counter 1) } }\n}",
    );
    assert!(matches!(err, IrLoadError::Validate(ref m) if m.contains("counter")));
    assert_malformed_display_nonempty(&err);
}

#[test]
fn malformed_undeclared_inside_interpolation() {
    let err = parse_err(
        ";wasamo-ir v0\ncomponent C inherits W {\n\
         node V { bind text = (interp \"x: \" ((prop-read ghost))) }\n}",
    );
    assert!(matches!(err, IrLoadError::Validate(ref m) if m.contains("ghost")));
    assert_malformed_display_nonempty(&err);
}

#[test]
fn malformed_undeclared_inside_block() {
    let err = parse_err(
        ";wasamo-ir v0\ncomponent C inherits W {\n\
         state x: i32 = 0\n\
         node V { on clicked { (block (assign x 1) (assign y 2)) } }\n}",
    );
    assert!(matches!(err, IrLoadError::Validate(ref m) if m.contains("y")));
    assert_malformed_display_nonempty(&err);
}

#[test]
fn malformed_undeclared_in_child_node() {
    let err = parse_err(
        ";wasamo-ir v0\ncomponent C inherits W {\n\
         state count: i32 = 0\n\
         node Root {\n\
           node Inner { bind text = (prop-read missing) }\n\
         }\n}",
    );
    assert!(matches!(err, IrLoadError::Validate(ref m) if m.contains("missing")));
    assert_malformed_display_nonempty(&err);
}

#[test]
fn malformed_duplicate_state_name() {
    let err = parse_err(
        ";wasamo-ir v0\ncomponent C inherits W {\n\
         state count: i32 = 0\n\
         state count: string = \"hi\"\n\
         node V {}\n}",
    );
    assert!(matches!(err, IrLoadError::Validate(ref m) if m.contains("duplicate")));
    assert_malformed_display_nonempty(&err);
}

#[test]
fn validate_passes_with_all_references_declared() {
    let c = parse_ok(
        ";wasamo-ir v0\ncomponent C inherits W {\n\
         state count: i32 = 0\n\
         state label: string = \"hi\"\n\
         node Root {\n\
           node Text { bind text = (interp \"n=\" ((prop-read count))) }\n\
           node Button { on clicked { (compound-assign += count 1) } }\n\
         }\n}",
    );
    assert_eq!(c.states.len(), 2);
}

#[test]
fn header_error_is_malformed_class() {
    let err = parse_err("not-a-header\ncomponent C inherits W { node V {} }");
    assert!(matches!(err, IrLoadError::InvalidHeader(_)));
    assert_malformed_display_nonempty(&err);
}

#[test]
fn ratio_literal_in_prop_position() {
    let c = parse_ok(
        ";wasamo-ir v0\ncomponent C inherits W {\n\
         node Box { prop aspect = 16:9 }\n}",
    );
    assert_eq!(c.root.widget_type, "Box");
    assert_eq!(c.root.props.len(), 1);
    assert_eq!(c.root.props[0].name, "aspect");
    assert_eq!( format!("{:?}", c.root.props[0].value), format!("{:?}", IrLiteral::Ratio { num: 16, den: 9 }));
}

#[test]
fn color_literal_short_form_packs_implicit_alpha_ff() {
    let c = parse_ok(
        ";wasamo-ir v0\ncomponent C inherits W {\n\
         node Box { prop fill = #cccccc }\n}",
    );
    assert_eq!( format!("{:?}", c.root.props[0].value), format!("{:?}", IrLiteral::Color(0xFF_CC_CC_CC)));
}

#[test]
fn color_literal_long_form_carries_explicit_alpha() {
    let c = parse_ok(
        ";wasamo-ir v0\ncomponent C inherits W {\n\
         node Box { prop fill = #00000080 }\n}",
    );
    assert_eq!( format!("{:?}", c.root.props[0].value), format!("{:?}", IrLiteral::Color(0x80_00_00_00)));
}

#[test]
fn color_literal_long_form_with_full_rgba() {
    let c = parse_ok(
        ";wasamo-ir v0\ncomponent C inherits W {\n\
         node Box { prop fill = #11223344 }\n}",
    );
    assert_eq!( format!("{:?}", c.root.props[0].value), format!("{:?}", IrLiteral::Color(0x44_11_22_33)));
}

#[test]
fn color_must_be_six_or_eight_hex_digits() {
    let err = parse_err(
        ";wasamo-ir v0\ncomponent C inherits W {\n\
         node Box { prop fill = #aabbc }\n}",
    );
    assert!(matches!(err, IrLoadError::Parse(ref m) if m.contains("6 or 8 hex digits")));
    assert_malformed_display_nonempty(&err);
}

#[test]
fn malformed_ratio_outside_box_aspect_on_vstack() {
    let err = parse_err(
        ";wasamo-ir v0\ncomponent C inherits W {\n\
         node VStack { prop aspect = 16:9 }\n}",
    );
    assert!(
        matches!(err, IrLoadError::Validate(ref m) if m.contains("ratio") && m.contains("VStack"))
    );
    assert_malformed_display_nonempty(&err);
}

#[test]
fn malformed_ratio_on_box_wrong_prop_name() {
    let err = parse_err(
        ";wasamo-ir v0\ncomponent C inherits W {\n\
         node Box { prop spacing = 16:9 }\n}",
    );
    assert!(matches!(err, IrLoadError::Validate(ref m) if m.contains("ratio")));
    assert_malformed_display_nonempty(&err);
}

#[test]
fn malformed_color_outside_box_fill_on_text() {
    let err = parse_err(
        ";wasamo-ir v0\ncomponent C inherits W {\n\
         node Text { prop fill = #cccccc }\n}",
    );
    assert!(
        matches!(err, IrLoadError::Validate(ref m) if m.contains("color") && m.contains("Text"))
    );
    assert_malformed_display_nonempty(&err);
}

#[test]
fn malformed_color_on_box_wrong_prop_name() {
    let err = parse_err(
        ";wasamo-ir v0\ncomponent C inherits W {\n\
         node Box { prop aspect = #cccccc }\n}",
    );
    assert!(matches!(err, IrLoadError::Validate(ref m) if m.contains("color")));
    assert_malformed_display_nonempty(&err);
}

#[test]
fn malformed_ratio_in_nested_node() {
    let err = parse_err(
        ";wasamo-ir v0\ncomponent C inherits W {\n\
         node Box {\n\
           node VStack { prop aspect = 4:3 }\n\
         }\n}",
    );
    assert!(matches!(err, IrLoadError::Validate(ref m) if m.contains("ratio")));
    assert_malformed_display_nonempty(&err);
}

#[test]
fn malformed_box_with_two_children() {
    let err = parse_err(
        ";wasamo-ir v0\ncomponent C inherits W {\n\
         node Box {\n\
           node Text {}\n\
           node Text {}\n\
         }\n}",
    );
    assert!(
        matches!(err, IrLoadError::Validate(ref m) if m.contains("Box") && m.contains("at most one child"))
    );
    assert_malformed_display_nonempty(&err);
}

#[test]
fn box_with_zero_children_is_valid() {
    let c = parse_ok(
        ";wasamo-ir v0\ncomponent C inherits W {\n\
         node Box { prop fill = #cccccc }\n}",
    );
    assert!(c.root.children.is_empty());
}

#[test]
fn box_with_single_child_is_valid() {
    let c = parse_ok(
        ";wasamo-ir v0\ncomponent C inherits W {\n\
         node Box { node Text { prop text = \"hi\" } }\n}",
    );
    assert_eq!(c.root.children.len(), 1);
    assert_eq!(child_widget(&c.root, 0).widget_type, "Text");
}

#[test]
fn validate_rejects_button_with_widget_child() {
    assert_validate_err(
        ";wasamo-ir v0\ncomponent C inherits W {\n\
         node Button { node Text {} }\n\
         }",
        "`Button` node accepts no children, got 1 (layout arranges it as a single rectangle",
    );
}

#[test]
fn validate_rejects_togglebutton_with_widget_child() {
    assert_validate_err(
        ";wasamo-ir v0\ncomponent C inherits W {\n\
         node ToggleButton { node Text {} }\n\
         }",
        "`ToggleButton` node accepts no children, got 1 (layout arranges it as a single rectangle",
    );
}

#[test]
fn validate_rejects_text_with_widget_child() {
    assert_validate_err(
        ";wasamo-ir v0\ncomponent C inherits W {\n\
         node Text { node Text {} }\n\
         }",
        "`Text` node accepts no children, got 1 (layout arranges it as a single rectangle",
    );
}

#[test]
fn validate_rejects_rectangle_with_widget_child() {
    assert_validate_err(
        ";wasamo-ir v0\ncomponent C inherits W {\n\
         node Rectangle { node Text {} }\n\
         }",
        "`Rectangle` node accepts no children, got 1 (layout arranges it as a single rectangle",
    );
}

#[test]
fn childless_button_is_valid() {
    let c = parse_ok(
        ";wasamo-ir v0\ncomponent C inherits W {\n\
         node Button { prop text = \"hi\" }\n}",
    );
    assert!(c.root.children.is_empty());
}

#[test]
fn vstack_with_widget_child_is_valid() {
    let c = parse_ok(
        ";wasamo-ir v0\ncomponent C inherits W {\n\
         node VStack { node Text {} }\n}",
    );
    assert_eq!(c.root.children.len(), 1);
}

#[test]
fn wrap_panel_zero_children_is_valid() {
    let c = parse_ok(
        ";wasamo-ir v0\ncomponent C inherits W {\n\
         node WrapPanel {}\n}",
    );
    assert_eq!(c.root.widget_type, "WrapPanel");
    assert!(c.root.children.is_empty());
}

#[test]
fn wrap_panel_single_child_is_valid() {
    let c = parse_ok(
        ";wasamo-ir v0\ncomponent C inherits W {\n\
         node WrapPanel { node Text { prop text = \"hi\" } }\n}",
    );
    assert_eq!(c.root.children.len(), 1);
    assert_eq!(child_widget(&c.root, 0).widget_type, "Text");
}

#[test]
fn wrap_panel_multi_child_is_valid() {
    let c = parse_ok(
        ";wasamo-ir v0\ncomponent C inherits W {\n\
         node WrapPanel {\n\
           node Text {}\n\
           node Text {}\n\
           node Text {}\n\
           node Text {}\n\
         }\n}",
    );
    assert_eq!(c.root.children.len(), 4);
}

#[test]
fn wrap_panel_rejects_negative_item_cross_size() {
    let err = parse_err(
        ";wasamo-ir v0\ncomponent C inherits W {\n\
         node WrapPanel { prop item-cross-size = -1 }\n}",
    );
    assert!(
        matches!(err, IrLoadError::Validate(ref m) if m.contains("item-cross-size") && m.contains("non-negative"))
    );
    assert_malformed_display_nonempty(&err);
}

#[test]
fn wrap_panel_rejects_negative_item_spacing() {
    let err = parse_err(
        ";wasamo-ir v0\ncomponent C inherits W {\n\
         node WrapPanel { prop item-spacing = -5 }\n}",
    );
    assert!(
        matches!(err, IrLoadError::Validate(ref m) if m.contains("item-spacing") && m.contains("non-negative"))
    );
    assert_malformed_display_nonempty(&err);
}

#[test]
fn wrap_panel_rejects_negative_line_spacing() {
    let err = parse_err(
        ";wasamo-ir v0\ncomponent C inherits W {\n\
         node WrapPanel { prop line-spacing = -10 }\n}",
    );
    assert!(
        matches!(err, IrLoadError::Validate(ref m) if m.contains("line-spacing") && m.contains("non-negative"))
    );
    assert_malformed_display_nonempty(&err);
}

#[test]
fn wrap_panel_accepts_zero_on_all_three_attributes() {
    let c = parse_ok(
        ";wasamo-ir v0\ncomponent C inherits W {\n\
         node WrapPanel {\n\
           prop item-cross-size = 0\n\
           prop item-spacing = 0\n\
           prop line-spacing = 0\n\
         }\n}",
    );
    assert_eq!(c.root.widget_type, "WrapPanel");
}

#[test]
fn wrap_panel_accepts_positive_values_on_all_three_attributes() {
    let c = parse_ok(
        ";wasamo-ir v0\ncomponent C inherits W {\n\
         node WrapPanel {\n\
           prop item-cross-size = 96\n\
           prop item-spacing = 8\n\
           prop line-spacing = 12\n\
         }\n}",
    );
    assert_eq!(c.root.props.len(), 3);
}

#[test]
fn wrap_panel_negative_value_in_nested_node_is_rejected() {
    let err = parse_err(
        ";wasamo-ir v0\ncomponent C inherits W {\n\
         node VStack {\n\
           node WrapPanel { prop item-spacing = -3 }\n\
         }\n}",
    );
    assert!(matches!(err, IrLoadError::Validate(ref m) if m.contains("item-spacing")));
    assert_malformed_display_nonempty(&err);
}

#[test]
fn ratio_lex_requires_colon_immediately_after_digits() {
    let c = parse_ok(
        ";wasamo-ir v0\ncomponent C inherits W {\n\
         node VStack { prop spacing = 12 node Text {} }\n}",
    );
    assert_eq!( format!("{:?}", c.root.props[0].value), format!("{:?}", IrLiteral::Int(12)));
    assert_eq!(c.root.children.len(), 1);
}

#[test]
fn scroll_view_with_single_child_is_valid() {
    let c = parse_ok(
        ";wasamo-ir v0\ncomponent C inherits W {\n\
         node ScrollView { node Box {} }\n}",
    );
    assert_eq!(c.root.widget_type, "ScrollView");
    assert_eq!(c.root.children.len(), 1);
    assert_eq!(child_widget(&c.root, 0).widget_type, "Box");
}

#[test]
fn scroll_view_with_zero_children_rejected() {
    let err = parse_err(
        ";wasamo-ir v0\ncomponent C inherits W {\n\
         node ScrollView {}\n}",
    );
    assert!(
        matches!(err, IrLoadError::Validate(ref m) if m.contains("ScrollView") && m.contains("exactly one"))
    );
    assert_malformed_display_nonempty(&err);
}

#[test]
fn scroll_view_with_two_children_rejected() {
    let err = parse_err(
        ";wasamo-ir v0\ncomponent C inherits W {\n\
         node ScrollView {\n\
           node Box {}\n\
           node Box {}\n\
         }\n}",
    );
    assert!(
        matches!(err, IrLoadError::Validate(ref m) if m.contains("ScrollView") && m.contains("exactly one"))
    );
    assert_malformed_display_nonempty(&err);
}

#[test]
fn scroll_view_with_three_children_rejected() {
    let err = parse_err(
        ";wasamo-ir v0\ncomponent C inherits W {\n\
         node ScrollView {\n\
           node Box {}\n\
           node Box {}\n\
           node Box {}\n\
         }\n}",
    );
    assert!(
        matches!(err, IrLoadError::Validate(ref m) if m.contains("ScrollView") && m.contains("exactly one"))
    );
    assert_malformed_display_nonempty(&err);
}

#[test]
fn scroll_view_nested_zero_child_is_rejected() {
    let err = parse_err(
        ";wasamo-ir v0\ncomponent C inherits W {\n\
         node VStack {\n\
           node ScrollView {}\n\
         }\n}",
    );
    assert!(
        matches!(err, IrLoadError::Validate(ref m) if m.contains("ScrollView") && m.contains("exactly one"))
    );
    assert_malformed_display_nonempty(&err);
}

#[test]
fn scroll_view_accepts_negative_offset_y_literal() {
    let c = parse_ok(
        ";wasamo-ir v0\ncomponent C inherits W {\n\
         node ScrollView { prop offset-y = -5 node Box {} }\n}",
    );
    let offset = c
        .root
        .props
        .iter()
        .find(|p| p.name == "offset-y")
        .expect("offset-y prop");
    assert_eq!( format!("{:?}", offset.value), format!("{:?}", IrLiteral::Int(-5)));
}

#[test]
fn scroll_view_accepts_very_large_offset_y_literal() {
    let c = parse_ok(
        ";wasamo-ir v0\ncomponent C inherits W {\n\
         node ScrollView { prop offset-y = 2000000 node Box {} }\n}",
    );
    let offset = c
        .root
        .props
        .iter()
        .find(|p| p.name == "offset-y")
        .expect("offset-y prop");
    assert_eq!( format!("{:?}", offset.value), format!("{:?}", IrLiteral::Int(2_000_000)));
}

#[test]
fn scroll_view_accepts_offset_y_state_binding() {
    let c = parse_ok(
        ";wasamo-ir v0\ncomponent C inherits W {\n\
         state scroll_y: i32 = 0\n\
         node ScrollView { bind offset-y = (prop-read scroll_y) node Box {} }\n}",
    );
    assert_eq!(c.root.widget_type, "ScrollView");
    assert_eq!(c.root.bindings.len(), 1);
    assert_eq!(c.root.bindings[0].prop_name, "offset-y");
}

#[test]
fn ratio_lex_does_not_capture_state_colon() {
    let c = parse_ok(
        ";wasamo-ir v0\ncomponent C inherits W {\n\
         state count: i32 = 0\n\
         node V {}\n}",
    );
    assert_eq!(c.states.len(), 1);
    assert_eq!( format!("{:?}", c.states[0].default), format!("{:?}", IrLiteral::Int(0)));
}

#[test]
fn grid_tracks_parse_into_kind_payload() {
    let c = parse_ok(
        ";wasamo-ir v0\ncomponent C inherits W {\n\
         node Grid {\n\
           tracks columns = 180 1* 2*\n\
           tracks rows = 1* 1*\n\
           child { placement grid { row: 0, column: 0 } node Text {} }\n\
         }\n}",
    );
    assert_eq!(c.root.widget_type, "Grid");
    match c.root.kind_payload.as_ref().expect("Grid kind_payload") {
        KindPayload::Grid { columns, rows } => {
            assert_eq!(
                columns,
                &[
                    TrackSize::Fixed(180),
                    TrackSize::Star(1),
                    TrackSize::Star(2)
                ]
            );
            assert_eq!(rows, &[TrackSize::Star(1), TrackSize::Star(1)]);
        }
    }
    assert!(c
        .root
        .props
        .iter()
        .all(|p| p.name != "columns" && p.name != "rows"));
}

#[test]
fn grid_bare_star_parses_as_unit_weight() {
    let c = parse_ok(
        ";wasamo-ir v0\ncomponent C inherits W {\n\
         node Grid {\n\
           tracks columns = *\n\
           tracks rows = *\n\
           child { placement grid { row: 0, column: 0 } node Text {} }\n\
         }\n}",
    );
    match c.root.kind_payload.as_ref().unwrap() {
        KindPayload::Grid { columns, rows } => {
            assert_eq!(columns, &[TrackSize::Star(1)]);
            assert_eq!(rows, &[TrackSize::Star(1)]);
        }
    }
}

#[test]
fn non_grid_node_has_no_kind_payload() {
    let c = parse_ok(";wasamo-ir v0\ncomponent C inherits W { node VStack {} }");
    assert!(c.root.kind_payload.is_none());
}

#[test]
fn star_compound_assign_still_lexes() {
    let c = parse_ok(
        ";wasamo-ir v0\ncomponent C inherits W {\n\
         state count: i32 = 0\n\
         node Button { on click { (compound-assign *= count 2) } }\n}",
    );
    assert_eq!(c.root.handlers.len(), 1);
}

#[test]
fn child_slot_missing_node_rejected_at_parse() {
    assert_parse_err(
        &valid_grid_src("child { placement grid { row: 0, column: 0 } }"),
        "child slot missing `node` block",
    );
}

#[test]
fn child_slot_duplicate_node_rejected_at_parse() {
    assert_parse_err(
        &valid_grid_src("child { node Text {} node Text {} }"),
        "duplicate `node` block in child slot",
    );
}

#[test]
fn child_slot_duplicate_placement_rejected_at_parse() {
    assert_parse_err(
        &valid_grid_src(
            "child { placement grid { row: 0, column: 0 } placement grid { row: 0, column: 0 } node Text {} }",
        ),
        "duplicate `placement` block in child slot",
    );
}

#[test]
fn child_slot_unknown_placement_kind_rejected_at_parse() {
    assert_parse_err(
        &valid_grid_src("child { placement overlay {} node Text {} }"),
        "unknown placement kind `overlay`",
    );
}

#[test]
fn child_slot_unexpected_token_rejected_at_parse() {
    assert_parse_err(
        &valid_grid_src("child { prop text = \"x\" node Text {} }"),
        "unexpected token in child slot",
    );
}

#[test]
fn grid_slot_unknown_key_rejected_at_parse() {
    assert_parse_err(
        &valid_grid_src(&grid_child("row: 0, column: 0, layer: 1")),
        "unknown grid placement key `layer`",
    );
}

#[test]
fn grid_slot_duplicate_key_rejected_at_parse() {
    assert_parse_err(
        &valid_grid_src(&grid_child("row: 0, row: 1, column: 0")),
        "duplicate grid placement key `row`",
    );
}

#[test]
fn grid_positive_control_validates() {
    let c = parse_ok(
        ";wasamo-ir v0\ncomponent C inherits W {\n\
         node Grid {\n\
           tracks columns = 180 1* 2*\n\
           tracks rows = 1* 1*\n\
           child { placement grid { row: 0, column: 0, column-span: 3 } node Text {} }\n\
           child { placement grid { row: 1, column: 0 } node Text {} }\n\
           child { placement grid { row: 1, column: 1, h-align: center } node Text {} }\n\
           child { placement grid { row: 1, column: 2 } node Text {} }\n\
         }\n}",
    );
    assert_eq!(c.root.children.len(), 4);
}

#[test]
fn grid_missing_column_track_rejected() {
    assert_validate_err(
        ";wasamo-ir v0\ncomponent C inherits W {\n\
         node Grid {\n\
           tracks rows = 1*\n\
           child { placement grid { row: 0, column: 0 } node Text {} }\n\
         }\n}",
        "at least one column track",
    );
}

#[test]
fn grid_missing_row_track_rejected() {
    assert_validate_err(
        ";wasamo-ir v0\ncomponent C inherits W {\n\
         node Grid {\n\
           tracks columns = 1*\n\
           child { placement grid { row: 0, column: 0 } node Text {} }\n\
         }\n}",
        "at least one row track",
    );
}

#[test]
fn grid_zero_fixed_track_rejected() {
    assert_validate_err(
        ";wasamo-ir v0\ncomponent C inherits W {\n\
         node Grid {\n\
           tracks columns = 0\n\
           tracks rows = 1*\n\
           child { placement grid { row: 0, column: 0 } node Text {} }\n\
         }\n}",
        "fixed track size must be a positive integer",
    );
}

#[test]
fn grid_star_weight_over_cap_rejected() {
    assert_validate_err(
        ";wasamo-ir v0\ncomponent C inherits W {\n\
         node Grid {\n\
           tracks columns = 1025*\n\
           tracks rows = 1*\n\
           child { placement grid { row: 0, column: 0 } node Text {} }\n\
         }\n}",
        "star weight must be in [1, 1024]",
    );
}

#[test]
fn grid_cell_column_out_of_range_rejected() {
    assert_validate_err(
        &valid_grid_src(&grid_child("row: 0, column: 2")),
        "`Grid` child placement `column` 2 is out of range [0, 2)",
    );
}

#[test]
fn grid_cell_row_out_of_range_rejected() {
    assert_validate_err(
        &valid_grid_src(&grid_child("row: 5, column: 0")),
        "`Grid` child placement `row` 5 is out of range [0, 2)",
    );
}

#[test]
fn grid_cell_zero_span_rejected() {
    assert_parse_err(
        &valid_grid_src(
            "child { placement grid { row: 0, column: 0, column-span: 0 } node Text {} }",
        ),
        "grid.column-span",
    );
}

#[test]
fn grid_slot_negative_row_rejected_at_parse() {
    assert_parse_err(
        &valid_grid_src(
            "child { placement grid { row: -1, column: 0, column-span: 1 } node Text {} }",
        ),
        "grid.row",
    );
}

#[test]
fn grid_cell_span_exceeds_grid_rejected() {
    assert_validate_err(
        &valid_grid_src(
            "child { placement grid { row: 0, column: 1, column-span: 2 } node Text {} }",
        ),
        "column span exceeds the grid",
    );
}

#[test]
fn grid_legacy_cell_zero_content_children_rejected_as_stale_ir() {
    assert_validate_err(
        &valid_grid_src("node Cell { prop row = 0 prop column = 0 }"),
        "legacy-placement-ir-form",
    );
}

#[test]
fn grid_legacy_cell_two_content_children_rejected_as_stale_ir() {
    assert_validate_err(
        &valid_grid_src("node Cell { prop row = 0 prop column = 0 node Text {} node Text {} }"),
        "legacy-placement-ir-form",
    );
}

#[test]
fn grid_same_cell_conflict_rejected() {
    assert_validate_err(
        &valid_grid_src(
            "child { placement grid { row: 0, column: 0 } node Text {} }\n\
             child { placement grid { row: 0, column: 0 } node Text {} }",
        ),
        "overlaps an earlier Grid child rectangle",
    );
}

#[test]
fn grid_overlapping_span_conflict_rejected() {
    assert_validate_err(
        &valid_grid_src(
            "child { placement grid { row: 0, column: 0, column-span: 2 } node Text {} }\n\
             child { placement grid { row: 0, column: 1 } node Text {} }",
        ),
        "overlaps an earlier Grid child rectangle",
    );
}

#[test]
fn grid_multi_cell_omitted_placement_collides_at_origin() {
    assert_validate_err(
        &valid_grid_src(
            "child { node Text {} }\n\
             child { node Text {} }",
        ),
        "overlaps an earlier Grid child rectangle",
    );
}

#[test]
fn grid_cell_unknown_alignment_rejected() {
    assert_parse_err(
        &valid_grid_src(
            "child { placement grid { row: 0, column: 0, h-align: middle } node Text {} }",
        ),
        "grid.h-align",
    );
}

#[test]
fn grid_slot_non_keyword_alignment_rejected_at_parse() {
    assert_parse_err(
        &valid_grid_src(
            "child { placement grid { row: 0, column: 0, h-align: 5 } node Text {} }",
        ),
        "grid.h-align",
    );
}

#[test]
fn grid_direct_child_without_placement_defaults_to_origin() {
    let c = parse_ok(
        ";wasamo-ir v0\ncomponent C inherits W {\n\
         node Grid {\n\
           tracks columns = 1*\n\
           tracks rows = 1*\n\
           node Text {}\n\
         }\n}",
    );
    assert_eq!(c.root.children.len(), 1);
}

#[test]
fn grid_rejects_zstack_slot_data() {
    assert_validate_err(
        &valid_grid_src(
            "child { placement zstack { h-align: center, v-align: center } node Text {} }",
        ),
        "`placement zstack` is not valid on a Grid child",
    );
}

#[test]
fn cell_outside_grid_rejected() {
    assert_validate_err(
        ";wasamo-ir v0\ncomponent C inherits W {\n\
         node VStack { node Cell { prop row = 0 prop column = 0 node Text {} } }\n}",
        "`Cell` is only valid as a direct child of a `Grid`",
    );
}

#[test]
fn grid_node_without_tracks_rejected() {
    assert_validate_err(
        ";wasamo-ir v0\ncomponent C inherits W { node Grid {} }",
        "requires `columns:` and `rows:` track lists",
    );
}

#[test]
fn tracks_on_non_grid_node_rejected_at_parse() {
    let err = parse_err(
        ";wasamo-ir v0\ncomponent C inherits W {\n\
         node Text { tracks columns = 1* tracks rows = 1* }\n}",
    );
    match err {
        IrLoadError::Parse(msg) => assert!(
            msg.contains("`tracks` track list is only valid on a `Grid` node"),
            "got: {msg}"
        ),
        other => panic!("expected Parse error, got {other:?}"),
    }
}

#[test]
fn validate_rejects_non_grid_kind_payload() {
    let comp = IrComponent {
        name: "C".into(),
        base: "W".into(),
        host_props: vec![],
        host_bindings: vec![],
        states: vec![],
        root: IrNode {
            widget_type: "Text".into(),
            props: vec![],
            bindings: vec![],
            handlers: vec![],
            children: vec![],
            kind_payload: Some(KindPayload::Grid {
                columns: vec![TrackSize::Star(1)],
                rows: vec![TrackSize::Star(1)],
            }),
        },
    };
    match validate(&comp) {
        Err(IrLoadError::Validate(msg)) => {
            assert!(msg.contains("only valid on a `Grid` node"), "got: {msg}")
        }
        other => panic!("expected Validate error, got {other:?}"),
    }
}

#[test]
fn validate_rejects_cell_with_kind_payload() {
    let cell = IrNode {
        widget_type: "Cell".into(),
        props: vec![
            IrProp {
                name: "row".into(),
                value: IrLiteral::Int(0),
            },
            IrProp {
                name: "column".into(),
                value: IrLiteral::Int(0),
            },
        ],
        bindings: vec![],
        handlers: vec![],
        children: vec![IrMember::Widget(child_slot(IrNode {
            widget_type: "Text".into(),
            props: vec![],
            bindings: vec![],
            handlers: vec![],
            children: vec![],
            kind_payload: None,
        }))],
        kind_payload: Some(KindPayload::Grid {
            columns: vec![TrackSize::Star(1)],
            rows: vec![TrackSize::Star(1)],
        }),
    };
    let comp = IrComponent {
        name: "C".into(),
        base: "W".into(),
        host_props: vec![],
        host_bindings: vec![],
        states: vec![],
        root: IrNode {
            widget_type: "Grid".into(),
            props: vec![],
            bindings: vec![],
            handlers: vec![],
            children: vec![IrMember::Widget(child_slot(cell))],
            kind_payload: Some(KindPayload::Grid {
                columns: vec![TrackSize::Star(1)],
                rows: vec![TrackSize::Star(1)],
            }),
        },
    };
    match validate(&comp) {
        Err(IrLoadError::Validate(msg)) => {
            assert!(msg.contains("legacy-placement-ir-form"), "got: {msg}")
        }
        other => panic!("expected Validate error, got {other:?}"),
    }
}

#[test]
fn zstack_positive_control_validates_direct_children() {
    let c = parse_ok(
        ";wasamo-ir v0\ncomponent C inherits W {\n\
         node ZStack {\n\
           node Box { prop fill = #336699cc }\n\
           child { placement zstack { h-align: end, v-align: start } node Text { prop text = \"caption\" } }\n\
         }\n}",
    );
    assert_eq!(c.root.widget_type, "ZStack");
    assert_eq!(c.root.children.len(), 2);
}

#[test]
fn zstack_slot_unknown_key_rejected_at_parse() {
    assert_parse_err(
        ";wasamo-ir v0\ncomponent C inherits W {\n\
         node ZStack { child { placement zstack { h-align: center, layer: 1 } node Text {} } }\n\
         }",
        "unknown zstack placement key `layer`",
    );
}

#[test]
fn togglebutton_checked_literal_validates() {
    let c = parse_ok(
        ";wasamo-ir v0\ncomponent C inherits W {\n\
         node ToggleButton { prop text = \"All\" prop checked = true }\n\
         }",
    );
    validate(&c).expect("ToggleButton checked literal must validate");
}

#[test]
fn togglebutton_checked_binding_validates() {
    let c = parse_ok(
        ";wasamo-ir v0\ncomponent C inherits W {\n\
         state selected: bool = true\n\
         node ToggleButton { bind checked = (bool-prop-read selected) }\n\
         }",
    );
    validate(&c).expect("ToggleButton checked bool binding must validate");
}

#[test]
fn validate_rejects_checked_on_button_runtime_ir() {
    assert_validate_err(
        ";wasamo-ir v0\ncomponent C inherits W {\n\
         node Button { prop checked = true }\n\
         }",
        "`checked` is only valid on ToggleButton",
    );
}

#[test]
fn validate_rejects_checked_on_text_runtime_ir() {
    assert_validate_err(
        ";wasamo-ir v0\ncomponent C inherits W {\n\
         node Text { prop checked = true }\n\
         }",
        "`checked` is only valid on ToggleButton",
    );
}

#[test]
fn validate_rejects_checked_binding_on_button_runtime_ir() {
    assert_validate_err(
        ";wasamo-ir v0\ncomponent C inherits W {\n\
         state selected: bool = true\n\
         node Button { bind checked = (bool-prop-read selected) }\n\
         }",
        "`checked` binding is only valid on ToggleButton",
    );
}

#[test]
fn validate_rejects_checked_binding_on_text_runtime_ir() {
    assert_validate_err(
        ";wasamo-ir v0\ncomponent C inherits W {\n\
         state selected: bool = true\n\
         node Text { bind checked = (bool-prop-read selected) }\n\
         }",
        "`checked` binding is only valid on ToggleButton",
    );
}

#[test]
fn validate_rejects_togglebutton_unknown_attr_runtime_ir() {
    assert_validate_err(
        ";wasamo-ir v0\ncomponent C inherits W {\n\
         node ToggleButton { prop selected = true }\n\
         }",
        "unknown ToggleButton attribute `selected`",
    );
}

#[test]
fn validate_rejects_togglebutton_unknown_binding_runtime_ir() {
    assert_validate_err(
        ";wasamo-ir v0\ncomponent C inherits W {\n\
         state selected: bool = true\n\
         node ToggleButton { bind selected = (bool-prop-read selected) }\n\
         }",
        "unknown ToggleButton binding `selected`",
    );
}

#[test]
fn validate_rejects_togglebutton_style_binding_runtime_ir() {
    assert_validate_err(
        ";wasamo-ir v0\ncomponent C inherits W {\n\
         state style_id: i32 = 1\n\
         node ToggleButton { bind style = (prop-read style_id) }\n\
         }",
        "ToggleButton.style is not bindable",
    );
}

#[test]
fn validate_rejects_togglebutton_text_non_str_literal_runtime_ir() {
    assert_validate_err(
        ";wasamo-ir v0\ncomponent C inherits W {\n\
         node ToggleButton { prop text = true }\n\
         }",
        "ToggleButton.text must be a `string` literal",
    );
}

#[test]
fn validate_rejects_togglebutton_style_non_ident_literal_runtime_ir() {
    assert_validate_err(
        ";wasamo-ir v0\ncomponent C inherits W {\n\
         node ToggleButton { prop style = 1 }\n\
         }",
        "ToggleButton.style must be a keyword identifier",
    );
}

#[test]
fn validate_rejects_togglebutton_enabled_non_bool_literal_runtime_ir() {
    assert_validate_err(
        ";wasamo-ir v0\ncomponent C inherits W {\n\
         node ToggleButton { prop enabled = 1 }\n\
         }",
        "ToggleButton.enabled must be a `bool` literal",
    );
}

#[test]
fn validate_rejects_togglebutton_checked_non_bool_literal_runtime_ir() {
    assert_validate_err(
        ";wasamo-ir v0\ncomponent C inherits W {\n\
         node ToggleButton { prop checked = 1 }\n\
         }",
        "ToggleButton.checked must be a `bool` literal",
    );
}

#[test]
fn validate_rejects_togglebutton_checked_non_bool_binding_runtime_ir() {
    assert_validate_err(
        ";wasamo-ir v0\ncomponent C inherits W {\n\
         state index: i32 = 0\n\
         node ToggleButton { bind checked = (prop-read index) }\n\
         }",
        "binding `ToggleButton.checked` must resolve to `bool`",
    );
}

#[test]
fn validate_rejects_togglebutton_checked_wrong_read_tag_runtime_ir() {
    assert_validate_err(
        ";wasamo-ir v0\ncomponent C inherits W {\n\
         state selected: bool = true\n\
         node ToggleButton { bind checked = (str-prop-read selected) }\n\
         }",
        "binding `ToggleButton.checked` must resolve to `bool`",
    );
}

#[test]
fn validate_accepts_togglebutton_checked_loop_item_binding_runtime_ir() {
    let c = parse_ok(
        ";wasamo-ir v0\ncomponent C inherits W {\n\
         state flags: bool[] = [true, false]\n\
         node WrapPanel { for flag in flags { node ToggleButton { bind checked = (item-read flag) } } }\n\
         }",
    );
    validate(&c).expect("ToggleButton.checked may bind a bool loop item");
}

#[test]
fn validate_accepts_togglebutton_text_loop_item_binding_runtime_ir() {
    let c = parse_ok(
        ";wasamo-ir v0\ncomponent C inherits W {\n\
         state labels: string[] = [\"All\", \"Albums\"]\n\
         node WrapPanel { for label in labels { node ToggleButton { bind text = (item-read label) } } }\n\
         }",
    );
    validate(&c).expect("ToggleButton.text may bind a string loop item");
}

#[test]
fn validate_accepts_togglebutton_text_loop_item_interpolation_runtime_ir() {
    let c = parse_ok(
        ";wasamo-ir v0\ncomponent C inherits W {\n\
         state labels: string[] = [\"All\", \"Albums\"]\n\
         node WrapPanel { for label in labels { node ToggleButton { bind text = (interp \"Tab \" ((item-read label))) } } }\n\
         }",
    );
    validate(&c).expect("ToggleButton.text interpolation may read a string loop item");
}

#[test]
fn validate_rejects_togglebutton_checked_loop_index_binding_runtime_ir() {
    assert_validate_err(
        ";wasamo-ir v0\ncomponent C inherits W {\n\
         state flags: bool[] = [true, false]\n\
         node WrapPanel { for flag, i in flags { node ToggleButton { bind checked = (index-read i) } } }\n\
         }",
        "loop index binder cannot be used in a bool binding",
    );
}

#[test]
fn zstack_slot_duplicate_key_rejected_at_parse() {
    assert_parse_err(
        ";wasamo-ir v0\ncomponent C inherits W {\n\
         node ZStack { child { placement zstack { h-align: center, h-align: end } node Text {} } }\n\
         }",
        "duplicate zstack placement key `h-align`",
    );
}

#[test]
fn zstack_rejects_grid_slot_data() {
    assert_validate_err(
        ";wasamo-ir v0\ncomponent C inherits W {\n\
         node ZStack { child { placement grid { row: 0, column: 0 } node Text {} } }\n\
         }",
        "`placement grid` is not valid on a ZStack child",
    );
}

#[test]
fn zstack_legacy_bare_child_placement_rejected_as_stale_ir() {
    assert_validate_err(
        ";wasamo-ir v0\ncomponent C inherits W {\n\
         node ZStack { node Text { prop h-align = end } }\n\
         }",
        "legacy-placement-ir-form",
    );
}

#[test]
fn zstack_zero_children_validates() {
    let c = parse_ok(";wasamo-ir v0\ncomponent C inherits W { node ZStack {} }");
    assert_eq!(c.root.widget_type, "ZStack");
    assert!(c.root.children.is_empty());
}

#[test]
fn validate_rejects_if_with_non_bool_condition() {
    assert_validate_err(
        ";wasamo-ir v0\ncomponent C inherits W {\n\
         state count: i32 = 0\n\
         node VStack { if (prop-read count) { node Text {} } }\n\
         }",
        "must use a bool condition",
    );
}

#[test]
fn validate_rejects_if_with_bool_read_resolving_to_non_bool_state() {
    assert_validate_err(
        ";wasamo-ir v0\ncomponent C inherits W {\n\
         state count: i32 = 0\n\
         node VStack { if (bool-prop-read count) { node Text {} } }\n\
         }",
        "must resolve to bool",
    );
}

#[test]
fn validate_rejects_if_with_unresolved_condition() {
    assert_validate_err(
        ";wasamo-ir v0\ncomponent C inherits W {\n\
         node VStack { if (bool-prop-read missing) { node Text {} } }\n\
         }",
        "undeclared name",
    );
}

#[test]
fn validate_rejects_if_with_empty_body() {
    assert_validate_err(
        ";wasamo-ir v0\ncomponent C inherits W {\n\
         node VStack { if true { } }\n\
         }",
        "exactly one widget member",
    );
}

#[test]
fn validate_rejects_if_with_multi_child_body() {
    assert_validate_err(
        ";wasamo-ir v0\ncomponent C inherits W {\n\
         node VStack { if true { node Text {} node Button {} } }\n\
         }",
        "exactly one widget member",
    );
}

#[test]
fn validate_rejects_if_with_nested_control_flow_body() {
    assert_validate_err(
        ";wasamo-ir v0\ncomponent C inherits W {\n\
         node VStack { if true { if false { node Text {} } } }\n\
         }",
        "nested control-flow",
    );
    assert_validate_err(
        ";wasamo-ir v0\ncomponent C inherits W {\n\
         state xs: i32[] = []\n\
         node Box { if true { for x in xs { node Text {} } } }\n\
         }",
        "nested control-flow",
    );
}

#[test]
fn validate_rejects_invalid_subtree_inside_if_body() {
    assert_validate_err(
        ";wasamo-ir v0\ncomponent C inherits W {\n\
         node VStack { if true { node Box { node Text {} node Text {} } } }\n\
         }",
        "`Box` node accepts at most one child",
    );
}

#[test]
fn validate_rejects_direct_conditional_grid_member() {
    assert_validate_err(
        ";wasamo-ir v0\ncomponent C inherits W {\n\
         node Grid { tracks columns = 1* tracks rows = 1* if true { node Cell { node Text {} } } }\n\
         }",
        "conditional members are not valid directly in runtime Grid IR",
    );
}

#[test]
fn validate_rejects_direct_conditional_cell_member() {
    assert_validate_err(
        ";wasamo-ir v0\ncomponent C inherits W {\n\
         node Grid { tracks columns = 1* tracks rows = 1* node Cell { node VStack {} if true { node Text {} } } }\n\
         }",
        "legacy-placement-ir-form",
    );
}

#[test]
fn validate_rejects_box_with_widget_and_conditional_sibling() {
    assert_validate_err(
        ";wasamo-ir v0\ncomponent C inherits W {\n\
         node Box { node Text {} if true { node Text {} } }\n\
         }",
        "`Box` node accepts at most one child",
    );
}

#[test]
fn validate_accepts_box_with_conditional_only_child() {
    let c = parse_ok(
        ";wasamo-ir v0\ncomponent C inherits W {\n\
         state c: bool = true\n\
         node Box { if (bool-prop-read c) { node Text {} } }\n\
         }",
    );
    assert_eq!(c.root.widget_type, "Box");
    assert_eq!(c.root.children.len(), 1);
}

#[test]
fn validate_rejects_box_with_multiple_conditional_siblings() {
    assert_validate_err(
        ";wasamo-ir v0\ncomponent C inherits W {\n\
         node Box { if true { node Text {} } if true { node Button {} } }\n\
         }",
        "`Box` node accepts at most one child",
    );
}

#[test]
fn validate_rejects_scrollview_with_conditional_member() {
    assert_validate_err(
        ";wasamo-ir v0\ncomponent C inherits W {\n\
         node ScrollView { node Box {} if true { node Text {} } }\n\
         }",
        "a conditional member is not valid directly in ScrollView",
    );
    assert_validate_err_not_contains(
        ";wasamo-ir v0\ncomponent C inherits W {\n\
         node ScrollView { node Box {} if true { node Text {} } }\n\
         }",
        "DD-M3-P6-007",
    );
}

#[test]
fn validate_rejects_scrollview_with_conditional_only_member() {
    assert_validate_err(
        ";wasamo-ir v0\ncomponent C inherits W {\n\
         node ScrollView { if true { node Text {} } }\n\
         }",
        "a conditional member is not valid directly in ScrollView",
    );
    assert_validate_err_not_contains(
        ";wasamo-ir v0\ncomponent C inherits W {\n\
         node ScrollView { if true { node Text {} } }\n\
         }",
        "DD-M3-P6-007",
    );
}

#[test]
fn zstack_attribute_rejected_at_validate() {
    assert_validate_err(
        ";wasamo-ir v0\ncomponent C inherits W {\n\
         node ZStack { prop spacing = 8 node Text {} }\n}",
        "`ZStack` accepts no Phase-6 attributes",
    );
}

#[test]
fn root_zstack_accepts_host_props_on_component_surface() {
    let c = parse_ok(
        ";wasamo-ir v0\ncomponent C inherits W {\n\
         host prop title = \"Gallery\"\n\
         host prop backdrop = mica\n\
         host prop theme = system\n\
         node ZStack { node Text {} }\n\
         }",
    );
    validate(&c).expect("host props are separate from the ZStack content root");
    assert_eq!(resolve_static_window_title(&c, "Wasamo"), "Gallery");
}

#[test]
fn root_zstack_still_rejects_widget_attribute() {
    assert_validate_err(
        ";wasamo-ir v0\ncomponent C inherits W {\n\
         host prop title = \"Gallery\"\n\
         node ZStack { prop spacing = 8 node Text {} }\n}",
        "`ZStack` accepts no Phase-6 attributes; found `spacing`",
    );
}

#[test]
fn zstack_child_zstack_accepts_placement_props() {
    let c = parse_ok(
        ";wasamo-ir v0\ncomponent C inherits W {\n\
         node ZStack { child { placement zstack { h-align: stretch, v-align: stretch } node ZStack { node Text {} } } }\n\
         }",
    );
    validate(&c).expect("ZStack direct-child placement applies even when the child is ZStack");
}

#[test]
fn nested_zstack_rejects_component_window_prop() {
    assert_validate_err(
        ";wasamo-ir v0\ncomponent C inherits W {\n\
         node ZStack { node ZStack { prop title = \"x\" node Text {} } }\n}",
        "`ZStack` accepts no Phase-6 attributes; found `title`",
    );
}

#[test]
fn host_surface_rejects_unknown_host_prop() {
    assert_validate_err(
        ";wasamo-ir v0\ncomponent C inherits W {\n\
         host prop foo = bar\n\
         node ZStack { node Text {} }\n}",
        "unknown host attribute `foo`",
    );
}

#[test]
fn host_surface_rejects_typed_literal_theme() {
    assert_validate_err(
        ";wasamo-ir v0\ncomponent C inherits W {\n\
         host prop theme = 3\n\
         node ZStack { node Text {} }\n}",
        "host `theme` prop must be a keyword identifier",
    );
}

#[test]
fn host_surface_accepts_keyword_backdrop_and_theme() {
    let c = parse_ok(
        ";wasamo-ir v0\ncomponent C inherits W {\n\
         host prop backdrop = mica\n\
         host prop theme = system\n\
         node ZStack { node Text {} }\n}",
    );
    validate(&c).expect("keyword-identifier backdrop/theme must validate");
}

#[test]
fn root_zstack_rejects_placement_prop() {
    assert_validate_err(
        ";wasamo-ir v0\ncomponent C inherits W {\n\
         node ZStack { prop h-align = stretch node Text {} }\n}",
        "`ZStack` accepts no Phase-6 attributes; found `h-align`",
    );
}

#[test]
fn host_surface_rejects_host_binding() {
    assert_validate_err(
        ";wasamo-ir v0\ncomponent C inherits W {\n\
         state s: string = \"x\"\n\
         host bind title = (str-prop-read s)\n\
         node ZStack { node Text {} }\n}",
        "host attribute `title` is not bindable in M3-Phase 6",
    );
}

#[test]
fn old_root_squatted_host_prop_rejected() {
    assert_validate_err(
        ";wasamo-ir v0\ncomponent C inherits W {\n\
         node ZStack { prop title = \"Gallery\" node Text {} }\n}",
        "host attribute `title` must live on `host_props`",
    );
}

#[test]
fn old_root_squatted_host_binding_rejected() {
    assert_validate_err(
        ";wasamo-ir v0\ncomponent C inherits W {\n\
         state s: string = \"x\"\n\
         node ZStack { bind title = (str-prop-read s) node Text {} }\n}",
        "host attribute `title` must live on `host_bindings`",
    );
}

#[test]
fn zstack_binding_rejected_at_validate() {
    assert_validate_err(
        ";wasamo-ir v0\ncomponent C inherits W {\n\
         state ready: bool = true\n\
         node ZStack { bind h-align = (bool-prop-read ready) node Text {} }\n}",
        "`ZStack` accepts no Phase-6 bindings",
    );
}

#[test]
fn zstack_clicked_handler_validates() {
    let c = parse_ok(
        ";wasamo-ir v0\ncomponent C inherits W {\n\
         state ready: bool = true\n\
         node ZStack { on clicked { (assign ready false) } node Text {} }\n}",
    );
    assert_eq!(c.root.widget_type, "ZStack");
    assert_eq!(c.root.handlers.len(), 1);
    assert_eq!(c.root.handlers[0].signal, "clicked");
}

#[test]
fn zstack_child_unknown_alignment_rejected_at_validate() {
    assert_parse_err(
        ";wasamo-ir v0\ncomponent C inherits W {\n\
         node ZStack { child { placement zstack { h-align: middle } node Text {} } }\n}",
        "zstack.h-align",
    );
}

#[test]
fn placement_prop_outside_zstack_child_or_grid_cell_rejected_at_validate() {
    assert_validate_err(
        ";wasamo-ir v0\ncomponent C inherits W {\n\
         node VStack { child { placement zstack { h-align: center } node Text {} } }\n}",
        "placement data is valid only on Grid or ZStack child slots",
    );
}

#[test]
fn validate_rejects_zstack_with_kind_payload() {
    let comp = IrComponent {
        name: "C".into(),
        base: "W".into(),
        host_props: vec![],
        host_bindings: vec![],
        states: vec![],
        root: IrNode {
            widget_type: "ZStack".into(),
            props: vec![],
            bindings: vec![],
            handlers: vec![],
            children: vec![],
            kind_payload: Some(KindPayload::Grid {
                columns: vec![TrackSize::Star(1)],
                rows: vec![TrackSize::Star(1)],
            }),
        },
    };
    match validate(&comp) {
        Err(IrLoadError::Validate(msg)) => {
            assert!(msg.contains("only valid on a `Grid` node"), "got: {msg}")
        }
        other => panic!("expected Validate error, got {other:?}"),
    }
}

#[test]
fn focus_group_true_accepted_on_every_admitting_container() {
    assert_focus_annotation_accepted_everywhere("prop focus-group = true");
}

#[test]
fn modal_scope_true_accepted_on_every_admitting_container() {
    assert_focus_annotation_accepted_everywhere("prop modal-scope = true");
}

#[test]
fn focus_group_false_accepted() {
    assert_focus_annotation_accepted_everywhere("prop focus-group = false");
}

#[test]
fn modal_scope_false_accepted() {
    assert_focus_annotation_accepted_everywhere("prop modal-scope = false");
}

#[test]
fn focus_group_and_modal_scope_together_on_one_container_accepted() {
    let c = parse_ok(
        ";wasamo-ir v0\ncomponent C inherits W {\n\
         node VStack { prop focus-group = true prop modal-scope = true }\n}",
    );
    validate(&c).expect("a container may carry both annotations at once");
}

#[test]
fn dismiss_handler_accepted_beside_modal_scope_true() {
    let c = parse_ok(
        ";wasamo-ir v0\ncomponent C inherits W {\n\
         state open: bool = true\n\
         node Box { prop modal-scope = true on dismiss { (assign open false) } }\n}",
    );
    validate(&c).expect("dismiss beside modal-scope: true must validate");
}

#[test]
fn dismiss_handler_accepted_on_zstack_carrying_modal_scope() {
    let c = parse_ok(
        ";wasamo-ir v0\ncomponent C inherits W {\n\
         state open: bool = true\n\
         node ZStack { prop modal-scope = true on dismiss { (assign open false) } node Text {} }\n}",
    );
    validate(&c).expect("dismiss beside modal-scope: true must validate on ZStack");
}

#[test]
fn dismiss_handler_accepted_on_grid_carrying_modal_scope() {
    let c = parse_ok(
        ";wasamo-ir v0\ncomponent C inherits W {\n\
         state open: bool = true\n\
         node Grid {\n\
           tracks columns = 1*\n\
           tracks rows = 1*\n\
           prop modal-scope = true\n\
           on dismiss { (assign open false) }\n\
         }\n}",
    );
    validate(&c).expect("dismiss beside modal-scope: true must validate on Grid");
}

#[test]
fn focus_group_true_on_text_rejected() {
    assert_validate_err(
        ";wasamo-ir v0\ncomponent C inherits W { node Text { prop focus-group = true } }",
        "`focus-group` is admitted on any container",
    );
}

#[test]
fn focus_group_true_on_button_rejected() {
    assert_validate_err(
        ";wasamo-ir v0\ncomponent C inherits W { node Button { prop focus-group = true } }",
        "`focus-group` is admitted on any container",
    );
}

#[test]
fn focus_group_true_on_togglebutton_rejected_as_admission_not_unknown_attr() {
    let err = parse_err(
        ";wasamo-ir v0\ncomponent C inherits W { node ToggleButton { prop focus-group = true } }",
    );
    match err {
        IrLoadError::Validate(msg) => {
            assert!(
                msg.contains("`focus-group` is admitted on any container"),
                "got: {msg}"
            );
            assert!(
                !msg.contains("unknown ToggleButton attribute"),
                "got: {msg}"
            );
        }
        other => panic!("expected Validate error, got {other:?}"),
    }
}

#[test]
fn focus_group_true_on_rectangle_rejected() {
    assert_validate_err(
        ";wasamo-ir v0\ncomponent C inherits W { node Rectangle { prop focus-group = true } }",
        "`focus-group` is admitted on any container",
    );
}

#[test]
fn focus_group_true_inside_cell_rejected() {
    assert_validate_err(
        ";wasamo-ir v0\ncomponent C inherits W {\n\
         node Grid {\n\
           tracks columns = 1*\n\
           tracks rows = 1*\n\
           node Cell { prop focus-group = true node Text {} }\n\
         }\n}",
        "`focus-group` is admitted on any container",
    );
}

#[test]
fn modal_scope_true_on_text_rejected() {
    assert_validate_err(
        ";wasamo-ir v0\ncomponent C inherits W { node Text { prop modal-scope = true } }",
        "`modal-scope` is admitted on any container",
    );
}

#[test]
fn focus_group_non_bool_literal_rejected() {
    assert_validate_err(
        ";wasamo-ir v0\ncomponent C inherits W { node VStack { prop focus-group = 1 } }",
        "`focus-group` is constant-only",
    );
}

#[test]
fn modal_scope_non_bool_literal_rejected() {
    assert_validate_err(
        ";wasamo-ir v0\ncomponent C inherits W { node VStack { prop modal-scope = \"yes\" } }",
        "`modal-scope` is constant-only",
    );
}

#[test]
fn focus_group_binding_rejected() {
    assert_validate_err(
        ";wasamo-ir v0\ncomponent C inherits W { node VStack { bind focus-group = true } }",
        "`focus-group` is constant-only",
    );
}

#[test]
fn modal_scope_binding_rejected() {
    assert_validate_err(
        ";wasamo-ir v0\ncomponent C inherits W { node VStack { bind modal-scope = true } }",
        "`modal-scope` is constant-only",
    );
}

#[test]
fn dismiss_handler_without_modal_scope_prop_rejected() {
    assert_validate_err(
        ";wasamo-ir v0\ncomponent C inherits W {\n\
         state open: bool = true\n\
         node Box { on dismiss { (assign open false) } }\n}",
        "`dismiss` handler can never be raised",
    );
}

#[test]
fn dismiss_handler_beside_modal_scope_false_rejected() {
    assert_validate_err(
        ";wasamo-ir v0\ncomponent C inherits W {\n\
         state open: bool = true\n\
         node Box { prop modal-scope = false on dismiss { (assign open false) } }\n}",
        "`dismiss` handler can never be raised",
    );
}

#[test]
fn dismiss_handler_on_non_container_rejected() {
    assert_validate_err(
        ";wasamo-ir v0\ncomponent C inherits W {\n\
         state open: bool = true\n\
         node Text { on dismiss { (assign open false) } }\n}",
        "`dismiss` handler can never be raised",
    );
}

#[test]
fn dismiss_handler_accepted_inside_if_wrapped_modal_scope() {
    let c = parse_ok(
        ";wasamo-ir v0\ncomponent C inherits W {\n\
         state open: bool = true\n\
         node VStack { if true { node Box { prop modal-scope = true on dismiss { (assign open false) } } } }\n}",
    );
    validate(&c).expect("dismiss inside an if-wrapped modal-scope container must validate");
}

#[test]
fn dismiss_handler_inside_if_wrapped_container_without_modal_scope_rejected() {
    assert_validate_err(
        ";wasamo-ir v0\ncomponent C inherits W {\n\
         state open: bool = true\n\
         node VStack { if true { node Box { on dismiss { (assign open false) } } } }\n}",
        "`dismiss` handler can never be raised",
    );
}

#[test]
fn focus_group_true_on_text_inside_for_body_rejected() {
    assert_validate_err(
        ";wasamo-ir v0\ncomponent C inherits W {\n\
         state xs: i32[] = []\n\
         node VStack { for x in xs { node Text { prop focus-group = true } } }\n}",
        "`focus-group` is admitted on any container",
    );
}

#[test]
fn focus_group_true_on_text_inside_if_body_rejected() {
    assert_validate_err(
        ";wasamo-ir v0\ncomponent C inherits W { node VStack { if true { node Text { prop focus-group = true } } } }",
        "`focus-group` is admitted on any container",
    );
}

#[test]
fn zstack_spacing_prop_still_rejected_after_relaxation() {
    assert_validate_err(
        ";wasamo-ir v0\ncomponent C inherits W {\n\
         node ZStack { prop spacing = 4 node Text {} }\n}",
        "`ZStack` accepts no Phase-6 attributes; found `spacing`",
    );
}

#[test]
fn dismiss_handler_on_zstack_without_modal_scope_prop_rejected() {
    assert_validate_err(
        ";wasamo-ir v0\ncomponent C inherits W {\n\
         state open: bool = true\n\
         node ZStack { on dismiss { (assign open false) } node Text {} }\n}",
        "`dismiss` handler can never be raised",
    );
}

#[test]
fn key_down_handler_parses_with_string_argument() {
    let c = parse_ok(
        ";wasamo-ir v0\ncomponent C inherits W {\n\
         state selected_index: i32 = 0\n\
         node Box { on key-down(\"ArrowLeft\") { (compound-assign -= selected_index 1) } }\n}",
    );
    assert_eq!(c.root.handlers.len(), 1);
    let h = &c.root.handlers[0];
    assert_eq!(h.signal, "key-down");
    assert_eq!(h.arg.as_deref(), Some("ArrowLeft"));
}

#[test]
fn clicked_handler_still_parses_with_arg_none() {
    let c = parse_ok(
        ";wasamo-ir v0\ncomponent C inherits W {\n\
         state count: i32 = 0\n\
         node Button { on clicked { (compound-assign += count 1) } }\n}",
    );
    let h = &c.root.handlers[0];
    assert_eq!(h.signal, "clicked");
    assert_eq!(h.arg, None);
}

#[test]
fn key_down_without_argument_rejected_at_validate() {
    assert_validate_err(
        ";wasamo-ir v0\ncomponent C inherits W {\n\
         state selected_index: i32 = 0\n\
         node Box { on key-down { (compound-assign -= selected_index 1) } }\n}",
        "`key-down` handler can never be raised",
    );
}

#[test]
fn key_down_unrecognised_key_name_rejected_at_validate() {
    assert_validate_err(
        ";wasamo-ir v0\ncomponent C inherits W {\n\
         state selected_index: i32 = 0\n\
         node Box { on key-down(\"Tab\") { (compound-assign -= selected_index 1) } }\n}",
        "unrecognised key",
    );
}

#[test]
fn argument_on_clicked_rejected_at_validate() {
    assert_validate_err(
        ";wasamo-ir v0\ncomponent C inherits W {\n\
         state count: i32 = 0\n\
         node Button { on clicked(\"x\") { (compound-assign += count 1) } }\n}",
        "`clicked` does not take an argument",
    );
}

#[test]
fn slot_data_for_parent_kind_maps_zstack_slot_payload() {
    let slot = zstack_slot(text_node(), IrAlignment::End, IrAlignment::Start);

    assert_eq!(
        slot_data_for_parent_kind(true, false, &slot),
        Some(SlotData::ZStack(ZStackPlacement {
            h_align: Alignment::Trailing,
            v_align: Alignment::Leading,
        }))
    );
}

#[test]
fn slot_data_for_parent_kind_maps_grid_slot_payload() {
    let slot = grid_slot(text_node(), 4, 5, IrAlignment::Center, IrAlignment::Stretch);

    assert_eq!(
        slot_data_for_parent_kind(false, true, &slot),
        Some(SlotData::Grid(CellPlacement {
            row: 4,
            column: 5,
            row_span: 2,
            column_span: 3,
            h_align: Alignment::Center,
            v_align: Alignment::Stretch,
        }))
    );
}

#[test]
fn slot_data_for_parent_kind_normalizes_non_placement_parent_to_none() {
    let slot = zstack_slot(text_node(), IrAlignment::End, IrAlignment::Start);

    assert_eq!(slot_data_for_parent_kind(false, false, &slot), None);
}

#[test]
fn slot_data_for_parent_kind_defaults_missing_zstack_payload_to_center() {
    let slot = child_slot(text_node());

    assert_eq!(
        slot_data_for_parent_kind(true, false, &slot),
        Some(SlotData::ZStack(ZStackPlacement::centered()))
    );
}

#[test]
fn slot_data_for_parent_kind_defaults_missing_grid_payload_to_origin_stretch() {
    let slot = child_slot(text_node());

    assert_eq!(
        slot_data_for_parent_kind(false, true, &slot),
        Some(SlotData::Grid(CellPlacement::default_grid()))
    );
}

#[test]
fn resolve_prop_key_unknown_pair_is_none() {
    assert!(resolve_prop_key("Button", "nonsuch").is_none());
    assert!(resolve_prop_key("Nonsuch", "enabled").is_none());
    assert!(resolve_prop_key("ScrollView", "scroll-axis").is_none());
    assert!(resolve_prop_key("ScrollView", "viewport-width").is_none());
}

#[test]
fn parse_full_counter_round_trip() {
    let source_ir = IrComponent {
        name: "Counter".into(),
        base: "Window".into(),
        host_props: vec![IrProp {
            name: "title".into(),
            value: IrLiteral::Str("Counter".into()),
        }],
        host_bindings: vec![],
        states: vec![IrState {
            name: "count".into(),
            ty: IrStateType::Scalar(IrType::I32),
            default: IrLiteral::Int(0),
        }],
        root: IrNode {
            widget_type: "VStack".into(),
            props: vec![
                IrProp {
                    name: "spacing".into(),
                    value: IrLiteral::Int(12),
                },
                IrProp {
                    name: "padding".into(),
                    value: IrLiteral::Int(24),
                },
            ],
            bindings: vec![],
            handlers: vec![],
            children: vec![
                IrMember::Widget(child_slot(IrNode {
                    widget_type: "Text".into(),
                    props: vec![IrProp {
                        name: "font".into(),
                        value: IrLiteral::Ident("title".into()),
                    }],
                    bindings: vec![IrBinding {
                        prop_name: "text".into(),
                        expr: HandlerExpr::Interpolation(vec![
                            InterpolationPart::Literal("Count: ".into()),
                            InterpolationPart::Expr(HandlerExpr::PropRead {
                                path: "count".into(),
                            }),
                        ]),
                    }],
                    handlers: vec![],
                    children: vec![],
                    kind_payload: None,
                })),
                IrMember::Widget(child_slot(IrNode {
                    widget_type: "Button".into(),
                    props: vec![
                        IrProp {
                            name: "text".into(),
                            value: IrLiteral::Str("Increment".into()),
                        },
                        IrProp {
                            name: "style".into(),
                            value: IrLiteral::Ident("accent".into()),
                        },
                    ],
                    bindings: vec![],
                    handlers: vec![IrHandler {
                        signal: "clicked".into(),
                        arg: None,
                        expr: HandlerExpr::CompoundAssign {
                            op: CompoundOp::Add,
                            lhs: "count".into(),
                            rhs: Box::new(HandlerExpr::IntLit(1)),
                        },
                    }],
                    children: vec![],
                    kind_payload: None,
                })),
            ],
            kind_payload: None,
        },
    };

    let text = render(&source_ir);
    let parsed = parse_ok(&text);
    assert_eq!( format!("{:?}", parsed), format!("{:?}", source_ir), "round-trip mismatch\nIR text:\n{text}");
}

#[test]
fn grid_slot_emit_then_parse_preserves_payload_values() {
    let source_ir = IrComponent {
        name: "GridRoundTrip".into(),
        base: "Window".into(),
        host_props: vec![],
        host_bindings: vec![],
        states: vec![],
        root: IrNode {
            widget_type: "Grid".into(),
            props: vec![],
            bindings: vec![],
            handlers: vec![],
            children: vec![IrMember::Widget(IrChildSlot {
                node: IrNode {
                    widget_type: "Text".into(),
                    props: vec![IrProp {
                        name: "text".into(),
                        value: IrLiteral::Str("cell".into()),
                    }],
                    bindings: vec![],
                    handlers: vec![],
                    children: vec![],
                    kind_payload: None,
                },
                slot_data: Some(IrSlotData::Grid {
                    row: 1,
                    column: 2,
                    row_span: 1,
                    column_span: 2,
                    h_align: IrAlignment::Center,
                    v_align: IrAlignment::End,
                }),
            })],
            kind_payload: Some(KindPayload::Grid {
                columns: vec![
                    TrackSize::Fixed(120),
                    TrackSize::Star(1),
                    TrackSize::Star(2),
                    TrackSize::Star(1),
                ],
                rows: vec![TrackSize::Fixed(40), TrackSize::Star(1)],
            }),
        },
    };

    let text = render(&source_ir);
    assert!(
        text.contains(
            "placement grid { row: 1, column: 2, row-span: 1, column-span: 2, h-align: center, v-align: end }"
        ),
        "IR text did not contain the non-default Grid placement:\n{text}"
    );
    let parsed = parse_ok(&text);
    assert_eq!( format!("{:?}", parsed), format!("{:?}", source_ir), "round-trip mismatch\nIR text:\n{text}");
}

#[test]
fn box_phase2_load_side_fixture() {
    let src = ";wasamo-ir v0\n\
               component C inherits W {\n\
                   node Box {\n\
                       prop aspect = 16:9\n\
                       prop fill = #00000080\n\
                       node Text { prop text = \"Photo 12\" }\n\
                   }\n\
               }";
    let c = parse_ok(src);
    assert_eq!(c.root.widget_type, "Box");
    let aspect = c
        .root
        .props
        .iter()
        .find(|p| p.name == "aspect")
        .expect("aspect prop");
    let fill = c
        .root
        .props
        .iter()
        .find(|p| p.name == "fill")
        .expect("fill prop");
    assert_eq!( format!("{:?}", aspect.value), format!("{:?}", IrLiteral::Ratio { num: 16, den: 9 }));
    assert_eq!( format!("{:?}", fill.value), format!("{:?}", IrLiteral::Color(0x80_00_00_00)));
    assert_eq!(c.root.children.len(), 1);
    assert_eq!(child_widget(&c.root, 0).widget_type, "Text");
}

#[test]
fn host_surface_rejects_typed_literal_backdrop() {
    assert_validate_err(
        ";wasamo-ir v0\ncomponent C inherits W {\n\
         host prop backdrop = 3\n\
         node ZStack { node Text {} }\n}",
        "host `backdrop` prop must be a keyword identifier",
    );
}

#[test]
fn dismiss_handler_inside_for_wrapped_container_hits_the_pre_existing_handler_gate_first() {
    assert_validate_err(
        ";wasamo-ir v0\ncomponent C inherits W {\n\
         state open: bool = true\n\
         state xs: i32[] = []\n\
         node VStack { for x in xs { node Box { on dismiss { (assign open false) } } } }\n}",
        "handlers inside a `for` body template are deferred in M3-Phase 7",
    );
}

#[test]
fn grid_clicked_handler_validates() {
    let c = parse_ok(
        ";wasamo-ir v0\ncomponent C inherits W {\n\
         state count: i32 = 0\n\
         node Grid {\n\
           tracks columns = 1*\n\
           tracks rows = 1*\n\
           on clicked { (assign count 1) }\n\
         }\n}",
    );
    assert_eq!(c.root.widget_type, "Grid");
    assert_eq!(c.root.handlers.len(), 1);
    assert_eq!(c.root.handlers[0].signal, "clicked");
}
