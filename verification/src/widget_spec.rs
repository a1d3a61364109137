//! What widget an IR node asks for and the values it starts with, decided
//! before any widget exists: the kind by the node's type name, each setting
//! by the node's constant attributes, with defaults where they are absent.
//! A setting that a binding drives starts at its neutral value and waits for
//! the binding's first run.
use crate::box_widget::{Color, Ratio};
use crate::ir::{IrBinding, IrNode, KindPayload, TrackSize};
use crate::ir_loader::IrLoadError;
use crate::ir_props::{
    extract_bool_prop, extract_button_style, extract_color_prop, extract_int_prop, extract_ratio_prop,
    extract_str_prop, extract_typography, first_ident, first_value, ButtonStyle, TypographyStyle,
};
use crate::ir_view::{props_view, LiteralV, PropV};
use crate::text::str_eq;
use vstd::prelude::*;

verus! {

/// The widget a node asks for, with its starting settings.
#[derive(Debug)]
pub enum WidgetSpec {
    VStack { spacing: i32, padding: i32 },
    HStack { spacing: i32, padding: i32 },
    Text { text: String, font: TypographyStyle },
    Button { label: String, style: ButtonStyle, enabled: bool },
    ToggleButton { label: String, style: ButtonStyle, enabled: bool, checked: bool },
    Box { aspect: Option<Ratio>, fill: Option<Color> },
    WrapPanel { item_cross_size: Option<i32>, item_spacing: Option<i32>, line_spacing: Option<i32> },
    ScrollView { offset_y: Option<i32> },
    Grid { columns: Vec<TrackSize>, rows: Vec<TrackSize> },
    ZStack,
}

/// The content of a [`WidgetSpec`].
pub enum WidgetSpecV {
    VStack { spacing: i32, padding: i32 },
    HStack { spacing: i32, padding: i32 },
    Text { text: Seq<char>, font: TypographyStyle },
    Button { label: Seq<char>, style: ButtonStyle, enabled: bool },
    ToggleButton { label: Seq<char>, style: ButtonStyle, enabled: bool, checked: bool },
    Box { aspect: Option<Ratio>, fill: Option<Color> },
    WrapPanel { item_cross_size: Option<i32>, item_spacing: Option<i32>, line_spacing: Option<i32> },
    ScrollView { offset_y: Option<i32> },
    Grid { columns: Seq<TrackSize>, rows: Seq<TrackSize> },
    ZStack,
}

/// Why a node asks for no widget.
pub enum WidgetFault {
    /// The type name names no widget.
    UnknownKind,
    /// A `Grid` without its track lists.
    NoGridTracks,
}

pub open spec fn widget_view(w: WidgetSpec) -> WidgetSpecV {
    match w {
        WidgetSpec::VStack { spacing, padding } => WidgetSpecV::VStack { spacing, padding },
        WidgetSpec::HStack { spacing, padding } => WidgetSpecV::HStack { spacing, padding },
        WidgetSpec::Text { text, font } => WidgetSpecV::Text { text: text@, font },
        WidgetSpec::Button { label, style, enabled } => WidgetSpecV::Button { label: label@, style, enabled },
        WidgetSpec::ToggleButton { label, style, enabled, checked } => WidgetSpecV::ToggleButton {
            label: label@,
            style,
            enabled,
            checked,
        },
        WidgetSpec::Box { aspect, fill } => WidgetSpecV::Box { aspect, fill },
        WidgetSpec::WrapPanel { item_cross_size, item_spacing, line_spacing } => WidgetSpecV::WrapPanel {
            item_cross_size,
            item_spacing,
            line_spacing,
        },
        WidgetSpec::ScrollView { offset_y } => WidgetSpecV::ScrollView { offset_y },
        WidgetSpec::Grid { columns, rows } => WidgetSpecV::Grid { columns: columns@, rows: rows@ },
        WidgetSpec::ZStack => WidgetSpecV::ZStack,
    }
}

/// The integer attribute `name`, when the first one so named is an integer.
pub open spec fn int_attr(props: Seq<PropV>, name: Seq<char>) -> Option<i32> {
    match first_value(props, name) {
        Some(LiteralV::Int(n)) => Some(n),
        _ => None,
    }
}

/// The string attribute `name`, or the empty string.
pub open spec fn str_attr_or_empty(props: Seq<PropV>, name: Seq<char>) -> Seq<char> {
    match first_value(props, name) {
        Some(LiteralV::Str(s)) => s,
        _ => Seq::empty(),
    }
}

/// The bool attribute `name`, or `default`.
pub open spec fn bool_attr_or(props: Seq<PropV>, name: Seq<char>, default: bool) -> bool {
    match first_value(props, name) {
        Some(LiteralV::Bool(b)) => b,
        _ => default,
    }
}

/// The type ramp the attribute `name` names.
pub open spec fn typography_attr(props: Seq<PropV>, name: Seq<char>) -> TypographyStyle {
    match first_ident(props, name) {
        Some(id) => if id == "caption"@ {
            TypographyStyle::Caption
        } else if id == "subtitle"@ {
            TypographyStyle::Subtitle
        } else if id == "title"@ {
            TypographyStyle::Title
        } else {
            TypographyStyle::Body
        },
        None => TypographyStyle::Body,
    }
}

/// The button look the attribute `name` names.
pub open spec fn button_style_attr(props: Seq<PropV>, name: Seq<char>) -> ButtonStyle {
    if first_ident(props, name) == Some("accent"@) {
        ButtonStyle::Accent
    } else {
        ButtonStyle::Default
    }
}

/// A binding drives the attribute `name`.
pub open spec fn is_bound(bindings: Seq<IrBinding>, name: Seq<char>) -> bool {
    exists|i: int| 0 <= i < bindings.len() && (#[trigger] bindings[i]).prop_name@ == name
}

/// The widget `node` asks for: its kind from the type name, each setting
/// from the first attribute of that name (absent or of another literal kind:
/// spacing and padding 0, text empty, `enabled` true, `checked` false, the
/// body type ramp and the default button look); a bound text starts empty, a
/// bound `enabled` true and a bound `checked` false. A `Grid` takes its track
/// lists from the node's payload.
pub open spec fn widget_spec_of(node: IrNode) -> Result<WidgetSpecV, WidgetFault> {
    let t = node.widget_type@;
    let p = props_view(node.props@);
    let b = node.bindings@;
    if t == "VStack"@ {
        Ok(
            WidgetSpecV::VStack {
                spacing: match int_attr(p, "spacing"@) {
                    Some(n) => n,
                    None => 0,
                },
                padding: match int_attr(p, "padding"@) {
                    Some(n) => n,
                    None => 0,
                },
            },
        )
    } else if t == "HStack"@ {
        Ok(
            WidgetSpecV::HStack {
                spacing: match int_attr(p, "spacing"@) {
                    Some(n) => n,
                    None => 0,
                },
                padding: match int_attr(p, "padding"@) {
                    Some(n) => n,
                    None => 0,
                },
            },
        )
    } else if t == "Text"@ {
        Ok(
            WidgetSpecV::Text {
                text: if is_bound(b, "text"@) {
                    Seq::empty()
                } else {
                    str_attr_or_empty(p, "text"@)
                },
                font: typography_attr(p, "font"@),
            },
        )
    } else if t == "Button"@ {
        Ok(
            WidgetSpecV::Button {
                label: if is_bound(b, "text"@) {
                    Seq::empty()
                } else {
                    str_attr_or_empty(p, "text"@)
                },
                style: button_style_attr(p, "style"@),
                enabled: is_bound(b, "enabled"@) || bool_attr_or(p, "enabled"@, true),
            },
        )
    } else if t == "ToggleButton"@ {
        Ok(
            WidgetSpecV::ToggleButton {
                label: if is_bound(b, "text"@) {
                    Seq::empty()
                } else {
                    str_attr_or_empty(p, "text"@)
                },
                style: button_style_attr(p, "style"@),
                enabled: is_bound(b, "enabled"@) || bool_attr_or(p, "enabled"@, true),
                checked: !is_bound(b, "checked"@) && bool_attr_or(p, "checked"@, false),
            },
        )
    } else if t == "Box"@ {
        Ok(
            WidgetSpecV::Box {
                aspect: match first_value(p, "aspect"@) {
                    Some(LiteralV::Ratio { num, den }) => Some(Ratio { num, den }),
                    _ => None,
                },
                fill: match first_value(p, "fill"@) {
                    Some(LiteralV::Color(v)) => Some(Color(v)),
                    _ => None,
                },
            },
        )
    } else if t == "WrapPanel"@ {
        Ok(
            WidgetSpecV::WrapPanel {
                item_cross_size: int_attr(p, "item-cross-size"@),
                item_spacing: int_attr(p, "item-spacing"@),
                line_spacing: int_attr(p, "line-spacing"@),
            },
        )
    } else if t == "ScrollView"@ {
        Ok(WidgetSpecV::ScrollView { offset_y: int_attr(p, "offset-y"@) })
    } else if t == "Grid"@ {
        match node.kind_payload {
            Some(KindPayload::Grid { columns, rows }) => Ok(WidgetSpecV::Grid { columns: columns@, rows: rows@ }),
            None => Err(WidgetFault::NoGridTracks),
        }
    } else if t == "ZStack"@ {
        Ok(WidgetSpecV::ZStack)
    } else {
        Err(WidgetFault::UnknownKind)
    }
}

fn has_binding(bindings: &Vec<IrBinding>, name: &str) -> (r: bool)
    ensures
        r == is_bound(bindings@, name@),
{
    let mut i: usize = 0;
    while i < bindings.len()
        invariant
            i <= bindings@.len(),
            forall|k: int| 0 <= k < i ==> (#[trigger] bindings@[k]).prop_name@ != name@,
        decreases bindings@.len() - i,
    {
        if str_eq(bindings[i].prop_name.as_str(), name) {
            return true;
        }
        i += 1;
    }
    false
}

fn copy_tracks(v: &Vec<TrackSize>) -> (r: Vec<TrackSize>)
    ensures
        r@ == v@,
{
    let mut r = Vec::new();
    let mut i: usize = 0;
    while i < v.len()
        invariant
            i <= v@.len(),
            r@ == v@.subrange(0, i as int),
        decreases v@.len() - i,
    {
        r.push(v[i]);
        i += 1;
        assert(r@ =~= v@.subrange(0, i as int));
    }
    assert(v@.subrange(0, v@.len() as int) =~= v@);
    r
}

fn str_or_empty(s: Option<String>) -> (r: String)
    ensures
        r@ == (match s {
            Some(t) => t@,
            None => Seq::<char>::empty(),
        }),
{
    match s {
        Some(t) => t,
        None => String::new(),
    }
}

/// The widget `node` asks for, with its starting settings; an unknown type
/// name, or a `Grid` without track lists, is an error.
pub fn widget_spec(node: &IrNode) -> (r: Result<WidgetSpec, IrLoadError>)
    ensures
        match widget_spec_of(*node) {
            Ok(v) => r matches Ok(w) && widget_view(w) == v,
            Err(WidgetFault::UnknownKind) => r matches Err(IrLoadError::UnknownWidget(t)) && t@ == node.widget_type@,
            Err(WidgetFault::NoGridTracks) => r matches Err(IrLoadError::Build(m)) && m@
                == "Grid node has no track-list payload (kind_payload)"@,
        },
{
    let t = node.widget_type.as_str();
    let props = node.props.as_slice();
    if str_eq(t, "VStack") || str_eq(t, "HStack") {
        let spacing = match extract_int_prop(props, "spacing") {
            Some(n) => n,
            None => 0,
        };
        let padding = match extract_int_prop(props, "padding") {
            Some(n) => n,
            None => 0,
        };
        if str_eq(t, "VStack") {
            Ok(WidgetSpec::VStack { spacing, padding })
        } else {
            Ok(WidgetSpec::HStack { spacing, padding })
        }
    } else if str_eq(t, "Text") {
        let text = if has_binding(&node.bindings, "text") {
            String::new()
        } else {
            str_or_empty(extract_str_prop(props, "text"))
        };
        Ok(WidgetSpec::Text { text, font: extract_typography(props, "font") })
    } else if str_eq(t, "Button") || str_eq(t, "ToggleButton") {
        let label = if has_binding(&node.bindings, "text") {
            String::new()
        } else {
            str_or_empty(extract_str_prop(props, "text"))
        };
        let style = extract_button_style(props, "style");
        let enabled = if has_binding(&node.bindings, "enabled") {
            true
        } else {
            match extract_bool_prop(props, "enabled") {
                Some(b) => b,
                None => true,
            }
        };
        if str_eq(t, "Button") {
            Ok(WidgetSpec::Button { label, style, enabled })
        } else {
            let checked = if has_binding(&node.bindings, "checked") {
                false
            } else {
                match extract_bool_prop(props, "checked") {
                    Some(b) => b,
                    None => false,
                }
            };
            Ok(WidgetSpec::ToggleButton { label, style, enabled, checked })
        }
    } else if str_eq(t, "Box") {
        Ok(WidgetSpec::Box { aspect: extract_ratio_prop(props, "aspect"), fill: extract_color_prop(props, "fill") })
    } else if str_eq(t, "WrapPanel") {
        Ok(
            WidgetSpec::WrapPanel {
                item_cross_size: extract_int_prop(props, "item-cross-size"),
                item_spacing: extract_int_prop(props, "item-spacing"),
                line_spacing: extract_int_prop(props, "line-spacing"),
            },
        )
    } else if str_eq(t, "ScrollView") {
        Ok(WidgetSpec::ScrollView { offset_y: extract_int_prop(props, "offset-y") })
    } else if str_eq(t, "Grid") {
        match &node.kind_payload {
            Some(KindPayload::Grid { columns, rows }) => Ok(
                WidgetSpec::Grid { columns: copy_tracks(columns), rows: copy_tracks(rows) },
            ),
            None => Err(IrLoadError::Build(String::from_str("Grid node has no track-list payload (kind_payload)"))),
        }
    } else if str_eq(t, "ZStack") {
        Ok(WidgetSpec::ZStack)
    } else {
        Err(IrLoadError::UnknownWidget(node.widget_type.clone()))
    }
}

} // verus!
