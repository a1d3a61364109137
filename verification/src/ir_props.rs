//! Reading constant attributes off an IR node when its widget is built: the
//! first attribute with the requested name decides, and a value of the
//! wrong literal kind reads as absent.
use crate::box_widget::{Color, Ratio};
use crate::ir::{IrLiteral, IrProp};
use crate::ir_view::{props_view, LiteralV, PropV};
use crate::text::str_eq;
use vstd::prelude::*;

verus! {

/// The type ramp a `Text` node's `font` keyword selects.
#[derive(Clone, Copy, PartialEq, Eq, Debug, Structural)]
pub enum TypographyStyle {
    Caption,
    Body,
    Subtitle,
    Title,
}

/// The look a `Button`'s `style` keyword selects.
#[derive(Clone, Copy, PartialEq, Eq, Debug, Structural)]
pub enum ButtonStyle {
    Default,
    Accent,
}

/// The value of the first attribute named `name`, if any.
pub open spec fn first_value(props: Seq<PropV>, name: Seq<char>) -> Option<LiteralV>
    decreases props.len(),
{
    if props.len() == 0 {
        None
    } else if props[0].name == name {
        Some(props[0].value)
    } else {
        first_value(props.drop_first(), name)
    }
}

/// The index of the first attribute named `name`, or `None`.
fn find_prop(props: &[IrProp], name: &str) -> (r: Option<usize>)
    ensures
        match r {
            Some(i) => i < props@.len() && first_value(props_view(props@), name@) == Some(
                props_view(props@)[i as int].value,
            ),
            None => first_value(props_view(props@), name@) is None,
        },
{
    let ghost pv = props_view(props@);
    assert(pv.skip(0) =~= pv);
    let mut i: usize = 0;
    while i < props.len()
        invariant
            i <= props@.len(),
            pv == props_view(props@),
            first_value(pv, name@) == first_value(pv.skip(i as int), name@),
        decreases props@.len() - i,
    {
        proof {
            assert(pv.skip(i as int).drop_first() =~= pv.skip(i + 1));
            assert(pv.skip(i as int)[0] == pv[i as int]);
        }
        if str_eq(props[i].name.as_str(), name) {
            return Some(i);
        }
        i += 1;
    }
    proof {
        assert(pv.skip(i as int) =~= Seq::<PropV>::empty());
    }
    None
}

/// The integer value of the first attribute named `name`; `None` when there
/// is none or it is not an integer.
pub fn extract_int_prop(props: &[IrProp], name: &str) -> (r: Option<i32>)
    ensures
        r == (match first_value(props_view(props@), name@) {
            Some(LiteralV::Int(n)) => Some(n),
            _ => None,
        }),
{
    match find_prop(props, name) {
        Some(i) => match &props[i].value {
            IrLiteral::Int(n) => Some(*n),
            _ => None,
        },
        None => None,
    }
}

/// The string value of the first attribute named `name`; `None` when there
/// is none or it is not a string.
pub fn extract_str_prop(props: &[IrProp], name: &str) -> (r: Option<String>)
    ensures
        match first_value(props_view(props@), name@) {
            Some(LiteralV::Str(s)) => r matches Some(v) && v@ == s,
            _ => r is None,
        },
{
    match find_prop(props, name) {
        Some(i) => match &props[i].value {
            IrLiteral::Str(s) => Some(s.clone()),
            _ => None,
        },
        None => None,
    }
}

/// The boolean value of the first attribute named `name`; `None` when there
/// is none or it is not a boolean.
pub fn extract_bool_prop(props: &[IrProp], name: &str) -> (r: Option<bool>)
    ensures
        r == (match first_value(props_view(props@), name@) {
            Some(LiteralV::Bool(b)) => Some(b),
            _ => None,
        }),
{
    match find_prop(props, name) {
        Some(i) => match &props[i].value {
            IrLiteral::Bool(b) => Some(*b),
            _ => None,
        },
        None => None,
    }
}

/// The ratio value of the first attribute named `name`; `None` when there
/// is none or it is not a ratio.
pub fn extract_ratio_prop(props: &[IrProp], name: &str) -> (r: Option<Ratio>)
    ensures
        r == (match first_value(props_view(props@), name@) {
            Some(LiteralV::Ratio { num, den }) => Some(Ratio { num, den }),
            _ => None,
        }),
{
    match find_prop(props, name) {
        Some(i) => match &props[i].value {
            IrLiteral::Ratio { num, den } => Some(Ratio { num: *num, den: *den }),
            _ => None,
        },
        None => None,
    }
}

/// The colour value of the first attribute named `name`; `None` when there
/// is none or it is not a colour.
pub fn extract_color_prop(props: &[IrProp], name: &str) -> (r: Option<Color>)
    ensures
        r == (match first_value(props_view(props@), name@) {
            Some(LiteralV::Color(v)) => Some(Color(v)),
            _ => None,
        }),
{
    match find_prop(props, name) {
        Some(i) => match &props[i].value {
            IrLiteral::Color(v) => Some(Color(*v)),
            _ => None,
        },
        None => None,
    }
}

/// The keyword of the first attribute named `name`, when it is one.
pub open spec fn first_ident(props: Seq<PropV>, name: Seq<char>) -> Option<Seq<char>> {
    match first_value(props, name) {
        Some(LiteralV::Ident(id)) => Some(id),
        _ => None,
    }
}

/// The type ramp named by the first attribute `name`: `caption`, `subtitle`
/// and `title` select their style; anything else, or no such attribute, is
/// body text.
pub fn extract_typography(props: &[IrProp], name: &str) -> (r: TypographyStyle)
    ensures
        r == (match first_ident(props_view(props@), name@) {
            Some(id) => if id == "caption"@ {
                TypographyStyle::Caption
            } else if id == "subtitle"@ {
                TypographyStyle::Subtitle
            } else if id == "title"@ {
                TypographyStyle::Title
            } else {
                TypographyStyle::Body
            },
            None => TypographyStyle::Body,
        }),
{
    proof {
        reveal_strlit("caption");
        reveal_strlit("subtitle");
        reveal_strlit("title");
    }
    match find_prop(props, name) {
        Some(i) => match &props[i].value {
            IrLiteral::Ident(id) => if str_eq(id.as_str(), "caption") {
                TypographyStyle::Caption
            } else if str_eq(id.as_str(), "subtitle") {
                TypographyStyle::Subtitle
            } else if str_eq(id.as_str(), "title") {
                TypographyStyle::Title
            } else {
                TypographyStyle::Body
            },
            _ => TypographyStyle::Body,
        },
        None => TypographyStyle::Body,
    }
}

/// The button look named by the first attribute `name`: `accent` selects
/// the accent style; anything else, or no such attribute, the default.
pub fn extract_button_style(props: &[IrProp], name: &str) -> (r: ButtonStyle)
    ensures
        r == (if first_ident(props_view(props@), name@) == Some("accent"@) {
            ButtonStyle::Accent
        } else {
            ButtonStyle::Default
        }),
{
    proof {
        reveal_strlit("accent");
    }
    match find_prop(props, name) {
        Some(i) => match &props[i].value {
            IrLiteral::Ident(id) => if str_eq(id.as_str(), "accent") {
                ButtonStyle::Accent
            } else {
                ButtonStyle::Default
            },
            _ => ButtonStyle::Default,
        },
        None => ButtonStyle::Default,
    }
}

} // verus!
