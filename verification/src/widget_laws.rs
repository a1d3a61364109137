//! Laws of a widget's starting settings: each setting is read from the
//! node's first attribute of that setting's own name.
use crate::box_widget::{Color, Ratio};
use crate::ir::{IrBinding, IrLiteral, IrNode, IrProp, KindPayload};
use crate::ir_props::{first_value, ButtonStyle, TypographyStyle};
use crate::ir_view::{lit_view, props_view, LiteralV};
use crate::widget_spec::{is_bound, widget_spec_of, WidgetFault, WidgetSpecV};
use vstd::prelude::*;

verus! {

/// Attribute `i` is the first one named `name`.
pub open spec fn is_first_named(props: Seq<IrProp>, name: Seq<char>, i: int) -> bool {
    &&& 0 <= i < props.len()
    &&& props[i].name@ == name
    &&& forall|j: int| 0 <= j < i ==> (#[trigger] props[j]).name@ != name
}

/// The value of the first attribute named `name`, if there is one.
pub open spec fn attr(props: Seq<IrProp>, name: Seq<char>) -> Option<IrLiteral> {
    if exists|i: int| is_first_named(props, name, i) {
        Some(props[choose|i: int| is_first_named(props, name, i)].value)
    } else {
        None
    }
}

/// A binding drives the attribute `name`.
pub open spec fn bound(bindings: Seq<IrBinding>, name: Seq<char>) -> bool {
    exists|i: int| 0 <= i < bindings.len() && (#[trigger] bindings[i]).prop_name@ == name
}

pub open spec fn as_int(a: Option<IrLiteral>) -> Option<i32> {
    match a {
        Some(IrLiteral::Int(n)) => Some(n),
        _ => None,
    }
}

pub open spec fn as_text(a: Option<IrLiteral>) -> Seq<char> {
    match a {
        Some(IrLiteral::Str(s)) => s@,
        _ => Seq::empty(),
    }
}

pub open spec fn as_bool_or(a: Option<IrLiteral>, d: bool) -> bool {
    match a {
        Some(IrLiteral::Bool(b)) => b,
        _ => d,
    }
}

pub open spec fn as_keyword(a: Option<IrLiteral>) -> Option<Seq<char>> {
    match a {
        Some(IrLiteral::Ident(s)) => Some(s@),
        _ => None,
    }
}

proof fn lemma_first_named_unique(props: Seq<IrProp>, name: Seq<char>, i: int, k: int)
    requires
        is_first_named(props, name, i),
        is_first_named(props, name, k),
    ensures
        i == k,
{
    if i < k {
        assert(props[i].name@ != name);
    } else if k < i {
        assert(props[k].name@ != name);
    }
}

proof fn lemma_bound(bs: Seq<IrBinding>, name: Seq<char>)
    ensures
        bound(bs, name) == is_bound(bs, name),
{
    if bound(bs, name) {
        let i = choose|i: int| 0 <= i < bs.len() && (#[trigger] bs[i]).prop_name@ == name;
        assert(is_bound(bs, name));
    }
    if is_bound(bs, name) {
        let i = choose|i: int| 0 <= i < bs.len() && (#[trigger] bs[i]).prop_name@ == name;
        assert(bound(bs, name));
    }
}

/// The recursive reader of the first attribute agrees with `attr`.
proof fn lemma_attr(props: Seq<IrProp>, name: Seq<char>)
    ensures
        first_value(props_view(props), name) == (match attr(props, name) {
            Some(l) => Some(lit_view(l)),
            None => None::<LiteralV>,
        }),
    decreases props.len(),
{
    let pv = props_view(props);
    if props.len() == 0 {
        assert(!exists|i: int| is_first_named(props, name, i));
    } else if props[0].name@ == name {
        assert(pv[0].name == name);
        assert(is_first_named(props, name, 0));
        let c = choose|i: int| is_first_named(props, name, i);
        lemma_first_named_unique(props, name, 0, c);
    } else {
        let rest = props.drop_first();
        assert(pv[0].name != name);
        assert(pv.drop_first() =~= props_view(rest));
        lemma_attr(rest, name);
        if exists|i: int| is_first_named(props, name, i) {
            let c = choose|i: int| is_first_named(props, name, i);
            assert(c >= 1);
            assert(is_first_named(rest, name, c - 1)) by {
                assert forall|j: int| 0 <= j < c - 1 implies (#[trigger] rest[j]).name@ != name by {
                    assert(rest[j] == props[j + 1]);
                }
            }
            let c2 = choose|i: int| is_first_named(rest, name, i);
            lemma_first_named_unique(rest, name, c - 1, c2);
        } else {
            assert(!exists|i: int| is_first_named(rest, name, i)) by {
                if exists|i: int| is_first_named(rest, name, i) {
                    let c2 = choose|i: int| is_first_named(rest, name, i);
                    assert(is_first_named(props, name, c2 + 1)) by {
                        assert forall|j: int| 0 <= j < c2 + 1 implies (#[trigger] props[j]).name@ != name by {
                            if j > 0 {
                                assert(props[j] == rest[j - 1]);
                            }
                        }
                    }
                }
            }
        }
    }
}

/// The widget type names differ in length or first letter.
proof fn lemma_kind_names()
    ensures
        "VStack"@.len() == 6 && "VStack"@[0] == 'V',
        "HStack"@.len() == 6 && "HStack"@[0] == 'H',
        "Text"@.len() == 4 && "Text"@[0] == 'T',
        "Button"@.len() == 6 && "Button"@[0] == 'B',
        "ToggleButton"@.len() == 12 && "ToggleButton"@[0] == 'T',
        "Box"@.len() == 3 && "Box"@[0] == 'B',
        "WrapPanel"@.len() == 9 && "WrapPanel"@[0] == 'W',
        "ScrollView"@.len() == 10 && "ScrollView"@[0] == 'S',
        "Grid"@.len() == 4 && "Grid"@[0] == 'G',
        "ZStack"@.len() == 6 && "ZStack"@[0] == 'Z',
{
    reveal_strlit("VStack");
    reveal_strlit("HStack");
    reveal_strlit("Text");
    reveal_strlit("Button");
    reveal_strlit("ToggleButton");
    reveal_strlit("Box");
    reveal_strlit("WrapPanel");
    reveal_strlit("ScrollView");
    reveal_strlit("Grid");
    reveal_strlit("ZStack");
}

/// Each setting of a node's widget is read from the first attribute of that
/// setting's own name (an absent attribute, or one holding another kind of
/// literal, gives the setting's default): stack `spacing` and `padding`
/// (default 0); text `text` (empty) and `font` (`caption`, `subtitle`,
/// `title`, else body); button `text`, `style` (`accent`, else default),
/// `enabled` (true) and `checked` (false), where a bound `text` starts
/// empty, a bound `enabled` true and a bound `checked` false; Box `aspect`
/// and `fill`; WrapPanel `item-cross-size`, `item-spacing` and
/// `line-spacing`; ScrollView `offset-y`. A Grid takes its payload's tracks,
/// and any other type name is unknown.
pub proof fn law_widget_settings_follow_their_attributes(node: IrNode)
    ensures
        (node.widget_type@ == "VStack"@ || node.widget_type@ == "HStack"@) ==>  (widget_spec_of(node) matches Ok(w) && match w {
                    WidgetSpecV::VStack { spacing, padding } | WidgetSpecV::HStack { spacing, padding } => {
                        &&& spacing == (match as_int(attr(node.props@, "spacing"@)) {
                            Some(n) => n,
                            None => 0,
                        })
                        &&& padding == (match as_int(attr(node.props@, "padding"@)) {
                            Some(n) => n,
                            None => 0,
                        })
                    },
                    _ => false,
                }),
        node.widget_type@ == "Text"@ ==> widget_spec_of(node) == Ok::<WidgetSpecV, WidgetFault>(
                    WidgetSpecV::Text {
                        text: if bound(node.bindings@, "text"@) {
                            Seq::empty()
                        } else {
                            as_text(attr(node.props@, "text"@))
                        },
                        font: if as_keyword(attr(node.props@, "font"@)) == Some("caption"@) {
                            TypographyStyle::Caption
                        } else if as_keyword(attr(node.props@, "font"@)) == Some("subtitle"@) {
                            TypographyStyle::Subtitle
                        } else if as_keyword(attr(node.props@, "font"@)) == Some("title"@) {
                            TypographyStyle::Title
                        } else {
                            TypographyStyle::Body
                        },
                    },
                ),
        (node.widget_type@ == "Button"@ || node.widget_type@ == "ToggleButton"@) ==>  (widget_spec_of(node) matches Ok(w) && match w {
                    WidgetSpecV::Button { label, style, enabled } => {
                        &&& node.widget_type@ == "Button"@
                        &&& label == (if bound(node.bindings@, "text"@) {
                            Seq::empty()
                        } else {
                            as_text(attr(node.props@, "text"@))
                        })
                        &&& (style == ButtonStyle::Accent <==> as_keyword(attr(node.props@, "style"@)) == Some("accent"@))
                        &&& enabled == (bound(node.bindings@, "enabled"@) || as_bool_or(attr(node.props@, "enabled"@), true))
                    },
                    WidgetSpecV::ToggleButton { label, style, enabled, checked } => {
                        &&& node.widget_type@ == "ToggleButton"@
                        &&& label == (if bound(node.bindings@, "text"@) {
                            Seq::empty()
                        } else {
                            as_text(attr(node.props@, "text"@))
                        })
                        &&& (style == ButtonStyle::Accent <==> as_keyword(attr(node.props@, "style"@)) == Some("accent"@))
                        &&& enabled == (bound(node.bindings@, "enabled"@) || as_bool_or(attr(node.props@, "enabled"@), true))
                        &&& checked == (!bound(node.bindings@, "checked"@) && as_bool_or(attr(node.props@, "checked"@), false))
                    },
                    _ => false,
                }),
        node.widget_type@ == "Box"@ ==> widget_spec_of(node) == Ok::<WidgetSpecV, WidgetFault>(
                    WidgetSpecV::Box {
                        aspect: match attr(node.props@, "aspect"@) {
                            Some(IrLiteral::Ratio { num, den }) => Some(Ratio { num, den }),
                            _ => None,
                        },
                        fill: match attr(node.props@, "fill"@) {
                            Some(IrLiteral::Color(v)) => Some(Color(v)),
                            _ => None,
                        },
                    },
                ),
        node.widget_type@ == "WrapPanel"@ ==> widget_spec_of(node) == Ok::<WidgetSpecV, WidgetFault>(
                    WidgetSpecV::WrapPanel {
                        item_cross_size: as_int(attr(node.props@, "item-cross-size"@)),
                        item_spacing: as_int(attr(node.props@, "item-spacing"@)),
                        line_spacing: as_int(attr(node.props@, "line-spacing"@)),
                    },
                ),
        node.widget_type@ == "ScrollView"@ ==> widget_spec_of(node) == Ok::<WidgetSpecV, WidgetFault>(
                    WidgetSpecV::ScrollView { offset_y: as_int(attr(node.props@, "offset-y"@)) },
                ),
        node.widget_type@ == "Grid"@ ==> widget_spec_of(node) == (match node.kind_payload {
                    Some(KindPayload::Grid { columns, rows }) => Ok(WidgetSpecV::Grid { columns: columns@, rows: rows@ }),
                    None => Err(WidgetFault::NoGridTracks),
                }),
        node.widget_type@ == "ZStack"@ ==> widget_spec_of(node) == Ok::<WidgetSpecV, WidgetFault>(WidgetSpecV::ZStack),
        !(node.widget_type@ == "VStack"@ || node.widget_type@ == "HStack"@ || node.widget_type@ == "Text"@ || node.widget_type@ == "Button"@ || node.widget_type@ == "ToggleButton"@ || node.widget_type@
                    == "Box"@ || node.widget_type@ == "WrapPanel"@ || node.widget_type@ == "ScrollView"@ || node.widget_type@ == "Grid"@ || node.widget_type@ == "ZStack"@) ==> widget_spec_of(node)
                    is Err,
{
    lemma_kind_names();
    let ps = node.props@;
    lemma_bound(node.bindings@, "text"@);
    lemma_bound(node.bindings@, "enabled"@);
    lemma_bound(node.bindings@, "checked"@);
    lemma_attr(ps, "spacing"@);
    lemma_attr(ps, "padding"@);
    lemma_attr(ps, "text"@);
    lemma_attr(ps, "font"@);
    lemma_attr(ps, "style"@);
    lemma_attr(ps, "enabled"@);
    lemma_attr(ps, "checked"@);
    lemma_attr(ps, "aspect"@);
    lemma_attr(ps, "fill"@);
    lemma_attr(ps, "item-cross-size"@);
    lemma_attr(ps, "item-spacing"@);
    lemma_attr(ps, "line-spacing"@);
    lemma_attr(ps, "offset-y"@);
    let pv = props_view(ps);
    assert(crate::widget_spec::str_attr_or_empty(pv, "text"@) == as_text(attr(ps, "text"@)));
    assert(crate::widget_spec::typography_attr(pv, "font"@) == (if as_keyword(attr(ps, "font"@)) == Some("caption"@) {
        TypographyStyle::Caption
    } else if as_keyword(attr(ps, "font"@)) == Some("subtitle"@) {
        TypographyStyle::Subtitle
    } else if as_keyword(attr(ps, "font"@)) == Some("title"@) {
        TypographyStyle::Title
    } else {
        TypographyStyle::Body
    }));
}

} // verus!
