//! The IR text grammar, as functions from a token sequence and a position
//! to the value read there and the position after it (`None`: no such
//! value at that position, a parse error).
use crate::ir::{IrAlignment, IrSlotData, IrStateType, IrType, TrackSize};
use crate::ir_lexer::TokenView;
use crate::ir_view::{
    BindingV, BranchV, ComponentV, ExprV, FlowV, HandlerV, LiteralV, MemberV, NodeV, PartV, PayloadV, PropV,
    SlotV, StateV,
};
use vstd::prelude::*;

verus! {

/// Whether the token at `pos` is `k`.
pub open spec fn tok_is(t: Seq<TokenView>, pos: int, k: TokenView) -> bool {
    0 <= pos < t.len() && t[pos] == k
}

/// The identifier at `pos`, if that token is one.
pub open spec fn ident_at(t: Seq<TokenView>, pos: int) -> Option<Seq<char>> {
    if 0 <= pos < t.len() {
        match t[pos] {
            TokenView::Ident(s) => Some(s),
            _ => None,
        }
    } else {
        None
    }
}

/// Whether the token at `pos` is the keyword `kw`.
pub open spec fn is_kw(t: Seq<TokenView>, pos: int, kw: Seq<char>) -> bool {
    ident_at(t, pos) == Some(kw)
}

// ── Literals ────────────────────────────────────────────────────────────

/// A scalar list element at `pos`: an integer, a string, `true` or `false`.
pub open spec fn list_elem(t: Seq<TokenView>, pos: int) -> Option<LiteralV> {
    if 0 <= pos < t.len() {
        match t[pos] {
            TokenView::Int(n) => Some(LiteralV::Int(n)),
            TokenView::Str(s) => Some(LiteralV::Str(s)),
            TokenView::Ident(s) => if s == "true"@ {
                Some(LiteralV::Bool(true))
            } else if s == "false"@ {
                Some(LiteralV::Bool(false))
            } else {
                None
            },
            _ => None,
        }
    } else {
        None
    }
}

/// The rest of a non-empty list literal from its element at `pos`, with the
/// elements `acc` already read.
pub open spec fn list_items(t: Seq<TokenView>, pos: int, acc: Seq<LiteralV>) -> Option<(LiteralV, int)>
    decreases t.len() - pos,
{
    match list_elem(t, pos) {
        Some(v) => if tok_is(t, pos + 1, TokenView::Comma) {
            list_items(t, pos + 2, acc.push(v))
        } else if tok_is(t, pos + 1, TokenView::RBracket) {
            Some((LiteralV::List(acc.push(v)), pos + 2))
        } else {
            None
        },
        None => None,
    }
}

/// `[` (element (`,` element)*)? `]`, of scalar elements.
pub open spec fn list_literal(t: Seq<TokenView>, pos: int) -> Option<(LiteralV, int)> {
    if !tok_is(t, pos, TokenView::LBracket) {
        None
    } else if tok_is(t, pos + 1, TokenView::RBracket) {
        Some((LiteralV::List(Seq::empty()), pos + 2))
    } else {
        list_items(t, pos + 1, Seq::empty())
    }
}

/// A literal: a list literal, an integer, a string, `true`, `false`, any
/// other identifier, a ratio or a colour.
pub open spec fn literal(t: Seq<TokenView>, pos: int) -> Option<(LiteralV, int)> {
    if tok_is(t, pos, TokenView::LBracket) {
        list_literal(t, pos)
    } else if 0 <= pos < t.len() {
        match t[pos] {
            TokenView::Int(n) => Some((LiteralV::Int(n), pos + 1)),
            TokenView::Str(s) => Some((LiteralV::Str(s), pos + 1)),
            TokenView::Ident(s) => if s == "true"@ {
                Some((LiteralV::Bool(true), pos + 1))
            } else if s == "false"@ {
                Some((LiteralV::Bool(false), pos + 1))
            } else {
                Some((LiteralV::Ident(s), pos + 1))
            },
            TokenView::Ratio { num, den } => Some((LiteralV::Ratio { num, den }, pos + 1)),
            TokenView::Color(c) => Some((LiteralV::Color(c), pos + 1)),
            _ => None,
        }
    } else {
        None
    }
}

// ── Expressions ─────────────────────────────────────────────────────────

/// An expression: an integer, a string, `true`, `false`, a list literal or
/// a parenthesised S-expression.
pub open spec fn expr(t: Seq<TokenView>, pos: int) -> Option<(ExprV, int)>
    decreases t.len() - pos, 1int,
{
    if 0 <= pos < t.len() {
        match t[pos] {
            TokenView::Int(n) => Some((ExprV::IntLit(n), pos + 1)),
            TokenView::Str(s) => Some((ExprV::StrLit(s), pos + 1)),
            TokenView::Ident(s) => if s == "true"@ {
                Some((ExprV::BoolLit(true), pos + 1))
            } else if s == "false"@ {
                Some((ExprV::BoolLit(false), pos + 1))
            } else {
                None
            },
            TokenView::LBracket => match list_literal(t, pos) {
                Some((LiteralV::List(items), q)) => Some((ExprV::ListLit(items), q)),
                _ => None,
            },
            TokenView::LParen => sexpr(t, pos),
            _ => None,
        }
    } else {
        None
    }
}

/// The body of an S-expression after its tag, up to (not including) its
/// closing `)`.
pub open spec fn sexpr_body(t: Seq<TokenView>, tag: Seq<char>, p: int) -> Option<(ExprV, int)>
    decreases t.len() - p, 3int,
{
    if tag == "prop-read"@ {
        match ident_at(t, p) {
            Some(path) => Some((ExprV::PropRead { path }, p + 1)),
            None => None,
        }
    } else if tag == "str-prop-read"@ {
        match ident_at(t, p) {
            Some(path) => Some((ExprV::StrPropRead { path }, p + 1)),
            None => None,
        }
    } else if tag == "bool-prop-read"@ {
        match ident_at(t, p) {
            Some(path) => Some((ExprV::BoolPropRead { path }, p + 1)),
            None => None,
        }
    } else if tag == "list-prop-read"@ {
        match ident_at(t, p) {
            Some(path) => Some((ExprV::ListPropRead { path, elem: IrType::I32 }, p + 1)),
            None => None,
        }
    } else if tag == "item-read"@ {
        match ident_at(t, p) {
            Some(binder) => Some((ExprV::ItemRead { binder }, p + 1)),
            None => None,
        }
    } else if tag == "index-read"@ {
        match ident_at(t, p) {
            Some(binder) => Some((ExprV::IndexRead { binder }, p + 1)),
            None => None,
        }
    } else if tag == "list-append"@ {
        match ident_at(t, p) {
            Some(path) => match expr(t, p + 1) {
                Some((v, q)) => Some((ExprV::ListAppend { path, elem: IrType::I32, value: Box::new(v) }, q)),
                None => None,
            },
            None => None,
        }
    } else if tag == "list-drop-last"@ {
        match ident_at(t, p) {
            Some(path) => Some((ExprV::ListDropLast { path, elem: IrType::I32 }, p + 1)),
            None => None,
        }
    } else if tag == "assign"@ {
        match ident_at(t, p) {
            Some(lhs) => match expr(t, p + 1) {
                Some((v, q)) => Some((ExprV::Assign { lhs, rhs: Box::new(v) }, q)),
                None => None,
            },
            None => None,
        }
    } else if tag == "compound-assign"@ {
        if 0 <= p < t.len() {
            match t[p] {
                TokenView::AssignOp(op) => match ident_at(t, p + 1) {
                    Some(lhs) => match expr(t, p + 2) {
                        Some((v, q)) => Some((ExprV::CompoundAssign { lhs, op, rhs: Box::new(v) }, q)),
                        None => None,
                    },
                    None => None,
                },
                _ => None,
            }
        } else {
            None
        }
    } else if tag == "interp"@ {
        match interp_parts(t, p, Seq::empty()) {
            Some((parts, q)) => Some((ExprV::Interpolation(parts), q)),
            None => None,
        }
    } else if tag == "block"@ {
        match block_items(t, p, Seq::empty()) {
            Some((items, q)) => Some((ExprV::Block(items), q)),
            None => None,
        }
    } else {
        None
    }
}

/// `(` tag body `)`.
pub open spec fn sexpr(t: Seq<TokenView>, pos: int) -> Option<(ExprV, int)>
    decreases t.len() - pos, 0int,
{
    if !tok_is(t, pos, TokenView::LParen) {
        None
    } else {
        match ident_at(t, pos + 1) {
            Some(tag) => match sexpr_body(t, tag, pos + 2) {
                Some((e, q)) => if tok_is(t, q, TokenView::RParen) {
                    Some((e, q + 1))
                } else {
                    None
                },
                None => None,
            },
            None => None,
        }
    }
}

/// One interpolation part: a string, or `(` expression `)`.
pub open spec fn interp_part(t: Seq<TokenView>, pos: int) -> Option<(PartV, int)>
    decreases t.len() - pos, 0int,
{
    if 0 <= pos < t.len() {
        match t[pos] {
            TokenView::Str(s) => Some((PartV::Literal(s), pos + 1)),
            TokenView::LParen => match expr(t, pos + 1) {
                Some((e, q)) => if tok_is(t, q, TokenView::RParen) {
                    Some((PartV::Expr(e), q + 1))
                } else {
                    None
                },
                None => None,
            },
            _ => None,
        }
    } else {
        None
    }
}

/// Interpolation parts up to the closing `)`, with `acc` already read.
pub open spec fn interp_parts(t: Seq<TokenView>, pos: int, acc: Seq<PartV>) -> Option<(Seq<PartV>, int)>
    decreases t.len() - pos, 1int,
{
    if tok_is(t, pos, TokenView::RParen) {
        Some((acc, pos))
    } else {
        match interp_part(t, pos) {
            Some((part, q)) => if pos < q <= t.len() {
                interp_parts(t, q, acc.push(part))
            } else {
                None
            },
            None => None,
        }
    }
}

/// Block statements up to the closing `)`, with `acc` already read.
pub open spec fn block_items(t: Seq<TokenView>, pos: int, acc: Seq<ExprV>) -> Option<(Seq<ExprV>, int)>
    decreases t.len() - pos, 2int,
{
    if tok_is(t, pos, TokenView::RParen) {
        Some((acc, pos))
    } else {
        match expr(t, pos) {
            Some((e, q)) => if pos < q <= t.len() {
                block_items(t, q, acc.push(e))
            } else {
                None
            },
            None => None,
        }
    }
}

// ── Attributes, handlers, tracks, placements ────────────────────────────

/// `prop NAME = LITERAL`.
pub open spec fn prop(t: Seq<TokenView>, pos: int) -> Option<(PropV, int)> {
    if is_kw(t, pos, "prop"@) && tok_is(t, pos + 2, TokenView::Eq) {
        match (ident_at(t, pos + 1), literal(t, pos + 3)) {
            (Some(name), Some((value, q))) => Some((PropV { name, value }, q)),
            _ => None,
        }
    } else {
        None
    }
}

/// `bind NAME = EXPR`.
pub open spec fn binding(t: Seq<TokenView>, pos: int) -> Option<(BindingV, int)> {
    if is_kw(t, pos, "bind"@) && tok_is(t, pos + 2, TokenView::Eq) {
        match (ident_at(t, pos + 1), expr(t, pos + 3)) {
            (Some(prop_name), Some((e, q))) => Some((BindingV { prop_name, expr: e }, q)),
            _ => None,
        }
    } else {
        None
    }
}

/// The optional `( "ARG" )` of a handler at `pos`: the argument and the
/// position after it.
pub open spec fn handler_arg(t: Seq<TokenView>, pos: int) -> Option<(Option<Seq<char>>, int)> {
    if tok_is(t, pos, TokenView::LParen) {
        if 0 <= pos + 1 < t.len() && tok_is(t, pos + 2, TokenView::RParen) {
            match t[pos + 1] {
                TokenView::Str(s) => Some((Some(s), pos + 3)),
                _ => None,
            }
        } else {
            None
        }
    } else {
        Some((None, pos))
    }
}

/// `on SIGNAL ( "ARG" )? { EXPR }`.
pub open spec fn handler(t: Seq<TokenView>, pos: int) -> Option<(HandlerV, int)> {
    if is_kw(t, pos, "on"@) {
        match (ident_at(t, pos + 1), handler_arg(t, pos + 2)) {
            (Some(signal), Some((arg, p))) => if tok_is(t, p, TokenView::LBrace) {
                match expr(t, p + 1) {
                    Some((e, q)) => if tok_is(t, q, TokenView::RBrace) {
                        Some((HandlerV { signal, arg, expr: e }, q + 1))
                    } else {
                        None
                    },
                    None => None,
                }
            } else {
                None
            },
            _ => None,
        }
    } else {
        None
    }
}

/// The track list from `pos` on, with `acc` already read: `n *` is a star
/// track of weight `n`, a lone `n` a fixed track, a lone `*` a star track of
/// weight 1; the list ends at the first other token.
pub open spec fn track_items(t: Seq<TokenView>, pos: int, acc: Seq<TrackSize>) -> (Seq<TrackSize>, int)
    decreases t.len() - pos,
{
    if 0 <= pos < t.len() {
        match t[pos] {
            TokenView::Int(n) => if tok_is(t, pos + 1, TokenView::Star) {
                track_items(t, pos + 2, acc.push(TrackSize::Star(n as u32)))
            } else {
                track_items(t, pos + 1, acc.push(TrackSize::Fixed(n)))
            },
            TokenView::Star => track_items(t, pos + 1, acc.push(TrackSize::Star(1))),
            _ => (acc, pos),
        }
    } else {
        (acc, pos)
    }
}

/// `tracks AXIS = TRACK*`: the axis name, the tracks and the position after.
pub open spec fn tracks_line(t: Seq<TokenView>, pos: int) -> Option<(Seq<char>, Seq<TrackSize>, int)> {
    if is_kw(t, pos, "tracks"@) && tok_is(t, pos + 2, TokenView::Eq) {
        match ident_at(t, pos + 1) {
            Some(axis) => {
                let (tracks, q) = track_items(t, pos + 3, Seq::empty());
                Some((axis, tracks, q))
            },
            None => None,
        }
    } else {
        None
    }
}

/// An integer `>= 0` at `pos`.
pub open spec fn nonnegative_at(t: Seq<TokenView>, pos: int) -> Option<u32> {
    if 0 <= pos < t.len() {
        match t[pos] {
            TokenView::Int(n) => if n >= 0 {
                Some(n as u32)
            } else {
                None
            },
            _ => None,
        }
    } else {
        None
    }
}

/// An integer `>= 1` at `pos`.
pub open spec fn positive_at(t: Seq<TokenView>, pos: int) -> Option<u32> {
    if 0 <= pos < t.len() {
        match t[pos] {
            TokenView::Int(n) => if n >= 1 {
                Some(n as u32)
            } else {
                None
            },
            _ => None,
        }
    } else {
        None
    }
}

/// An alignment keyword at `pos`.
pub open spec fn alignment_at(t: Seq<TokenView>, pos: int) -> Option<IrAlignment> {
    match ident_at(t, pos) {
        Some(s) => if s == "start"@ {
            Some(IrAlignment::Start)
        } else if s == "center"@ {
            Some(IrAlignment::Center)
        } else if s == "end"@ {
            Some(IrAlignment::End)
        } else if s == "stretch"@ {
            Some(IrAlignment::Stretch)
        } else {
            None
        },
        None => None,
    }
}

/// The position after a `KEY : VALUE` entry whose value ends at `q`: past
/// an optional comma.
pub open spec fn after_entry(t: Seq<TokenView>, q: int) -> int {
    if tok_is(t, q, TokenView::Comma) {
        q + 1
    } else {
        q
    }
}

/// The entries of a grid placement block from `pos` up to its `}`, with the
/// values read so far in `d` and the keys seen in `seen`. Each key may
/// appear once: `row` and `column` take integers `>= 0`, the spans integers
/// `>= 1`, `h-align` and `v-align` alignment keywords.
pub open spec fn grid_entries(t: Seq<TokenView>, pos: int, d: IrSlotData, seen: Seq<Seq<char>>) -> Option<
    (IrSlotData, int),
>
    decreases t.len() - pos,
{
    if tok_is(t, pos, TokenView::RBrace) {
        Some((d, pos + 1))
    } else {
        match (ident_at(t, pos), d) {
            (
                Some(key),
                IrSlotData::Grid { row, column, row_span, column_span, h_align, v_align },
            ) => if seen.contains(key) || !tok_is(t, pos + 1, TokenView::Colon) {
                None
            } else {
                let v = pos + 2;
                let next = if key == "row"@ {
                    match nonnegative_at(t, v) {
                        Some(n) => Some(IrSlotData::Grid { row: n, column, row_span, column_span, h_align, v_align }),
                        None => None,
                    }
                } else if key == "column"@ {
                    match nonnegative_at(t, v) {
                        Some(n) => Some(IrSlotData::Grid { row, column: n, row_span, column_span, h_align, v_align }),
                        None => None,
                    }
                } else if key == "row-span"@ {
                    match positive_at(t, v) {
                        Some(n) => Some(IrSlotData::Grid { row, column, row_span: n, column_span, h_align, v_align }),
                        None => None,
                    }
                } else if key == "column-span"@ {
                    match positive_at(t, v) {
                        Some(n) => Some(IrSlotData::Grid { row, column, row_span, column_span: n, h_align, v_align }),
                        None => None,
                    }
                } else if key == "h-align"@ {
                    match alignment_at(t, v) {
                        Some(a) => Some(IrSlotData::Grid { row, column, row_span, column_span, h_align: a, v_align }),
                        None => None,
                    }
                } else if key == "v-align"@ {
                    match alignment_at(t, v) {
                        Some(a) => Some(IrSlotData::Grid { row, column, row_span, column_span, h_align, v_align: a }),
                        None => None,
                    }
                } else {
                    None
                };
                match next {
                    Some(d2) => if v < t.len() {
                        grid_entries(t, after_entry(t, v + 1), d2, seen.push(key))
                    } else {
                        None
                    },
                    None => None,
                }
            },
            _ => None,
        }
    }
}

/// The entries of a ZStack placement block from `pos` up to its `}`: only
/// `h-align` and `v-align`, each once.
pub open spec fn zstack_entries(t: Seq<TokenView>, pos: int, d: IrSlotData, seen: Seq<Seq<char>>) -> Option<
    (IrSlotData, int),
>
    decreases t.len() - pos,
{
    if tok_is(t, pos, TokenView::RBrace) {
        Some((d, pos + 1))
    } else {
        match (ident_at(t, pos), d) {
            (Some(key), IrSlotData::ZStack { h_align, v_align }) => if seen.contains(key) || !tok_is(
                t,
                pos + 1,
                TokenView::Colon,
            ) {
                None
            } else {
                let v = pos + 2;
                let next = if key == "h-align"@ {
                    match alignment_at(t, v) {
                        Some(a) => Some(IrSlotData::ZStack { h_align: a, v_align }),
                        None => None,
                    }
                } else if key == "v-align"@ {
                    match alignment_at(t, v) {
                        Some(a) => Some(IrSlotData::ZStack { h_align, v_align: a }),
                        None => None,
                    }
                } else {
                    None
                };
                match next {
                    Some(d2) => if v < t.len() {
                        zstack_entries(t, after_entry(t, v + 1), d2, seen.push(key))
                    } else {
                        None
                    },
                    None => None,
                }
            },
            _ => None,
        }
    }
}

/// Grid placement before any entry: cell (0, 0), spans 1, stretched.
pub open spec fn grid_slot_default() -> IrSlotData {
    IrSlotData::Grid {
        row: 0,
        column: 0,
        row_span: 1,
        column_span: 1,
        h_align: IrAlignment::Stretch,
        v_align: IrAlignment::Stretch,
    }
}

/// ZStack placement before any entry: centred.
pub open spec fn zstack_slot_default() -> IrSlotData {
    IrSlotData::ZStack { h_align: IrAlignment::Center, v_align: IrAlignment::Center }
}

/// `placement (grid|zstack) { ENTRIES }`.
pub open spec fn slot_data(t: Seq<TokenView>, pos: int) -> Option<(IrSlotData, int)> {
    if is_kw(t, pos, "placement"@) && tok_is(t, pos + 2, TokenView::LBrace) {
        match ident_at(t, pos + 1) {
            Some(kind) => if kind == "grid"@ {
                grid_entries(t, pos + 3, grid_slot_default(), Seq::empty())
            } else if kind == "zstack"@ {
                zstack_entries(t, pos + 3, zstack_slot_default(), Seq::empty())
            } else {
                None
            },
            None => None,
        }
    } else {
        None
    }
}

// ── Nodes and members ───────────────────────────────────────────────────

/// What a node body has gathered so far.
pub struct NodeAcc {
    pub props: Seq<PropV>,
    pub bindings: Seq<BindingV>,
    pub handlers: Seq<HandlerV>,
    pub children: Seq<MemberV>,
    pub columns: Option<Seq<TrackSize>>,
    pub rows: Option<Seq<TrackSize>>,
}

/// A node body before any member.
pub open spec fn empty_node_acc() -> NodeAcc {
    NodeAcc {
        props: Seq::empty(),
        bindings: Seq::empty(),
        handlers: Seq::empty(),
        children: Seq::empty(),
        columns: None,
        rows: None,
    }
}

/// The node a finished body describes: its kind payload is present exactly
/// when a `tracks` line was read, a missing axis standing as an empty list.
pub open spec fn finish_node(widget_type: Seq<char>, acc: NodeAcc) -> NodeV {
    NodeV {
        widget_type,
        props: acc.props,
        bindings: acc.bindings,
        handlers: acc.handlers,
        children: acc.children,
        kind_payload: if acc.columns is Some || acc.rows is Some {
            Some(
                PayloadV::Grid {
                    columns: match acc.columns {
                        Some(c) => c,
                        None => Seq::empty(),
                    },
                    rows: match acc.rows {
                        Some(r) => r,
                        None => Seq::empty(),
                    },
                },
            )
        } else {
            None
        },
    }
}

/// `node TYPE { BODY }`.
pub open spec fn node(t: Seq<TokenView>, pos: int) -> Option<(NodeV, int)>
    decreases t.len() - pos, 0int,
{
    if is_kw(t, pos, "node"@) && tok_is(t, pos + 2, TokenView::LBrace) {
        match ident_at(t, pos + 1) {
            Some(wt) => node_body(t, pos + 3, wt, empty_node_acc()),
            None => None,
        }
    } else {
        None
    }
}

/// A node body from `pos` up to its `}`: `prop`, `bind`, `on`, `child`,
/// `node`, `if`, `for` and, on a `Grid` only, one `tracks` line per axis.
pub open spec fn node_body(t: Seq<TokenView>, pos: int, wt: Seq<char>, acc: NodeAcc) -> Option<(NodeV, int)>
    decreases t.len() - pos, 3int,
{
    if tok_is(t, pos, TokenView::RBrace) {
        Some((finish_node(wt, acc), pos + 1))
    } else {
        match ident_at(t, pos) {
            Some(s) => if s == "prop"@ {
                match prop(t, pos) {
                    Some((p, q)) => if pos < q <= t.len() {
                        node_body(t, q, wt, NodeAcc { props: acc.props.push(p), ..acc })
                    } else {
                        None
                    },
                    None => None,
                }
            } else if s == "bind"@ {
                match binding(t, pos) {
                    Some((b, q)) => if pos < q <= t.len() {
                        node_body(t, q, wt, NodeAcc { bindings: acc.bindings.push(b), ..acc })
                    } else {
                        None
                    },
                    None => None,
                }
            } else if s == "on"@ {
                match handler(t, pos) {
                    Some((h, q)) => if pos < q <= t.len() {
                        node_body(t, q, wt, NodeAcc { handlers: acc.handlers.push(h), ..acc })
                    } else {
                        None
                    },
                    None => None,
                }
            } else if s == "child"@ {
                match child_slot(t, pos) {
                    Some((c, q)) => if pos < q <= t.len() {
                        node_body(t, q, wt, NodeAcc { children: acc.children.push(MemberV::Widget(c)), ..acc })
                    } else {
                        None
                    },
                    None => None,
                }
            } else if s == "node"@ {
                match node(t, pos) {
                    Some((n, q)) => if pos < q <= t.len() {
                        node_body(
                            t,
                            q,
                            wt,
                            NodeAcc {
                                children: acc.children.push(MemberV::Widget(SlotV { node: n, slot_data: None })),
                                ..acc
                            },
                        )
                    } else {
                        None
                    },
                    None => None,
                }
            } else if s == "if"@ {
                match if_member(t, pos) {
                    Some((f, q)) => if pos < q <= t.len() {
                        node_body(t, q, wt, NodeAcc { children: acc.children.push(MemberV::ControlFlow(f)), ..acc })
                    } else {
                        None
                    },
                    None => None,
                }
            } else if s == "for"@ {
                match for_member(t, pos) {
                    Some((f, q)) => if pos < q <= t.len() {
                        node_body(t, q, wt, NodeAcc { children: acc.children.push(MemberV::ControlFlow(f)), ..acc })
                    } else {
                        None
                    },
                    None => None,
                }
            } else if s == "tracks"@ {
                if wt != "Grid"@ {
                    None
                } else {
                    match tracks_line(t, pos) {
                        Some((axis, tracks, q)) => if !(pos < q <= t.len()) {
                            None
                        } else if axis == "columns"@ {
                            if acc.columns is Some {
                                None
                            } else {
                                node_body(t, q, wt, NodeAcc { columns: Some(tracks), ..acc })
                            }
                        } else if axis == "rows"@ {
                            if acc.rows is Some {
                                None
                            } else {
                                node_body(t, q, wt, NodeAcc { rows: Some(tracks), ..acc })
                            }
                        } else {
                            None
                        },
                        None => None,
                    }
                }
            } else {
                None
            },
            None => None,
        }
    }
}

/// `child { placement? node }`: exactly one `node` block and at most one
/// `placement` block, in either order.
pub open spec fn child_slot(t: Seq<TokenView>, pos: int) -> Option<(SlotV, int)>
    decreases t.len() - pos, 2int,
{
    if is_kw(t, pos, "child"@) && tok_is(t, pos + 1, TokenView::LBrace) {
        slot_body(t, pos + 2, None, None)
    } else {
        None
    }
}

/// A child-slot body from `pos` up to its `}`.
pub open spec fn slot_body(t: Seq<TokenView>, pos: int, data: Option<IrSlotData>, n: Option<NodeV>) -> Option<
    (SlotV, int),
>
    decreases t.len() - pos, 1int,
{
    if tok_is(t, pos, TokenView::RBrace) {
        match n {
            Some(nv) => Some((SlotV { node: nv, slot_data: data }, pos + 1)),
            None => None,
        }
    } else {
        match ident_at(t, pos) {
            Some(s) => if s == "placement"@ {
                if data is Some {
                    None
                } else {
                    match slot_data(t, pos) {
                        Some((d, q)) => if pos < q <= t.len() {
                            slot_body(t, q, Some(d), n)
                        } else {
                            None
                        },
                        None => None,
                    }
                }
            } else if s == "node"@ {
                if n is Some {
                    None
                } else {
                    match node(t, pos) {
                        Some((nv, q)) => if pos < q <= t.len() {
                            slot_body(t, q, data, Some(nv))
                        } else {
                            None
                        },
                        None => None,
                    }
                }
            } else {
                None
            },
            None => None,
        }
    }
}

/// The members of an `if` or `for` body from `pos` up to its `}`, with
/// `acc` already read: `child`, `node`, `if` and `for` only.
pub open spec fn member_list(t: Seq<TokenView>, pos: int, acc: Seq<MemberV>) -> Option<(Seq<MemberV>, int)>
    decreases t.len() - pos, 3int,
{
    if tok_is(t, pos, TokenView::RBrace) {
        Some((acc, pos + 1))
    } else {
        match ident_at(t, pos) {
            Some(s) => if s == "child"@ {
                match child_slot(t, pos) {
                    Some((c, q)) => if pos < q <= t.len() {
                        member_list(t, q, acc.push(MemberV::Widget(c)))
                    } else {
                        None
                    },
                    None => None,
                }
            } else if s == "node"@ {
                match node(t, pos) {
                    Some((n, q)) => if pos < q <= t.len() {
                        member_list(t, q, acc.push(MemberV::Widget(SlotV { node: n, slot_data: None })))
                    } else {
                        None
                    },
                    None => None,
                }
            } else if s == "if"@ {
                match if_member(t, pos) {
                    Some((f, q)) => if pos < q <= t.len() {
                        member_list(t, q, acc.push(MemberV::ControlFlow(f)))
                    } else {
                        None
                    },
                    None => None,
                }
            } else if s == "for"@ {
                match for_member(t, pos) {
                    Some((f, q)) => if pos < q <= t.len() {
                        member_list(t, q, acc.push(MemberV::ControlFlow(f)))
                    } else {
                        None
                    },
                    None => None,
                }
            } else {
                None
            },
            None => None,
        }
    }
}

/// `if EXPR { MEMBERS }`: one branch.
pub open spec fn if_member(t: Seq<TokenView>, pos: int) -> Option<(FlowV, int)>
    decreases t.len() - pos, 0int,
{
    if is_kw(t, pos, "if"@) {
        match expr(t, pos + 1) {
            Some((c, q)) => if pos < q && tok_is(t, q, TokenView::LBrace) {
                match member_list(t, q + 1, Seq::empty()) {
                    Some((body, r)) => Some((FlowV::If { branches: seq![BranchV { condition: c, body }] }, r)),
                    None => None,
                }
            } else {
                None
            },
            None => None,
        }
    } else {
        None
    }
}

/// The optional `, INDEX` of a `for` header at `pos`.
pub open spec fn index_binder(t: Seq<TokenView>, pos: int) -> Option<(Option<Seq<char>>, int)> {
    if tok_is(t, pos, TokenView::Comma) {
        match ident_at(t, pos + 1) {
            Some(ib) => Some((Some(ib), pos + 2)),
            None => None,
        }
    } else {
        Some((None, pos))
    }
}

/// `for ITEM (, INDEX)? in COLLECTION { MEMBERS }`; the collection reads as
/// an `i32` list until validation annotates its element type.
pub open spec fn for_member(t: Seq<TokenView>, pos: int) -> Option<(FlowV, int)>
    decreases t.len() - pos, 0int,
{
    if is_kw(t, pos, "for"@) {
        match (ident_at(t, pos + 1), index_binder(t, pos + 2)) {
            (Some(binder), Some((ib, p))) => if pos < p && is_kw(t, p, "in"@) && tok_is(
                t,
                p + 2,
                TokenView::LBrace,
            ) {
                match (ident_at(t, p + 1), member_list(t, p + 3, Seq::empty())) {
                    (Some(coll), Some((body, r))) => Some(
                        (
                            FlowV::For {
                                binder,
                                index_binder: ib,
                                collection: ExprV::ListPropRead { path: coll, elem: IrType::I32 },
                                body,
                            },
                            r,
                        ),
                    ),
                    _ => None,
                }
            } else {
                None
            },
            _ => None,
        }
    } else {
        None
    }
}

// ── Component ───────────────────────────────────────────────────────────

/// The element type named `s`.
pub open spec fn scalar_type_named(s: Seq<char>) -> Option<IrType> {
    if s == "i32"@ {
        Some(IrType::I32)
    } else if s == "string"@ {
        Some(IrType::Str)
    } else if s == "bool"@ {
        Some(IrType::Bool)
    } else {
        None
    }
}

/// `state NAME : TYPE ([ ])? = LITERAL`.
pub open spec fn state(t: Seq<TokenView>, pos: int) -> Option<(StateV, int)> {
    if is_kw(t, pos, "state"@) && tok_is(t, pos + 2, TokenView::Colon) {
        match (ident_at(t, pos + 1), ident_at(t, pos + 3)) {
            (Some(name), Some(ty_name)) => match scalar_type_named(ty_name) {
                Some(elem) => {
                    let collection = tok_is(t, pos + 4, TokenView::LBracket);
                    let p = if collection {
                        pos + 6
                    } else {
                        pos + 4
                    };
                    if (collection && !tok_is(t, pos + 5, TokenView::RBracket)) || !tok_is(t, p, TokenView::Eq) {
                        None
                    } else {
                        match literal(t, p + 1) {
                            Some((d, q)) => Some(
                                (
                                    StateV {
                                        name,
                                        ty: if collection {
                                            IrStateType::Collection(elem)
                                        } else {
                                            IrStateType::Scalar(elem)
                                        },
                                        default: d,
                                    },
                                    q,
                                ),
                            ),
                            None => None,
                        }
                    }
                },
                None => None,
            },
            _ => None,
        }
    } else {
        None
    }
}

/// What a component body has gathered so far.
pub struct ComponentAcc {
    pub host_props: Seq<PropV>,
    pub host_bindings: Seq<BindingV>,
    pub states: Seq<StateV>,
    pub root: Option<NodeV>,
}

/// A component body from `pos` up to its `}`: `state` declarations, `host
/// prop` / `host bind` members and exactly one root `node`.
pub open spec fn component_body(t: Seq<TokenView>, pos: int, name: Seq<char>, base: Seq<char>, acc: ComponentAcc) -> Option<
    (ComponentV, int),
>
    decreases t.len() - pos,
{
    if tok_is(t, pos, TokenView::RBrace) {
        match acc.root {
            Some(r) => Some(
                (
                    ComponentV {
                        name,
                        base,
                        host_props: acc.host_props,
                        host_bindings: acc.host_bindings,
                        states: acc.states,
                        root: r,
                    },
                    pos + 1,
                ),
            ),
            None => None,
        }
    } else {
        match ident_at(t, pos) {
            Some(s) => if s == "state"@ {
                match state(t, pos) {
                    Some((st, q)) => if pos < q <= t.len() {
                        component_body(t, q, name, base, ComponentAcc { states: acc.states.push(st), ..acc })
                    } else {
                        None
                    },
                    None => None,
                }
            } else if s == "host"@ {
                if is_kw(t, pos + 1, "prop"@) {
                    match prop(t, pos + 1) {
                        Some((p, q)) => if pos < q <= t.len() {
                            component_body(
                                t,
                                q,
                                name,
                                base,
                                ComponentAcc { host_props: acc.host_props.push(p), ..acc },
                            )
                        } else {
                            None
                        },
                        None => None,
                    }
                } else if is_kw(t, pos + 1, "bind"@) {
                    match binding(t, pos + 1) {
                        Some((b, q)) => if pos < q <= t.len() {
                            component_body(
                                t,
                                q,
                                name,
                                base,
                                ComponentAcc { host_bindings: acc.host_bindings.push(b), ..acc },
                            )
                        } else {
                            None
                        },
                        None => None,
                    }
                } else {
                    None
                }
            } else if s == "node"@ {
                if acc.root is Some {
                    None
                } else {
                    match node(t, pos) {
                        Some((n, q)) => if pos < q <= t.len() {
                            component_body(t, q, name, base, ComponentAcc { root: Some(n), ..acc })
                        } else {
                            None
                        },
                        None => None,
                    }
                }
            } else {
                None
            },
            None => None,
        }
    }
}

/// `component NAME inherits BASE { BODY }` spanning the whole token sequence.
pub open spec fn component(t: Seq<TokenView>) -> Option<ComponentV> {
    if is_kw(t, 0, "component"@) && is_kw(t, 2, "inherits"@) && tok_is(t, 4, TokenView::LBrace) {
        match (ident_at(t, 1), ident_at(t, 3)) {
            (Some(name), Some(base)) => match component_body(
                t,
                5,
                name,
                base,
                ComponentAcc {
                    host_props: Seq::empty(),
                    host_bindings: Seq::empty(),
                    states: Seq::empty(),
                    root: None,
                },
            ) {
                Some((c, q)) => if q == t.len() {
                    Some(c)
                } else {
                    None
                },
                None => None,
            },
            _ => None,
        }
    } else {
        None
    }
}

} // verus!
