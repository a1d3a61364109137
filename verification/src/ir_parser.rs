//! The recursive-descent parser of IR text: from the lexer's tokens to the
//! in-memory IR, following the grammar of [`crate::ir_grammar`] exactly.
use crate::ir::{
    ControlFlowBranch, ControlFlowNode, HandlerExpr, InterpolationPart, IrAlignment, IrBinding, IrChildSlot,
    IrComponent, IrHandler, IrLiteral, IrMember, IrNode, IrProp, IrSlotData, IrState, IrStateType, IrType,
    KindPayload, TrackSize,
};
use crate::ir_grammar;
use crate::ir_grammar::{ComponentAcc, NodeAcc};
use crate::ir_lexer::{tokens_view, Token, TokenView};
use crate::ir_loader::IrLoadError;
use crate::ir_view::{
    binding_view, bindings_view, branches_view, component_view, expr_view, exprs_view, flow_view, handler_view,
    handlers_view, lemma_branches_view_push, lemma_exprs_view_push, lemma_lits_view_push, lemma_members_view_push,
    lemma_parts_view_push, lit_view, lits_view, members_view, node_view, part_view, parts_view, prop_view,
    props_view, slot_view, state_view, states_view, MemberV,
};
use crate::text::str_eq;
use vstd::prelude::*;

verus! {

broadcast use vstd::string::group_string_axioms;

/// `r` is what the grammar reads: the value (by `view`) and the position
/// after it when `s` has one, a parse error when `s` is `None`.
pub open spec fn agrees<T, V>(r: Result<(T, usize), IrLoadError>, s: Option<(V, int)>, view: spec_fn(T) -> V) -> bool {
    match s {
        Some((v, q)) => r matches Ok((x, q2)) && view(x) == v && q2 == q,
        None => r matches Err(e) && e is Parse,
    }
}

/// The token kinds that carry no payload.
pub open spec fn is_punct(k: TokenView) -> bool {
    match k {
        TokenView::LBrace | TokenView::RBrace | TokenView::LParen | TokenView::RParen | TokenView::LBracket
        | TokenView::RBracket | TokenView::Comma | TokenView::Eq | TokenView::Colon | TokenView::Star => true,
        _ => false,
    }
}

fn perr(msg: &str) -> (e: IrLoadError)
    ensures
        e is Parse,
        e matches IrLoadError::Parse(t) && t@ == msg@,
{
    IrLoadError::Parse(String::from_str(msg))
}

fn perr3(a: &str, b: &str, c: &str) -> (e: IrLoadError)
    ensures
        e is Parse,
        e matches IrLoadError::Parse(t) && t@ == a@ + b@ + c@,
{
    let mut m = String::from_str(a);
    m.append(b);
    m.append(c);
    IrLoadError::Parse(m)
}

/// Whether the token at `pos` is the payload-less token `k`.
fn tok_at(toks: &Vec<Token>, pos: usize, k: &Token) -> (b: bool)
    requires
        is_punct(k@),
    ensures
        b == ir_grammar::tok_is(tokens_view(toks@), pos as int, k@),
{
    if pos >= toks.len() {
        return false;
    }
    match (&toks[pos], k) {
        (Token::LBrace, Token::LBrace) | (Token::RBrace, Token::RBrace) | (Token::LParen, Token::LParen) | (
            Token::RParen,
            Token::RParen,
        ) | (Token::LBracket, Token::LBracket) | (Token::RBracket, Token::RBracket) | (Token::Comma, Token::Comma) | (
            Token::Eq,
            Token::Eq,
        ) | (Token::Colon, Token::Colon) | (Token::Star, Token::Star) => true,
        _ => false,
    }
}

/// The identifier at `pos`, copied.
fn ident(toks: &Vec<Token>, pos: usize) -> (r: Option<String>)
    ensures
        match ir_grammar::ident_at(tokens_view(toks@), pos as int) {
            Some(s) => r matches Some(x) && x@ == s,
            None => r is None,
        },
{
    if pos >= toks.len() {
        return None;
    }
    match &toks[pos] {
        Token::Ident(s) => Some(s.clone()),
        _ => None,
    }
}

/// The identifier at `pos`, or a parse error.
fn expect_ident(toks: &Vec<Token>, pos: usize) -> (r: Result<String, IrLoadError>)
    ensures
        match ir_grammar::ident_at(tokens_view(toks@), pos as int) {
            Some(s) => r matches Ok(x) && x@ == s,
            None => r matches Err(e) && e is Parse,
        },
{
    match ident(toks, pos) {
        Some(s) => Ok(s),
        None => Err(perr("expected identifier")),
    }
}

/// Whether the token at `pos` is the keyword `kw`.
fn kw_at(toks: &Vec<Token>, pos: usize, kw: &str) -> (b: bool)
    ensures
        b == ir_grammar::is_kw(tokens_view(toks@), pos as int, kw@),
{
    if pos >= toks.len() {
        return false;
    }
    match &toks[pos] {
        Token::Ident(s) => str_eq(s.as_str(), kw),
        _ => false,
    }
}

// ── Literals ────────────────────────────────────────────────────────────

/// A scalar list element at `pos`.
fn list_elem(toks: &Vec<Token>, pos: usize) -> (r: Option<IrLiteral>)
    ensures
        match ir_grammar::list_elem(tokens_view(toks@), pos as int) {
            Some(v) => r matches Some(x) && lit_view(x) == v,
            None => r is None,
        },
{
    if pos >= toks.len() {
        return None;
    }
    match &toks[pos] {
        Token::Int(n) => Some(IrLiteral::Int(*n)),
        Token::Str(s) => Some(IrLiteral::Str(s.clone())),
        Token::Ident(s) => if str_eq(s.as_str(), "true") {
            Some(IrLiteral::Bool(true))
        } else if str_eq(s.as_str(), "false") {
            Some(IrLiteral::Bool(false))
        } else {
            None
        },
        _ => None,
    }
}

/// `[` (element (`,` element)*)? `]`.
fn parse_list_literal(toks: &Vec<Token>, pos: usize) -> (r: Result<(IrLiteral, usize), IrLoadError>)
    ensures
        agrees(r, ir_grammar::list_literal(tokens_view(toks@), pos as int), |x: IrLiteral| lit_view(x)),
        r matches Ok((_, q)) ==> pos < q <= toks@.len(),
{
    let ghost t = tokens_view(toks@);
    let n = toks.len();
    if !tok_at(toks, pos, &Token::LBracket) {
        return Err(perr("expected `[`"));
    }
    if tok_at(toks, pos + 1, &Token::RBracket) {
        return Ok((IrLiteral::List(Vec::new()), pos + 2));
    }
    let mut items: Vec<IrLiteral> = Vec::new();
    let mut p = pos + 1;
    loop
        invariant
            pos < p <= n,
            n == toks@.len(),
            t == tokens_view(toks@),
            ir_grammar::list_literal(t, pos as int) == ir_grammar::list_items(t, p as int, lits_view(items@)),
        decreases n - p,
    {
        let item = match list_elem(toks, p) {
            Some(x) => x,
            None => {
                return Err(perr("expected scalar list literal element"));
            },
        };
        proof {
            lemma_lits_view_push(items@, item);
        }
        items.push(item);
        if tok_at(toks, p + 1, &Token::Comma) {
            p = p + 2;
        } else if tok_at(toks, p + 1, &Token::RBracket) {
            return Ok((IrLiteral::List(items), p + 2));
        } else {
            return Err(perr("expected `,` or `]` in list literal"));
        }
    }
}

/// A literal at `pos`.
fn parse_literal(toks: &Vec<Token>, pos: usize) -> (r: Result<(IrLiteral, usize), IrLoadError>)
    ensures
        agrees(r, ir_grammar::literal(tokens_view(toks@), pos as int), |x: IrLiteral| lit_view(x)),
        r matches Ok((_, q)) ==> pos < q <= toks@.len(),
{
    if tok_at(toks, pos, &Token::LBracket) {
        return parse_list_literal(toks, pos);
    }
    if pos >= toks.len() {
        return Err(perr("expected literal, got end of input"));
    }
    let lit = match &toks[pos] {
        Token::Int(n) => IrLiteral::Int(*n),
        Token::Str(s) => IrLiteral::Str(s.clone()),
        Token::Ident(s) => if str_eq(s.as_str(), "true") {
            IrLiteral::Bool(true)
        } else if str_eq(s.as_str(), "false") {
            IrLiteral::Bool(false)
        } else {
            IrLiteral::Ident(s.clone())
        },
        Token::Ratio { num, den } => IrLiteral::Ratio { num: *num, den: *den },
        Token::Color(c) => IrLiteral::Color(*c),
        _ => {
            return Err(perr("expected literal"));
        },
    };
    Ok((lit, pos + 1))
}

// ── Expressions ─────────────────────────────────────────────────────────

/// An expression at `pos`.
fn parse_expr(toks: &Vec<Token>, pos: usize) -> (r: Result<(HandlerExpr, usize), IrLoadError>)
    ensures
        agrees(r, ir_grammar::expr(tokens_view(toks@), pos as int), |x: HandlerExpr| expr_view(x)),
        r matches Ok((_, q)) ==> pos < q <= toks@.len(),
    decreases toks@.len() - pos, 1int,
{
    if pos >= toks.len() {
        return Err(perr("expected expression, got end of input"));
    }
    match &toks[pos] {
        Token::Int(n) => Ok((HandlerExpr::IntLit(*n), pos + 1)),
        Token::Str(s) => Ok((HandlerExpr::StrLit(s.clone()), pos + 1)),
        Token::Ident(s) => if str_eq(s.as_str(), "true") {
            Ok((HandlerExpr::BoolLit(true), pos + 1))
        } else if str_eq(s.as_str(), "false") {
            Ok((HandlerExpr::BoolLit(false), pos + 1))
        } else {
            Err(perr("expected expression"))
        },
        Token::LBracket => match parse_list_literal(toks, pos) {
            Ok((IrLiteral::List(items), q)) => Ok((HandlerExpr::ListLit(items), q)),
            Ok(_) => Err(perr("expected list literal")),
            Err(e) => Err(e),
        },
        Token::LParen => parse_sexpr(toks, pos),
        _ => Err(perr("expected expression")),
    }
}

/// `(` TAG BODY `)`.
fn parse_sexpr(toks: &Vec<Token>, pos: usize) -> (r: Result<(HandlerExpr, usize), IrLoadError>)
    ensures
        agrees(r, ir_grammar::sexpr(tokens_view(toks@), pos as int), |x: HandlerExpr| expr_view(x)),
        r matches Ok((_, q)) ==> pos < q <= toks@.len(),
    decreases toks@.len() - pos, 0int,
{
    let ghost t = tokens_view(toks@);
    let n = toks.len();
    if !tok_at(toks, pos, &Token::LParen) {
        return Err(perr("expected `(`"));
    }
    let tag = match ident(toks, pos + 1) {
        Some(s) => s,
        None => {
            return Err(perr("expected S-expression tag"));
        },
    };
    let p = pos + 2;
    let tg = tag.as_str();
    let body: (HandlerExpr, usize) = if str_eq(tg, "prop-read") {
        let path = expect_ident(toks, p)?;
        (HandlerExpr::PropRead { path }, p + 1)
    } else if str_eq(tg, "str-prop-read") {
        let path = expect_ident(toks, p)?;
        (HandlerExpr::StrPropRead { path }, p + 1)
    } else if str_eq(tg, "bool-prop-read") {
        let path = expect_ident(toks, p)?;
        (HandlerExpr::BoolPropRead { path }, p + 1)
    } else if str_eq(tg, "list-prop-read") {
        let path = expect_ident(toks, p)?;
        (HandlerExpr::ListPropRead { path, elem: IrType::I32 }, p + 1)
    } else if str_eq(tg, "item-read") {
        let binder = expect_ident(toks, p)?;
        (HandlerExpr::ItemRead { binder }, p + 1)
    } else if str_eq(tg, "index-read") {
        let binder = expect_ident(toks, p)?;
        (HandlerExpr::IndexRead { binder }, p + 1)
    } else if str_eq(tg, "list-append") {
        let path = expect_ident(toks, p)?;
        let (value, q) = parse_expr(toks, p + 1)?;
        (HandlerExpr::ListAppend { path, elem: IrType::I32, value: Box::new(value) }, q)
    } else if str_eq(tg, "list-drop-last") {
        let path = expect_ident(toks, p)?;
        (HandlerExpr::ListDropLast { path, elem: IrType::I32 }, p + 1)
    } else if str_eq(tg, "assign") {
        let lhs = expect_ident(toks, p)?;
        let (rhs, q) = parse_expr(toks, p + 1)?;
        (HandlerExpr::Assign { lhs, rhs: Box::new(rhs) }, q)
    } else if str_eq(tg, "compound-assign") {
        if p >= n {
            return Err(perr("expected compound op, got end of input"));
        }
        let op = match &toks[p] {
            Token::AssignOp(op) => *op,
            _ => {
                return Err(perr("expected compound op"));
            },
        };
        let lhs = expect_ident(toks, p + 1)?;
        let (rhs, q) = parse_expr(toks, p + 2)?;
        (HandlerExpr::CompoundAssign { lhs, op, rhs: Box::new(rhs) }, q)
    } else if str_eq(tg, "interp") {
        let mut parts: Vec<InterpolationPart> = Vec::new();
        let mut q = p;
        while !tok_at(toks, q, &Token::RParen)
            invariant
                p <= q <= n,
                pos < p,
                n == toks@.len(),
                t == tokens_view(toks@),
                ir_grammar::interp_parts(t, p as int, Seq::empty()) == ir_grammar::interp_parts(
                    t,
                    q as int,
                    parts_view(parts@),
                ),
                ir_grammar::interp_parts(t, p as int, Seq::empty()) is None ==> ir_grammar::sexpr(
                    t,
                    pos as int,
                ) is None,
            decreases n - q,
        {
            let (part, q2) = parse_interp_part(toks, q)?;
            proof {
                lemma_parts_view_push(parts@, part);
            }
            parts.push(part);
            q = q2;
        }
        (HandlerExpr::Interpolation(parts), q)
    } else if str_eq(tg, "block") {
        let mut exprs: Vec<HandlerExpr> = Vec::new();
        let mut q = p;
        while !tok_at(toks, q, &Token::RParen)
            invariant
                p <= q <= n,
                pos < p,
                n == toks@.len(),
                t == tokens_view(toks@),
                ir_grammar::block_items(t, p as int, Seq::empty()) == ir_grammar::block_items(
                    t,
                    q as int,
                    exprs_view(exprs@),
                ),
                ir_grammar::block_items(t, p as int, Seq::empty()) is None ==> ir_grammar::sexpr(
                    t,
                    pos as int,
                ) is None,
            decreases n - q,
        {
            let (e, q2) = parse_expr(toks, q)?;
            proof {
                lemma_exprs_view_push(exprs@, e);
            }
            exprs.push(e);
            q = q2;
        }
        (HandlerExpr::Block(exprs), q)
    } else {
        return Err(perr3("unknown S-expr tag: ", tg, ""));
    };
    let (e, q) = body;
    if !tok_at(toks, q, &Token::RParen) {
        return Err(perr("expected `)`"));
    }
    Ok((e, q + 1))
}

/// A string, or `(` expression `)`, inside an interpolation.
fn parse_interp_part(toks: &Vec<Token>, pos: usize) -> (r: Result<(InterpolationPart, usize), IrLoadError>)
    ensures
        agrees(r, ir_grammar::interp_part(tokens_view(toks@), pos as int), |x: InterpolationPart| part_view(x)),
        r matches Ok((_, q)) ==> pos < q <= toks@.len(),
    decreases toks@.len() - pos, 0int,
{
    if pos >= toks.len() {
        return Err(perr("expected interp part, got end of input"));
    }
    match &toks[pos] {
        Token::Str(s) => Ok((InterpolationPart::Literal(s.clone()), pos + 1)),
        Token::LParen => {
            let (inner, q) = parse_expr(toks, pos + 1)?;
            if !tok_at(toks, q, &Token::RParen) {
                return Err(perr("expected `)` after interpolated expression"));
            }
            Ok((InterpolationPart::Expr(inner), q + 1))
        },
        _ => Err(perr("expected interp part")),
    }
}

// ── Attributes, handlers, tracks, placements ────────────────────────────

/// `prop NAME = LITERAL`.
fn parse_prop(toks: &Vec<Token>, pos: usize) -> (r: Result<(IrProp, usize), IrLoadError>)
    ensures
        agrees(r, ir_grammar::prop(tokens_view(toks@), pos as int), |x: IrProp| prop_view(x)),
        r matches Ok((_, q)) ==> pos < q <= toks@.len(),
{
    let n = toks.len();
    if !kw_at(toks, pos, "prop") {
        return Err(perr("expected keyword `prop`"));
    }
    let name = expect_ident(toks, pos + 1)?;
    if !tok_at(toks, pos + 2, &Token::Eq) {
        return Err(perr("expected `=` after property name"));
    }
    let (value, q) = parse_literal(toks, pos + 3)?;
    Ok((IrProp { name, value }, q))
}

/// `bind NAME = EXPR`.
fn parse_binding(toks: &Vec<Token>, pos: usize) -> (r: Result<(IrBinding, usize), IrLoadError>)
    ensures
        agrees(r, ir_grammar::binding(tokens_view(toks@), pos as int), |x: IrBinding| binding_view(x)),
        r matches Ok((_, q)) ==> pos < q <= toks@.len(),
{
    let n = toks.len();
    if !kw_at(toks, pos, "bind") {
        return Err(perr("expected keyword `bind`"));
    }
    let prop_name = expect_ident(toks, pos + 1)?;
    if !tok_at(toks, pos + 2, &Token::Eq) {
        return Err(perr("expected `=` after binding name"));
    }
    let (expr, q) = parse_expr(toks, pos + 3)?;
    Ok((IrBinding { prop_name, expr }, q))
}

/// `on SIGNAL ( "ARG" )? { EXPR }`.
fn parse_handler(toks: &Vec<Token>, pos: usize) -> (r: Result<(IrHandler, usize), IrLoadError>)
    ensures
        agrees(r, ir_grammar::handler(tokens_view(toks@), pos as int), |x: IrHandler| handler_view(x)),
        r matches Ok((_, q)) ==> pos < q <= toks@.len(),
{
    let n = toks.len();
    if !kw_at(toks, pos, "on") {
        return Err(perr("expected keyword `on`"));
    }
    let signal = expect_ident(toks, pos + 1)?;
    let mut p = pos + 2;
    let arg = if tok_at(toks, p, &Token::LParen) {
        if p + 1 >= n {
            return Err(perr("expected string literal in handler argument, got end of input"));
        }
        let value = match &toks[p + 1] {
            Token::Str(s) => s.clone(),
            _ => {
                return Err(perr("expected string literal in handler argument"));
            },
        };
        if !tok_at(toks, p + 2, &Token::RParen) {
            return Err(perr("expected `)` after handler argument"));
        }
        p = p + 3;
        Some(value)
    } else {
        None
    };
    if !tok_at(toks, p, &Token::LBrace) {
        return Err(perr("expected `{` before handler body"));
    }
    let (expr, q) = parse_expr(toks, p + 1)?;
    if !tok_at(toks, q, &Token::RBrace) {
        return Err(perr("expected `}` after handler body"));
    }
    Ok((IrHandler { signal, arg, expr }, q + 1))
}

/// `tracks AXIS = TRACK*`: the axis name, the tracks, the position after.
fn parse_tracks_line(toks: &Vec<Token>, pos: usize) -> (r: Result<(String, Vec<TrackSize>, usize), IrLoadError>)
    ensures
        match ir_grammar::tracks_line(tokens_view(toks@), pos as int) {
            Some((axis, tracks, q)) => r matches Ok((a, v, q2)) && a@ == axis && v@ == tracks && q2 == q,
            None => r matches Err(e) && e is Parse,
        },
        r matches Ok((_, _, q)) ==> pos < q <= toks@.len(),
{
    let ghost t = tokens_view(toks@);
    let n = toks.len();
    if !kw_at(toks, pos, "tracks") {
        return Err(perr("expected keyword `tracks`"));
    }
    let axis = expect_ident(toks, pos + 1)?;
    if !tok_at(toks, pos + 2, &Token::Eq) {
        return Err(perr("expected `=` after track axis"));
    }
    let mut tracks: Vec<TrackSize> = Vec::new();
    let mut p = pos + 3;
    loop
        invariant
            pos + 3 <= p <= n,
            n == toks@.len(),
            t == tokens_view(toks@),
            ir_grammar::track_items(t, pos + 3, Seq::empty()) == ir_grammar::track_items(t, p as int, tracks@),
        ensures
            pos + 3 <= p <= n,
            ir_grammar::track_items(t, pos + 3, Seq::empty()) == (tracks@, p as int),
        decreases n - p,
    {
        if p >= n {
            break;
        }
        match &toks[p] {
            Token::Int(k) => {
                if tok_at(toks, p + 1, &Token::Star) {
                    tracks.push(TrackSize::Star(*k as u32));
                    p = p + 2;
                } else {
                    tracks.push(TrackSize::Fixed(*k));
                    p = p + 1;
                }
            },
            Token::Star => {
                tracks.push(TrackSize::Star(1));
                p = p + 1;
            },
            _ => {
                break;
            },
        }
    }
    Ok((axis, tracks, p))
}

/// An integer `>= 0` at `pos`.
fn nonnegative_at(toks: &Vec<Token>, pos: usize) -> (r: Option<u32>)
    ensures
        r == ir_grammar::nonnegative_at(tokens_view(toks@), pos as int),
{
    if pos >= toks.len() {
        return None;
    }
    match &toks[pos] {
        Token::Int(k) => if *k >= 0 {
            Some(*k as u32)
        } else {
            None
        },
        _ => None,
    }
}

/// An integer `>= 1` at `pos`.
fn positive_at(toks: &Vec<Token>, pos: usize) -> (r: Option<u32>)
    ensures
        r == ir_grammar::positive_at(tokens_view(toks@), pos as int),
{
    if pos >= toks.len() {
        return None;
    }
    match &toks[pos] {
        Token::Int(k) => if *k >= 1 {
            Some(*k as u32)
        } else {
            None
        },
        _ => None,
    }
}

/// An alignment keyword at `pos`.
fn alignment_at(toks: &Vec<Token>, pos: usize) -> (r: Option<IrAlignment>)
    ensures
        r == ir_grammar::alignment_at(tokens_view(toks@), pos as int),
{
    match ident(toks, pos) {
        Some(s) => if str_eq(s.as_str(), "start") {
            Some(IrAlignment::Start)
        } else if str_eq(s.as_str(), "center") {
            Some(IrAlignment::Center)
        } else if str_eq(s.as_str(), "end") {
            Some(IrAlignment::End)
        } else if str_eq(s.as_str(), "stretch") {
            Some(IrAlignment::Stretch)
        } else {
            None
        },
        None => None,
    }
}

/// The characters of each string.
pub open spec fn strings_view(v: Seq<String>) -> Seq<Seq<char>> {
    v.map_values(|s: String| s@)
}

/// Whether `key` is among `seen`.
fn contains_key(seen: &Vec<String>, key: &str) -> (b: bool)
    ensures
        b == strings_view(seen@).contains(key@),
{
    let mut i: usize = 0;
    while i < seen.len()
        invariant
            i <= seen@.len(),
            forall|j: int| 0 <= j < i ==> seen@[j]@ != key@,
        decreases seen@.len() - i,
    {
        if str_eq(seen[i].as_str(), key) {
            assert(strings_view(seen@)[i as int] == key@);
            return true;
        }
        i += 1;
    }
    proof {
        if strings_view(seen@).contains(key@) {
            let j = choose|j: int| 0 <= j < strings_view(seen@).len() && strings_view(seen@)[j] == key@;
            assert(seen@[j]@ == key@);
        }
    }
    false
}

/// The entries of a grid placement block from `pos` through its `}`.
fn parse_grid_entries(toks: &Vec<Token>, pos: usize) -> (r: Result<(IrSlotData, usize), IrLoadError>)
    requires
        pos <= toks@.len(),
    ensures
        agrees(
            r,
            ir_grammar::grid_entries(tokens_view(toks@), pos as int, ir_grammar::grid_slot_default(), Seq::empty()),
            |x: IrSlotData| x,
        ),
        r matches Ok((_, q)) ==> pos < q <= toks@.len(),
{
    let ghost t = tokens_view(toks@);
    let n = toks.len();
    let mut row: u32 = 0;
    let mut column: u32 = 0;
    let mut row_span: u32 = 1;
    let mut column_span: u32 = 1;
    let mut h_align = IrAlignment::Stretch;
    let mut v_align = IrAlignment::Stretch;
    let mut seen: Vec<String> = Vec::new();
    let mut p = pos;
    assert(strings_view(seen@) =~= Seq::<Seq<char>>::empty());
    loop
        invariant
            pos <= p <= n,
            n == toks@.len(),
            t == tokens_view(toks@),
            ir_grammar::grid_entries(t, pos as int, ir_grammar::grid_slot_default(), Seq::empty())
                == ir_grammar::grid_entries(
                t,
                p as int,
                IrSlotData::Grid { row, column, row_span, column_span, h_align, v_align },
                strings_view(seen@),
            ),
        decreases n - p,
    {
        if tok_at(toks, p, &Token::RBrace) {
            return Ok((IrSlotData::Grid { row, column, row_span, column_span, h_align, v_align }, p + 1));
        }
        let key = expect_ident(toks, p)?;
        if contains_key(&seen, key.as_str()) {
            return Err(perr3("malformed-placement-ir: duplicate grid placement key `", key.as_str(), "`"));
        }
        if !tok_at(toks, p + 1, &Token::Colon) {
            return Err(perr("malformed-placement-ir: expected `:` after grid placement key"));
        }
        let v = p + 2;
        let k = key.as_str();
        if str_eq(k, "row") {
            row = match nonnegative_at(toks, v) {
                Some(x) => x,
                None => {
                    return Err(perr("malformed-placement-ir: `grid.row` must be a non-negative integer"));
                },
            };
        } else if str_eq(k, "column") {
            column = match nonnegative_at(toks, v) {
                Some(x) => x,
                None => {
                    return Err(perr("malformed-placement-ir: `grid.column` must be a non-negative integer"));
                },
            };
        } else if str_eq(k, "row-span") {
            row_span = match positive_at(toks, v) {
                Some(x) => x,
                None => {
                    return Err(perr("malformed-placement-ir: `grid.row-span` must be a positive integer"));
                },
            };
        } else if str_eq(k, "column-span") {
            column_span = match positive_at(toks, v) {
                Some(x) => x,
                None => {
                    return Err(perr("malformed-placement-ir: `grid.column-span` must be a positive integer"));
                },
            };
        } else if str_eq(k, "h-align") {
            h_align = match alignment_at(toks, v) {
                Some(a) => a,
                None => {
                    return Err(
                        perr("malformed-placement-ir: `grid.h-align` must be one of start, center, end, stretch"),
                    );
                },
            };
        } else if str_eq(k, "v-align") {
            v_align = match alignment_at(toks, v) {
                Some(a) => a,
                None => {
                    return Err(
                        perr("malformed-placement-ir: `grid.v-align` must be one of start, center, end, stretch"),
                    );
                },
            };
        } else {
            return Err(perr3("malformed-placement-ir: unknown grid placement key `", k, "`"));
        }
        let ghost seen_before = seen@;
        seen.push(key);
        proof {
            assert(strings_view(seen@) =~= strings_view(seen_before).push(k@));
        }
        p = if tok_at(toks, v + 1, &Token::Comma) {
            v + 2
        } else {
            v + 1
        };
    }
}

/// The entries of a ZStack placement block from `pos` through its `}`.
fn parse_zstack_entries(toks: &Vec<Token>, pos: usize) -> (r: Result<(IrSlotData, usize), IrLoadError>)
    requires
        pos <= toks@.len(),
    ensures
        agrees(
            r,
            ir_grammar::zstack_entries(
                tokens_view(toks@),
                pos as int,
                ir_grammar::zstack_slot_default(),
                Seq::empty(),
            ),
            |x: IrSlotData| x,
        ),
        r matches Ok((_, q)) ==> pos < q <= toks@.len(),
{
    let ghost t = tokens_view(toks@);
    let n = toks.len();
    let mut h_align = IrAlignment::Center;
    let mut v_align = IrAlignment::Center;
    let mut seen: Vec<String> = Vec::new();
    let mut p = pos;
    assert(strings_view(seen@) =~= Seq::<Seq<char>>::empty());
    loop
        invariant
            pos <= p <= n,
            n == toks@.len(),
            t == tokens_view(toks@),
            ir_grammar::zstack_entries(t, pos as int, ir_grammar::zstack_slot_default(), Seq::empty())
                == ir_grammar::zstack_entries(
                t,
                p as int,
                IrSlotData::ZStack { h_align, v_align },
                strings_view(seen@),
            ),
        decreases n - p,
    {
        if tok_at(toks, p, &Token::RBrace) {
            return Ok((IrSlotData::ZStack { h_align, v_align }, p + 1));
        }
        let key = expect_ident(toks, p)?;
        if contains_key(&seen, key.as_str()) {
            return Err(perr3("malformed-placement-ir: duplicate zstack placement key `", key.as_str(), "`"));
        }
        if !tok_at(toks, p + 1, &Token::Colon) {
            return Err(perr("malformed-placement-ir: expected `:` after zstack placement key"));
        }
        let v = p + 2;
        let k = key.as_str();
        if str_eq(k, "h-align") {
            h_align = match alignment_at(toks, v) {
                Some(a) => a,
                None => {
                    return Err(
                        perr("malformed-placement-ir: `zstack.h-align` must be one of start, center, end, stretch"),
                    );
                },
            };
        } else if str_eq(k, "v-align") {
            v_align = match alignment_at(toks, v) {
                Some(a) => a,
                None => {
                    return Err(
                        perr("malformed-placement-ir: `zstack.v-align` must be one of start, center, end, stretch"),
                    );
                },
            };
        } else {
            return Err(perr3("malformed-placement-ir: unknown zstack placement key `", k, "`"));
        }
        let ghost seen_before = seen@;
        seen.push(key);
        proof {
            assert(strings_view(seen@) =~= strings_view(seen_before).push(k@));
        }
        p = if tok_at(toks, v + 1, &Token::Comma) {
            v + 2
        } else {
            v + 1
        };
    }
}

/// `placement (grid|zstack) { ENTRIES }`.
fn parse_slot_data(toks: &Vec<Token>, pos: usize) -> (r: Result<(IrSlotData, usize), IrLoadError>)
    ensures
        agrees(r, ir_grammar::slot_data(tokens_view(toks@), pos as int), |x: IrSlotData| x),
        r matches Ok((_, q)) ==> pos < q <= toks@.len(),
{
    let n = toks.len();
    if !kw_at(toks, pos, "placement") {
        return Err(perr("expected keyword `placement`"));
    }
    let kind = expect_ident(toks, pos + 1)?;
    if !tok_at(toks, pos + 2, &Token::LBrace) {
        return Err(perr("malformed-placement-ir: expected `{` after placement kind"));
    }
    if str_eq(kind.as_str(), "grid") {
        parse_grid_entries(toks, pos + 3)
    } else if str_eq(kind.as_str(), "zstack") {
        parse_zstack_entries(toks, pos + 3)
    } else {
        Err(perr3("malformed-placement-ir: unknown placement kind `", kind.as_str(), "`"))
    }
}

// ── Nodes and members ───────────────────────────────────────────────────

/// The characters of an optional track list.
pub open spec fn opt_tracks(o: Option<Vec<TrackSize>>) -> Option<Seq<TrackSize>> {
    match o {
        Some(v) => Some(v@),
        None => None,
    }
}

/// The content of an optional node.
pub open spec fn opt_node(o: Option<IrNode>) -> Option<crate::ir_view::NodeV> {
    match o {
        Some(n) => Some(node_view(n)),
        None => None,
    }
}

/// What a node body has gathered, by content.
pub open spec fn node_acc(
    props: Seq<IrProp>,
    bindings: Seq<IrBinding>,
    handlers: Seq<IrHandler>,
    children: Seq<IrMember>,
    columns: Option<Vec<TrackSize>>,
    rows: Option<Vec<TrackSize>>,
) -> NodeAcc {
    NodeAcc {
        props: props_view(props),
        bindings: bindings_view(bindings),
        handlers: handlers_view(handlers),
        children: members_view(children),
        columns: opt_tracks(columns),
        rows: opt_tracks(rows),
    }
}

/// `node TYPE { BODY }`.
fn parse_node(toks: &Vec<Token>, pos: usize) -> (r: Result<(IrNode, usize), IrLoadError>)
    ensures
        agrees(r, ir_grammar::node(tokens_view(toks@), pos as int), |x: IrNode| node_view(x)),
        r matches Ok((_, q)) ==> pos < q <= toks@.len(),
    decreases toks@.len() - pos, 0int,
{
    let ghost t = tokens_view(toks@);
    let n = toks.len();
    if !kw_at(toks, pos, "node") {
        return Err(perr("expected keyword `node`"));
    }
    let widget_type = expect_ident(toks, pos + 1)?;
    if !tok_at(toks, pos + 2, &Token::LBrace) {
        return Err(perr("expected `{` after node type"));
    }
    let ghost wt = widget_type@;
    let mut props: Vec<IrProp> = Vec::new();
    let mut bindings: Vec<IrBinding> = Vec::new();
    let mut handlers: Vec<IrHandler> = Vec::new();
    let mut children: Vec<IrMember> = Vec::new();
    let mut grid_columns: Option<Vec<TrackSize>> = None;
    let mut grid_rows: Option<Vec<TrackSize>> = None;
    let mut p = pos + 3;
    proof {
        assert(props_view(props@) =~= Seq::empty());
        assert(bindings_view(bindings@) =~= Seq::empty());
        assert(handlers_view(handlers@) =~= Seq::empty());
        assert(members_view(children@) =~= Seq::empty());
        assert(node_acc(props@, bindings@, handlers@, children@, grid_columns, grid_rows) == ir_grammar::empty_node_acc());
    }
    loop
        invariant
            pos < p <= n,
            n == toks@.len(),
            t == tokens_view(toks@),
            wt == widget_type@,
            ir_grammar::node(t, pos as int) == ir_grammar::node_body(
                t,
                p as int,
                wt,
                node_acc(props@, bindings@, handlers@, children@, grid_columns, grid_rows),
            ),
        decreases n - p,
    {
        if tok_at(toks, p, &Token::RBrace) {
            let ghost acc = node_acc(props@, bindings@, handlers@, children@, grid_columns, grid_rows);
            let kind_payload = if grid_columns.is_some() || grid_rows.is_some() {
                let columns = match grid_columns {
                    Some(c) => c,
                    None => Vec::new(),
                };
                let rows = match grid_rows {
                    Some(r) => r,
                    None => Vec::new(),
                };
                Some(KindPayload::Grid { columns, rows })
            } else {
                None
            };
            let node = IrNode { widget_type, props, bindings, handlers, children, kind_payload };
            proof {
                assert(node_view(node) =~= ir_grammar::finish_node(wt, acc));
            }
            return Ok((node, p + 1));
        }
        if p >= n {
            return Err(perr("unexpected EOF in node body"));
        }
        let s = match ident(toks, p) {
            Some(s) => s,
            None => {
                return Err(perr("unexpected token in node body"));
            },
        };
        let k = s.as_str();
        if str_eq(k, "prop") {
            let (x, q) = parse_prop(toks, p)?;
            let ghost before = props@;
            props.push(x);
            assert(props_view(props@) =~= props_view(before).push(prop_view(x)));
            p = q;
        } else if str_eq(k, "bind") {
            let (x, q) = parse_binding(toks, p)?;
            let ghost before = bindings@;
            bindings.push(x);
            assert(bindings_view(bindings@) =~= bindings_view(before).push(binding_view(x)));
            p = q;
        } else if str_eq(k, "on") {
            let (x, q) = parse_handler(toks, p)?;
            let ghost before = handlers@;
            handlers.push(x);
            assert(handlers_view(handlers@) =~= handlers_view(before).push(handler_view(x)));
            p = q;
        } else if str_eq(k, "child") {
            let (c, q) = parse_child_slot(toks, p)?;
            let m = IrMember::Widget(c);
            proof {
                lemma_members_view_push(children@, m);
            }
            children.push(m);
            p = q;
        } else if str_eq(k, "node") {
            let (nd, q) = parse_node(toks, p)?;
            let m = IrMember::Widget(IrChildSlot { node: nd, slot_data: None });
            proof {
                lemma_members_view_push(children@, m);
            }
            children.push(m);
            p = q;
        } else if str_eq(k, "if") {
            let (f, q) = parse_if_member(toks, p)?;
            let m = IrMember::ControlFlow(f);
            proof {
                lemma_members_view_push(children@, m);
            }
            children.push(m);
            p = q;
        } else if str_eq(k, "for") {
            let (f, q) = parse_for_member(toks, p)?;
            let m = IrMember::ControlFlow(f);
            proof {
                lemma_members_view_push(children@, m);
            }
            children.push(m);
            p = q;
        } else if str_eq(k, "tracks") {
            if !str_eq(widget_type.as_str(), "Grid") {
                return Err(
                    perr3("`tracks` track list is only valid on a `Grid` node, found on `", widget_type.as_str(), "`"),
                );
            }
            let (axis, tracks, q) = parse_tracks_line(toks, p)?;
            if str_eq(axis.as_str(), "columns") {
                if grid_columns.is_some() {
                    return Err(perr("duplicate `tracks columns` line on node"));
                }
                grid_columns = Some(tracks);
            } else if str_eq(axis.as_str(), "rows") {
                if grid_rows.is_some() {
                    return Err(perr("duplicate `tracks rows` line on node"));
                }
                grid_rows = Some(tracks);
            } else {
                return Err(perr3("unknown track axis `", axis.as_str(), "` (expected `columns` or `rows`)"));
            }
            p = q;
        } else {
            return Err(perr3("unexpected token in node body: `", k, "`"));
        }
    }
}

/// `child { BODY }`: one `node` block and at most one `placement` block.
fn parse_child_slot(toks: &Vec<Token>, pos: usize) -> (r: Result<(IrChildSlot, usize), IrLoadError>)
    ensures
        agrees(r, ir_grammar::child_slot(tokens_view(toks@), pos as int), |x: IrChildSlot| slot_view(x)),
        r matches Ok((_, q)) ==> pos < q <= toks@.len(),
    decreases toks@.len() - pos, 0int,
{
    let ghost t = tokens_view(toks@);
    let n = toks.len();
    if !kw_at(toks, pos, "child") {
        return Err(perr("expected keyword `child`"));
    }
    if !tok_at(toks, pos + 1, &Token::LBrace) {
        return Err(perr("malformed-placement-ir: expected `{` after `child`"));
    }
    let mut slot_data: Option<IrSlotData> = None;
    let mut node: Option<IrNode> = None;
    let mut p = pos + 2;
    loop
        invariant
            pos < p <= n,
            n == toks@.len(),
            t == tokens_view(toks@),
            ir_grammar::child_slot(t, pos as int) == ir_grammar::slot_body(t, p as int, slot_data, opt_node(node)),
        decreases n - p,
    {
        if tok_at(toks, p, &Token::RBrace) {
            return match node {
                Some(nd) => Ok((IrChildSlot { node: nd, slot_data }, p + 1)),
                None => Err(perr("malformed-placement-ir: child slot missing `node` block")),
            };
        }
        if p >= n {
            return Err(perr("unexpected EOF in child slot"));
        }
        let s = match ident(toks, p) {
            Some(s) => s,
            None => {
                return Err(perr("malformed-placement-ir: unexpected token in child slot"));
            },
        };
        if str_eq(s.as_str(), "placement") {
            if slot_data.is_some() {
                return Err(perr("malformed-placement-ir: duplicate `placement` block in child slot"));
            }
            let (d, q) = parse_slot_data(toks, p)?;
            slot_data = Some(d);
            p = q;
        } else if str_eq(s.as_str(), "node") {
            if node.is_some() {
                return Err(perr("malformed-placement-ir: duplicate `node` block in child slot"));
            }
            let (nd, q) = parse_node(toks, p)?;
            node = Some(nd);
            p = q;
        } else {
            return Err(perr3("malformed-placement-ir: unexpected token in child slot: `", s.as_str(), "`"));
        }
    }
}

/// The members of an `if` / `for` body from `pos` through its `}`.
fn parse_member_list(toks: &Vec<Token>, pos: usize) -> (r: Result<(Vec<IrMember>, usize), IrLoadError>)
    requires
        pos <= toks@.len(),
    ensures
        agrees(
            r,
            ir_grammar::member_list(tokens_view(toks@), pos as int, Seq::empty()),
            |x: Vec<IrMember>| members_view(x@),
        ),
        r matches Ok((_, q)) ==> pos < q <= toks@.len(),
    decreases toks@.len() - pos, 1int,
{
    let ghost t = tokens_view(toks@);
    let n = toks.len();
    let mut body: Vec<IrMember> = Vec::new();
    let mut p = pos;
    assert(members_view(body@) =~= Seq::<MemberV>::empty());
    loop
        invariant
            pos <= p <= n,
            n == toks@.len(),
            t == tokens_view(toks@),
            ir_grammar::member_list(t, pos as int, Seq::empty()) == ir_grammar::member_list(
                t,
                p as int,
                members_view(body@),
            ),
        decreases n - p,
    {
        if tok_at(toks, p, &Token::RBrace) {
            return Ok((body, p + 1));
        }
        if p >= n {
            return Err(perr("unexpected EOF in control-flow body"));
        }
        let s = match ident(toks, p) {
            Some(s) => s,
            None => {
                return Err(perr("unexpected token in control-flow body"));
            },
        };
        let k = s.as_str();
        let (m, q) = if str_eq(k, "child") {
            let (c, q) = parse_child_slot(toks, p)?;
            (IrMember::Widget(c), q)
        } else if str_eq(k, "node") {
            let (nd, q) = parse_node(toks, p)?;
            (IrMember::Widget(IrChildSlot { node: nd, slot_data: None }), q)
        } else if str_eq(k, "if") {
            let (f, q) = parse_if_member(toks, p)?;
            (IrMember::ControlFlow(f), q)
        } else if str_eq(k, "for") {
            let (f, q) = parse_for_member(toks, p)?;
            (IrMember::ControlFlow(f), q)
        } else {
            return Err(perr3("unexpected token in control-flow body: `", k, "`"));
        };
        proof {
            lemma_members_view_push(body@, m);
        }
        body.push(m);
        p = q;
    }
}

/// `if EXPR { MEMBERS }`.
fn parse_if_member(toks: &Vec<Token>, pos: usize) -> (r: Result<(ControlFlowNode, usize), IrLoadError>)
    ensures
        agrees(r, ir_grammar::if_member(tokens_view(toks@), pos as int), |x: ControlFlowNode| flow_view(x)),
        r matches Ok((_, q)) ==> pos < q <= toks@.len(),
    decreases toks@.len() - pos, 0int,
{
    let n = toks.len();
    if !kw_at(toks, pos, "if") {
        return Err(perr("expected keyword `if`"));
    }
    let (condition, q) = parse_expr(toks, pos + 1)?;
    if !tok_at(toks, q, &Token::LBrace) {
        return Err(perr("expected `{` after `if` condition"));
    }
    let (body, r) = parse_member_list(toks, q + 1)?;
    let branch = ControlFlowBranch { condition, body };
    let mut branches: Vec<ControlFlowBranch> = Vec::new();
    proof {
        lemma_branches_view_push(branches@, branch);
        assert(branches_view(branches@) =~= Seq::empty());
    }
    branches.push(branch);
    Ok((ControlFlowNode::If { branches }, r))
}

/// `for ITEM (, INDEX)? in COLLECTION { MEMBERS }`.
fn parse_for_member(toks: &Vec<Token>, pos: usize) -> (r: Result<(ControlFlowNode, usize), IrLoadError>)
    ensures
        agrees(r, ir_grammar::for_member(tokens_view(toks@), pos as int), |x: ControlFlowNode| flow_view(x)),
        r matches Ok((_, q)) ==> pos < q <= toks@.len(),
    decreases toks@.len() - pos, 0int,
{
    let n = toks.len();
    if !kw_at(toks, pos, "for") {
        return Err(perr("expected keyword `for`"));
    }
    let binder = expect_ident(toks, pos + 1)?;
    let (index_binder, p) = if tok_at(toks, pos + 2, &Token::Comma) {
        let ib = expect_ident(toks, pos + 3)?;
        (Some(ib), pos + 4)
    } else {
        (None, pos + 2)
    };
    if !kw_at(toks, p, "in") {
        return Err(perr("expected keyword `in`"));
    }
    let collection_name = expect_ident(toks, p + 1)?;
    if !tok_at(toks, p + 2, &Token::LBrace) {
        return Err(perr("expected `{` after `for` header"));
    }
    let (body, r) = parse_member_list(toks, p + 3)?;
    Ok(
        (
            ControlFlowNode::For {
                binder,
                index_binder,
                collection: HandlerExpr::ListPropRead { path: collection_name, elem: IrType::I32 },
                body,
            },
            r,
        ),
    )
}

// ── Component ───────────────────────────────────────────────────────────

/// `state NAME : TYPE ([ ])? = LITERAL`.
fn parse_state(toks: &Vec<Token>, pos: usize) -> (r: Result<(IrState, usize), IrLoadError>)
    ensures
        agrees(r, ir_grammar::state(tokens_view(toks@), pos as int), |x: IrState| state_view(x)),
        r matches Ok((_, q)) ==> pos < q <= toks@.len(),
{
    let n = toks.len();
    if !kw_at(toks, pos, "state") {
        return Err(perr("expected keyword `state`"));
    }
    let name = expect_ident(toks, pos + 1)?;
    if !tok_at(toks, pos + 2, &Token::Colon) {
        return Err(perr("expected `:` after state name"));
    }
    let ty_name = expect_ident(toks, pos + 3)?;
    let elem = if str_eq(ty_name.as_str(), "i32") {
        IrType::I32
    } else if str_eq(ty_name.as_str(), "string") {
        IrType::Str
    } else if str_eq(ty_name.as_str(), "bool") {
        IrType::Bool
    } else {
        return Err(perr3("unknown state type: ", ty_name.as_str(), ""));
    };
    let collection = tok_at(toks, pos + 4, &Token::LBracket);
    let p = if collection {
        if !tok_at(toks, pos + 5, &Token::RBracket) {
            return Err(perr("expected `]` in collection state type"));
        }
        pos + 6
    } else {
        pos + 4
    };
    if !tok_at(toks, p, &Token::Eq) {
        return Err(perr("expected `=` before state default"));
    }
    let (default, q) = parse_literal(toks, p + 1)?;
    let ty = if collection {
        IrStateType::Collection(elem)
    } else {
        IrStateType::Scalar(elem)
    };
    Ok((IrState { name, ty, default }, q))
}

/// What a component body has gathered, by content.
pub open spec fn component_acc(
    host_props: Seq<IrProp>,
    host_bindings: Seq<IrBinding>,
    states: Seq<IrState>,
    root: Option<IrNode>,
) -> ComponentAcc {
    ComponentAcc {
        host_props: props_view(host_props),
        host_bindings: bindings_view(host_bindings),
        states: states_view(states),
        root: opt_node(root),
    }
}

/// Parse a whole token sequence as one component: `component NAME
/// inherits BASE { BODY }` and nothing after it. Every failure is a parse
/// error.
pub fn parse_tokens(toks: &Vec<Token>) -> (r: Result<IrComponent, IrLoadError>)
    ensures
        match ir_grammar::component(tokens_view(toks@)) {
            Some(c) => r matches Ok(x) && component_view(x) == c,
            None => r matches Err(e) && e is Parse,
        },
{
    let ghost t = tokens_view(toks@);
    let n = toks.len();
    if !kw_at(toks, 0, "component") {
        return Err(perr("expected keyword `component`"));
    }
    let name = expect_ident(toks, 1)?;
    if !kw_at(toks, 2, "inherits") {
        return Err(perr("expected keyword `inherits`"));
    }
    let base = expect_ident(toks, 3)?;
    if !tok_at(toks, 4, &Token::LBrace) {
        return Err(perr("expected `{` after component header"));
    }
    let ghost nm = name@;
    let ghost bs = base@;
    let mut host_props: Vec<IrProp> = Vec::new();
    let mut host_bindings: Vec<IrBinding> = Vec::new();
    let mut states: Vec<IrState> = Vec::new();
    let mut root: Option<IrNode> = None;
    let mut p: usize = 5;
    proof {
        assert(props_view(host_props@) =~= Seq::empty());
        assert(bindings_view(host_bindings@) =~= Seq::empty());
        assert(states_view(states@) =~= Seq::empty());
    }
    loop
        invariant
            5 <= p <= n,
            n == toks@.len(),
            t == tokens_view(toks@),
            nm == name@,
            bs == base@,
            ir_grammar::component(t) == match ir_grammar::component_body(
                t,
                p as int,
                nm,
                bs,
                component_acc(host_props@, host_bindings@, states@, root),
            ) {
                Some((c, q)) => if q == t.len() {
                    Some(c)
                } else {
                    None
                },
                None => None,
            },
        decreases n - p,
    {
        if tok_at(toks, p, &Token::RBrace) {
            let root_node = match root {
                Some(r) => r,
                None => {
                    return Err(perr("component has no root node"));
                },
            };
            if p + 1 < n {
                let shown = crate::decimal::usize_to_string(p + 1);
                return Err(perr3("unexpected trailing tokens after component (token #", shown.as_str(), ")"));
            }
            let comp = IrComponent { name, base, host_props, host_bindings, states, root: root_node };
            return Ok(comp);
        }
        if p >= n {
            return Err(perr("unexpected EOF in component body"));
        }
        let s = match ident(toks, p) {
            Some(s) => s,
            None => {
                return Err(perr("unexpected token in component body"));
            },
        };
        let k = s.as_str();
        if str_eq(k, "state") {
            let (st, q) = parse_state(toks, p)?;
            let ghost before = states@;
            states.push(st);
            assert(states_view(states@) =~= states_view(before).push(state_view(st)));
            p = q;
        } else if str_eq(k, "host") {
            if kw_at(toks, p + 1, "prop") {
                let (x, q) = parse_prop(toks, p + 1)?;
                let ghost before = host_props@;
                host_props.push(x);
                assert(props_view(host_props@) =~= props_view(before).push(prop_view(x)));
                p = q;
            } else if kw_at(toks, p + 1, "bind") {
                let (x, q) = parse_binding(toks, p + 1)?;
                let ghost before = host_bindings@;
                host_bindings.push(x);
                assert(bindings_view(host_bindings@) =~= bindings_view(before).push(binding_view(x)));
                p = q;
            } else {
                return Err(perr("expected `host prop` or `host bind`"));
            }
        } else if str_eq(k, "node") {
            if root.is_some() {
                return Err(perr("multiple root nodes in component"));
            }
            let (nd, q) = parse_node(toks, p)?;
            root = Some(nd);
            p = q;
        } else {
            return Err(perr3("unexpected token in component body: `", k, "`"));
        }
    }
}

/// The component that IR text spells, by syntax alone: a header failure
/// is `InvalidHeader`, a lexical or grammatical one `Parse`.
pub open spec fn ir_text_syntax(text: Seq<char>) -> Option<Option<crate::ir_view::ComponentV>> {
    match crate::ir_loader::strip_header_spec(text) {
        None => None,
        Some(body) => match crate::ir_lexer::lex_from(body, 0) {
            Err(_) => Some(None),
            Ok(toks) => Some(ir_grammar::component(toks)),
        },
    }
}

/// The lexer's message for IR text whose header is sound and whose body
/// fails to split into tokens.
pub open spec fn lex_failure(text: Seq<char>) -> Option<Seq<char>> {
    match crate::ir_loader::strip_header_spec(text) {
        Some(body) => match crate::ir_lexer::lex_from(body, 0) {
            Err(m) => Some(m),
            Ok(_) => None,
        },
        None => None,
    }
}

/// Read IR text up to its syntax: check the header, split the rest into
/// tokens and parse them as one component. What this returns on success
/// has not been validated.
pub fn parse_ir_syntax(text: &str) -> (r: Result<IrComponent, IrLoadError>)
    ensures
        match ir_text_syntax(text@) {
            None => r matches Err(e) && e is InvalidHeader,
            Some(None) => r matches Err(e) && e is Parse,
            Some(Some(c)) => r matches Ok(x) && component_view(x) == c,
        },
        lex_failure(text@) matches Some(m) ==> (r matches Err(IrLoadError::Parse(t)) && t@ == m),
{
    let body = crate::ir_loader::check_and_strip_header(text)?;
    let toks = crate::ir_lexer::tokenize(body.as_str())?;
    parse_tokens(&toks)
}

} // verus!
