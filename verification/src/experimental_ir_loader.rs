//! The experimental `.uic` reader: a tokenizer and an S-expression parser.
//!
//! ```text
//! (component NAME
//!   (state VAR i32 INIT)
//!   (vstack SPACING PADDING CHILD...)
//!   (text ID "CONTENT")
//!   (button "LABEL" STYLE
//!     (on clicked (assign-add VAR DELTA) (update-text TEXT-ID VAR PREFIX))))
//! ```
use crate::ir_lexer::digits_value;
use crate::ir_loader::find_from;
use crate::property_value::PropertyValue;
use crate::text::{chars_of, find_char, is_digit, string_of};
use vstd::prelude::*;

verus! {

broadcast use vstd::string::group_string_axioms;

// ── Tokens ──────────────────────────────────────────────────────────────

/// A token of the `.uic` text.
#[derive(Debug, Clone, PartialEq)]
pub enum Token {
    LParen,
    RParen,
    Str(String),
    Atom(String),
}

/// The mathematical content of a [`Token`].
pub enum TokenView {
    LParen,
    RParen,
    Str(Seq<char>),
    Atom(Seq<char>),
}

impl View for Token {
    type V = TokenView;

    open spec fn view(&self) -> TokenView {
        match self {
            Token::LParen => TokenView::LParen,
            Token::RParen => TokenView::RParen,
            Token::Str(s) => TokenView::Str(s@),
            Token::Atom(a) => TokenView::Atom(a@),
        }
    }
}

/// The views of a token sequence.
pub open spec fn tokens_view(v: Seq<Token>) -> Seq<TokenView> {
    v.map_values(|t: Token| t@)
}

/// Space, tab, newline or carriage return.
pub open spec fn is_blank(c: char) -> bool {
    c == ' ' || c == '\t' || c == '\n' || c == '\r'
}

/// A character that ends an atom.
pub open spec fn is_atom_stop(c: char) -> bool {
    c == '(' || c == ')' || c == '"' || is_blank(c)
}

/// The end of the atom starting at `i`.
pub open spec fn atom_end(s: Seq<char>, i: int) -> int
    decreases s.len() - i,
{
    if 0 <= i < s.len() && !is_atom_stop(s[i]) {
        atom_end(s, i + 1)
    } else {
        i
    }
}

/// The index just past the first `c` at or after `i`, or the end of `s`.
pub open spec fn past(s: Seq<char>, c: char, i: int) -> int {
    let f = find_from(s, c, i);
    if f < s.len() {
        f + 1
    } else {
        s.len() as int
    }
}

/// What the tokenizer does at `i < s.len()`: the token it emits, if any,
/// and where it goes on. A `;` comment runs through the end of its line; a
/// string runs to the next `"` (or the end of the text) and knows no escapes;
/// anything else runs up to the next parenthesis, quote or blank as an atom.
pub open spec fn step(s: Seq<char>, i: int) -> (Option<TokenView>, int) {
    let c = s[i];
    if is_blank(c) {
        (None, i + 1)
    } else if c == ';' {
        (None, past(s, '\n', i))
    } else if c == '(' {
        (Some(TokenView::LParen), i + 1)
    } else if c == ')' {
        (Some(TokenView::RParen), i + 1)
    } else if c == '"' {
        (Some(TokenView::Str(s.subrange(i + 1, find_from(s, '"', i + 1)))), past(s, '"', i + 1))
    } else {
        let end = atom_end(s, i);
        (Some(TokenView::Atom(s.subrange(i, end))), end)
    }
}

/// The tokens of `s` from `i` on.
pub open spec fn tokens_from(s: Seq<char>, i: int) -> Seq<TokenView>
    decreases s.len() - i,
{
    if i < 0 || i >= s.len() {
        Seq::empty()
    } else {
        let (t, j) = step(s, i);
        if i < j <= s.len() {
            match t {
                Some(tok) => seq![tok] + tokens_from(s, j),
                None => tokens_from(s, j),
            }
        } else {
            Seq::empty()
        }
    }
}

proof fn lemma_find_from_bounds(s: Seq<char>, c: char, i: int)
    requires
        0 <= i <= s.len(),
    ensures
        i <= find_from(s, c, i) <= s.len(),
        find_from(s, c, i) < s.len() ==> s[find_from(s, c, i)] == c,
    decreases s.len() - i,
{
    if i < s.len() && s[i] != c {
        lemma_find_from_bounds(s, c, i + 1);
    }
}

proof fn lemma_atom_end(s: Seq<char>, i: int, j: int)
    requires
        0 <= i <= j <= s.len(),
        forall|k: int| i <= k < j ==> !is_atom_stop(#[trigger] s[k]),
    ensures
        atom_end(s, i) == atom_end(s, j),
    decreases j - i,
{
    if i < j {
        lemma_atom_end(s, i + 1, j);
    }
}

/// One tokenizer step at `i`: the token emitted, if any, and the next index.
fn token_at(cs: &Vec<char>, i: usize) -> (r: (Option<Token>, usize))
    requires
        i < cs@.len(),
    ensures
        ({
            let (t, j) = step(cs@, i as int);
            &&& r.1 == j
            &&& match t {
                Some(tok) => r.0 matches Some(x) && x@ == tok,
                None => r.0 is None,
            }
        }),
        i < r.1 <= cs@.len(),
{
    let n = cs.len();
    let c = cs[i];
    if c == ' ' || c == '\t' || c == '\n' || c == '\r' {
        return (None, i + 1);
    }
    if c == ';' {
        let f = find_char(cs, '\n', i);
        proof {
            lemma_find_from_bounds(cs@, '\n', i as int);
        }
        let next = if f < cs.len() {
            f + 1
        } else {
            f
        };
        return (None, next);
    }
    if c == '(' {
        return (Some(Token::LParen), i + 1);
    }
    if c == ')' {
        return (Some(Token::RParen), i + 1);
    }
    if c == '"' {
        let close = find_char(cs, '"', i + 1);
        let text = string_of(cs, i + 1, close);
        let next = if close < cs.len() {
            close + 1
        } else {
            close
        };
        return (Some(Token::Str(text)), next);
    }
    let mut j = i;
    while j < cs.len() && !(cs[j] == '(' || cs[j] == ')' || cs[j] == '"' || cs[j] == ' ' || cs[j] == '\t'
        || cs[j] == '\n' || cs[j] == '\r')
        invariant
            i <= j <= cs@.len(),
            forall|k: int| i <= k < j ==> !is_atom_stop(#[trigger] cs@[k]),
        decreases cs@.len() - j,
    {
        j += 1;
    }
    proof {
        lemma_atom_end(cs@, i as int, j as int);
    }
    (Some(Token::Atom(string_of(cs, i, j))), j)
}

/// Split `.uic` text into tokens. Never fails: an unterminated string runs
/// to the end of the text.
pub fn tokenize(src: &str) -> (out: Vec<Token>)
    ensures
        tokens_view(out@) == tokens_from(src@, 0),
{
    let cs = chars_of(src);
    let mut out: Vec<Token> = Vec::new();
    let mut i: usize = 0;
    while i < cs.len()
        invariant
            i <= cs@.len(),
            cs@ == src@,
            tokens_from(cs@, 0) == tokens_view(out@) + tokens_from(cs@, i as int),
        decreases cs@.len() - i,
    {
        let (t, j) = token_at(&cs, i);
        match t {
            Some(tok) => {
                let ghost before = out@;
                out.push(tok);
                proof {
                    assert(tokens_view(out@) =~= tokens_view(before).push(tok@));
                    assert(tokens_view(before) + (seq![tok@] + tokens_from(cs@, j as int)) =~= tokens_view(
                        out@,
                    ) + tokens_from(cs@, j as int));
                }
            },
            None => {},
        }
        i = j;
    }
    assert(tokens_view(out@) + Seq::<TokenView>::empty() =~= tokens_view(out@));
    out
}

// ── Integers ────────────────────────────────────────────────────────────

/// `str::parse::<i32>`: an optional `+` or `-` followed by one or more ASCII
/// digits, whose value fits an `i32`.
pub open spec fn parse_i32_spec(s: Seq<char>) -> Option<i32> {
    let neg = s.len() > 0 && s[0] == '-';
    let start: int = if s.len() > 0 && (s[0] == '-' || s[0] == '+') {
        1
    } else {
        0
    };
    if start >= s.len() || !(forall|k: int| start <= k < s.len() ==> is_digit(#[trigger] s[k])) {
        None
    } else {
        let v = digits_value(s, start, s.len() as int);
        let signed: int = if neg {
            -v
        } else {
            v as int
        };
        if i32::MIN <= signed <= i32::MAX {
            Some(signed as i32)
        } else {
            None
        }
    }
}

proof fn lemma_digits_value_grows(s: Seq<char>, a: int, b: int)
    requires
        a <= b,
    ensures
        digits_value(s, a, b) <= digits_value(s, a, b + 1),
{
    assert(digits_value(s, a, b + 1) == digits_value(s, a, b) * 10 + crate::ir_lexer::digit_value(s[b]));
}

/// Parse a decimal `i32` the way `str::parse::<i32>` does.
pub fn parse_i32(s: &str) -> (r: Option<i32>)
    ensures
        r == parse_i32_spec(s@),
{
    let cs = chars_of(s);
    let n = cs.len();
    let neg = n > 0 && cs[0] == '-';
    let start: usize = if n > 0 && (cs[0] == '-' || cs[0] == '+') {
        1
    } else {
        0
    };
    if start >= n {
        return None;
    }
    // Magnitudes up to 2^31 are tracked exactly; beyond that only the fact
    // that the value is too large is kept.
    let mut acc: u64 = 0;
    let mut over = false;
    let mut j = start;
    while j < n
        invariant
            start <= j <= n,
            n == cs@.len(),
            cs@ == s@,
            start as int == (if s@.len() > 0 && (s@[0] == '-' || s@[0] == '+') {
                1int
            } else {
                0int
            }),
            forall|k: int| start <= k < j ==> is_digit(#[trigger] cs@[k]),
            !over ==> acc == digits_value(cs@, start as int, j as int) && acc <= 0x8000_0000,
            over ==> digits_value(cs@, start as int, j as int) > 0x8000_0000,
        decreases n - j,
    {
        let c = cs[j];
        if !('0' <= c && c <= '9') {
            assert(!is_digit(s@[j as int]));
            assert(!(forall|k: int| start <= k < s@.len() ==> is_digit(#[trigger] s@[k])));
            return None;
        }
        let d = (c as u32 - '0' as u32) as u64;
        assert(d == crate::ir_lexer::digit_value(c));
        if !over {
            acc = acc * 10 + d;
            if acc > 0x8000_0000 {
                over = true;
            }
        } else {
            proof {
                lemma_digits_value_grows(cs@, start as int, j as int);
            }
        }
        j += 1;
    }
    if over {
        return None;
    }
    if neg {
        Some((0 - (acc as i64)) as i32)
    } else if acc <= 0x7fff_ffff {
        Some(acc as i32)
    } else {
        None
    }
}

// ── S-expressions ───────────────────────────────────────────────────────

/// A parsed S-expression.
#[derive(Debug)]
pub enum Expr {
    List(Vec<Expr>),
    Atom(String),
    Str(String),
    Int(i32),
}

/// The mathematical content of an [`Expr`].
pub enum ExprView {
    List(Seq<ExprView>),
    Atom(Seq<char>),
    Str(Seq<char>),
    Int(i32),
}

/// The view of an expression.
pub open spec fn expr_view(e: Expr) -> ExprView
    decreases e,
{
    match e {
        Expr::List(items) => {
            proof {
                assert(decreases_to!(e => items@));
            }
            ExprView::List(exprs_view(items@))
        },
        Expr::Atom(a) => ExprView::Atom(a@),
        Expr::Str(s) => ExprView::Str(s@),
        Expr::Int(n) => ExprView::Int(n),
    }
}

/// The views of a sequence of expressions.
pub open spec fn exprs_view(s: Seq<Expr>) -> Seq<ExprView>
    decreases s,
{
    if s.len() == 0 {
        Seq::empty()
    } else {
        exprs_view(s.subrange(0, s.len() - 1)).push(expr_view(s[s.len() - 1]))
    }
}

proof fn lemma_exprs_view_push(s: Seq<Expr>, e: Expr)
    ensures
        exprs_view(s.push(e)) == exprs_view(s).push(expr_view(e)),
{
    assert(s.push(e).subrange(0, s.len() as int) =~= s);
}

/// The expression at `pos`, and the position after it; `None` at the end
/// of the tokens or at a `)`. A list whose `)` is missing ends with the
/// tokens.
pub open spec fn parse_one_spec(t: Seq<TokenView>, pos: int) -> Option<(ExprView, int)>
    decreases t.len() - pos, 0int,
{
    if pos < 0 || pos >= t.len() {
        None
    } else {
        match t[pos] {
            TokenView::RParen => None,
            TokenView::LParen => {
                let (items, p) = parse_items_spec(t, pos + 1);
                Some((ExprView::List(items), if p < t.len() { p + 1 } else { p }))
            },
            TokenView::Str(s) => Some((ExprView::Str(s), pos + 1)),
            TokenView::Atom(a) => Some(
                (
                    match parse_i32_spec(a) {
                        Some(n) => ExprView::Int(n),
                        None => ExprView::Atom(a),
                    },
                    pos + 1,
                ),
            ),
        }
    }
}

/// The expressions of a list body from `pos` up to its `)` (or the end),
/// and the position of that `)`.
pub open spec fn parse_items_spec(t: Seq<TokenView>, pos: int) -> (Seq<ExprView>, int)
    decreases t.len() - pos, 1int,
{
    if 0 <= pos < t.len() && !(t[pos] is RParen) {
        match parse_one_spec(t, pos) {
            Some((e, p)) => if pos < p <= t.len() {
                let (rest, q) = parse_items_spec(t, p);
                (seq![e] + rest, q)
            } else {
                (Seq::empty(), pos)
            },
            None => (Seq::empty(), pos),
        }
    } else {
        (Seq::empty(), pos)
    }
}

/// The top-level expressions of a token sequence, from `pos` on; reading
/// stops at the first stray `)`.
pub open spec fn parse_all_spec(t: Seq<TokenView>, pos: int) -> Seq<ExprView>
    decreases t.len() - pos,
{
    match parse_one_spec(t, pos) {
        Some((e, p)) => if pos < p <= t.len() {
            seq![e] + parse_all_spec(t, p)
        } else {
            Seq::empty()
        },
        None => Seq::empty(),
    }
}

/// Parse one expression at `*pos`, advancing `*pos` past it.
pub fn parse_one(toks: &Vec<Token>, pos: &mut usize) -> (r: Option<Expr>)
    requires
        *old(pos) <= toks@.len(),
    ensures
        match parse_one_spec(tokens_view(toks@), *old(pos) as int) {
            Some((e, p)) => r matches Some(x) && expr_view(x) == e && *final(pos) == p,
            None => r is None && *final(pos) == *old(pos),
        },
        *final(pos) <= toks@.len(),
        r is Some ==> *old(pos) < *final(pos),
    decreases toks@.len() - *old(pos),
{
    let ghost t = tokens_view(toks@);
    let start = *pos;
    if start >= toks.len() {
        return None;
    }
    match &toks[start] {
        Token::RParen => None,
        Token::LParen => {
            *pos = start + 1;
            let mut items: Vec<Expr> = Vec::new();
            while *pos < toks.len() && !matches!(toks[*pos], Token::RParen)
                invariant
                    start < *pos <= toks@.len(),
                    start == *old(pos),
                    t == tokens_view(toks@),
                    parse_items_spec(t, start + 1) == ({
                        let (rest, q) = parse_items_spec(t, *pos as int);
                        (exprs_view(items@) + rest, q)
                    }),
                decreases toks@.len() - *pos,
            {
                let ghost here = *pos;
                let e = parse_one(toks, pos);
                match e {
                    Some(x) => {
                        let ghost before = items@;
                        proof {
                            lemma_exprs_view_push(before, x);
                        }
                        items.push(x);
                        proof {
                            let (rest, q) = parse_items_spec(t, *pos as int);
                            assert(exprs_view(before) + (seq![expr_view(x)] + rest) =~= exprs_view(items@)
                                + rest);
                        }
                    },
                    None => {
                        proof {
                            assert(false);
                        }
                    },
                }
            }
            proof {
                let (rest, q) = parse_items_spec(t, *pos as int);
                assert(exprs_view(items@) + Seq::<ExprView>::empty() =~= exprs_view(items@));
            }
            if *pos < toks.len() {
                *pos = *pos + 1;
            }
            Some(Expr::List(items))
        },
        Token::Str(s) => {
            *pos = start + 1;
            Some(Expr::Str(s.clone()))
        },
        Token::Atom(a) => {
            *pos = start + 1;
            match parse_i32(a.as_str()) {
                Some(n) => Some(Expr::Int(n)),
                None => Some(Expr::Atom(a.clone())),
            }
        },
    }
}

/// Parse all top-level expressions of `.uic` text.
pub fn parse(src: &str) -> (out: Vec<Expr>)
    ensures
        exprs_view(out@) == parse_all_spec(tokens_from(src@, 0), 0),
{
    let toks = tokenize(src);
    let ghost t = tokens_view(toks@);
    let mut pos: usize = 0;
    let mut out: Vec<Expr> = Vec::new();
    loop
        invariant
            pos <= toks@.len(),
            t == tokens_view(toks@),
            t == tokens_from(src@, 0),
            parse_all_spec(t, 0) == exprs_view(out@) + parse_all_spec(t, pos as int),
        ensures
            parse_all_spec(t, 0) == exprs_view(out@),
        decreases toks@.len() - pos,
    {
        let ghost here = pos;
        match parse_one(&toks, &mut pos) {
            Some(e) => {
                let ghost before = out@;
                proof {
                    lemma_exprs_view_push(before, e);
                }
                out.push(e);
                proof {
                    assert(exprs_view(before) + (seq![expr_view(e)] + parse_all_spec(t, pos as int))
                        =~= exprs_view(out@) + parse_all_spec(t, pos as int));
                }
            },
            None => {
                assert(exprs_view(out@) + Seq::<ExprView>::empty() =~= exprs_view(out@));
                break;
            },
        }
    }
    out
}

// ── Values and helpers ──────────────────────────────────────────────────

/// A value a handler writes into a widget property.
#[derive(Debug, Clone)]
pub enum Value {
    I32(i32),
    Str(String),
}

impl Value {
    /// The property value carrying the same payload.
    pub fn as_property(&self) -> (p: PropertyValue)
        ensures
            match self {
                Value::I32(n) => p == PropertyValue::I32(*n),
                Value::Str(s) => p matches PropertyValue::String(t) && t@ == s@,
            },
    {
        match self {
            Value::I32(n) => PropertyValue::I32(*n),
            Value::Str(s) => PropertyValue::String(s.clone()),
        }
    }
}

/// The text of an atom or a string expression.
pub fn atom(e: &Expr) -> (r: Option<&str>)
    ensures
        match e {
            Expr::Atom(s) => r matches Some(x) && x@ == s@,
            Expr::Str(s) => r matches Some(x) && x@ == s@,
            _ => r is None,
        },
{
    match e {
        Expr::Atom(s) => Some(s.as_str()),
        Expr::Str(s) => Some(s.as_str()),
        _ => None,
    }
}

/// The integer an expression denotes: an `Int`, or an atom that parses as
/// one.
pub fn int_val(e: &Expr) -> (r: Option<i32>)
    ensures
        match e {
            Expr::Int(n) => r == Some(*n),
            Expr::Atom(s) => r == parse_i32_spec(s@),
            _ => r is None,
        },
{
    match e {
        Expr::Int(n) => Some(*n),
        Expr::Atom(s) => parse_i32(s.as_str()),
        _ => None,
    }
}

} // verus!
