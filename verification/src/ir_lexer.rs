//! The lexer of the IR text format.
use crate::decimal::push_char;
use crate::ir::CompoundOp;
use crate::ir_loader::IrLoadError;
use crate::text::{is_alpha, is_digit, is_hex, is_white_space, is_white_space_char, string_of};
use vstd::prelude::*;

verus! {

/// A lexical token of the IR text.
#[derive(Debug, Clone, PartialEq)]
pub enum Token {
    LBrace,
    RBrace,
    LParen,
    RParen,
    LBracket,
    RBracket,
    Comma,
    Eq,
    Colon,
    Ident(String),
    Int(i32),
    Str(String),
    AssignOp(CompoundOp),
    Ratio { num: i32, den: i32 },
    Color(u32),
    Star,
}

/// The mathematical content of a [`Token`].
pub enum TokenView {
    LBrace,
    RBrace,
    LParen,
    RParen,
    LBracket,
    RBracket,
    Comma,
    Eq,
    Colon,
    Ident(Seq<char>),
    Int(i32),
    Str(Seq<char>),
    AssignOp(CompoundOp),
    Ratio { num: i32, den: i32 },
    Color(u32),
    Star,
}

impl View for Token {
    type V = TokenView;

    open spec fn view(&self) -> TokenView {
        match self {
            Token::LBrace => TokenView::LBrace,
            Token::RBrace => TokenView::RBrace,
            Token::LParen => TokenView::LParen,
            Token::RParen => TokenView::RParen,
            Token::LBracket => TokenView::LBracket,
            Token::RBracket => TokenView::RBracket,
            Token::Comma => TokenView::Comma,
            Token::Eq => TokenView::Eq,
            Token::Colon => TokenView::Colon,
            Token::Ident(s) => TokenView::Ident(s@),
            Token::Int(n) => TokenView::Int(*n),
            Token::Str(s) => TokenView::Str(s@),
            Token::AssignOp(op) => TokenView::AssignOp(*op),
            Token::Ratio { num, den } => TokenView::Ratio { num: *num, den: *den },
            Token::Color(c) => TokenView::Color(*c),
            Token::Star => TokenView::Star,
        }
    }
}

/// The views of a token sequence.
pub open spec fn tokens_view(v: Seq<Token>) -> Seq<TokenView> {
    v.map_values(|t: Token| t@)
}

/// What the lexer does at one position: skip to `j`, emit a token and go on
/// at `j`, or fail with a message.
pub enum LexStep {
    Skip(int),
    Emit(TokenView, int),
    Fail(Seq<char>),
}

/// The end of the run of ASCII digits starting at `i`.
pub open spec fn digit_run_end(s: Seq<char>, i: int) -> int
    decreases s.len() - i,
{
    if 0 <= i < s.len() && is_digit(s[i]) {
        digit_run_end(s, i + 1)
    } else {
        i
    }
}

/// The end of the run of ASCII hex digits starting at `i`.
pub open spec fn hex_run_end(s: Seq<char>, i: int) -> int
    decreases s.len() - i,
{
    if 0 <= i < s.len() && is_hex(s[i]) {
        hex_run_end(s, i + 1)
    } else {
        i
    }
}

/// A character that may continue an identifier.
pub open spec fn is_ident_char(c: char) -> bool {
    is_alpha(c) || is_digit(c) || c == '_' || c == '-'
}

/// The end of the run of identifier characters starting at `i`.
pub open spec fn ident_run_end(s: Seq<char>, i: int) -> int
    decreases s.len() - i,
{
    if 0 <= i < s.len() && is_ident_char(s[i]) {
        ident_run_end(s, i + 1)
    } else {
        i
    }
}

/// The value of a decimal digit.
pub open spec fn digit_value(c: char) -> nat {
    (c as int - '0' as int) as nat
}

/// The value of a hex digit.
pub open spec fn hex_value(c: char) -> nat {
    if is_digit(c) {
        digit_value(c)
    } else if 'a' <= c <= 'f' {
        (c as int - 'a' as int + 10) as nat
    } else {
        (c as int - 'A' as int + 10) as nat
    }
}

/// The decimal number written by `s[a..b]`.
pub open spec fn digits_value(s: Seq<char>, a: int, b: int) -> nat
    decreases b - a,
{
    if b <= a {
        0
    } else {
        digits_value(s, a, b - 1) * 10 + digit_value(s[b - 1])
    }
}

/// The hexadecimal number written by `s[a..b]`.
pub open spec fn hex_digits_value(s: Seq<char>, a: int, b: int) -> nat
    decreases b - a,
{
    if b <= a {
        0
    } else {
        hex_digits_value(s, a, b - 1) * 16 + hex_value(s[b - 1])
    }
}

/// A string literal's body from `j` on, with the characters `acc` already
/// read: the decoded text and the index after the closing quote; else
/// `Err(Some(e))` for the unknown escape `\e`, or `Err(None)` when the
/// closing quote is missing.
pub open spec fn scan_string(s: Seq<char>, j: int, acc: Seq<char>) -> Result<(Seq<char>, int), Option<char>>
    decreases s.len() - j,
{
    if j < 0 || j >= s.len() {
        Err(None)
    } else if s[j] == '"' {
        Ok((acc, j + 1))
    } else if s[j] == '\\' && j + 1 < s.len() {
        let e = s[j + 1];
        if e == '"' {
            scan_string(s, j + 2, acc.push('"'))
        } else if e == '\\' {
            scan_string(s, j + 2, acc.push('\\'))
        } else if e == 'n' {
            scan_string(s, j + 2, acc.push('\n'))
        } else if e == 't' {
            scan_string(s, j + 2, acc.push('\t'))
        } else {
            Err(Some(e))
        }
    } else {
        scan_string(s, j + 1, acc.push(s[j]))
    }
}

/// `0xAARRGGBB` from the hex digits of `#RRGGBB` (alpha `0xFF`) or
/// `#RRGGBBAA`; `None` for any other digit count.
pub open spec fn color_value(s: Seq<char>, a: int, b: int) -> Option<u32> {
    let v = hex_digits_value(s, a, b);
    if b - a == 6 {
        Some((0xFF00_0000 + v) as u32)
    } else if b - a == 8 {
        Some(((v % 256) * 0x100_0000 + v / 256) as u32)
    } else {
        None
    }
}

/// One lexer step at `i < s.len()`.
pub open spec fn lex_step(s: Seq<char>, i: int) -> LexStep {
    let c = s[i];
    let next = if i + 1 < s.len() { Some(s[i + 1]) } else { None };
    if is_white_space(c) {
        LexStep::Skip(i + 1)
    } else if c == ';' {
        LexStep::Skip(crate::ir_loader::find_from(s, '\n', i))
    } else if c == '{' {
        LexStep::Emit(TokenView::LBrace, i + 1)
    } else if c == '}' {
        LexStep::Emit(TokenView::RBrace, i + 1)
    } else if c == '(' {
        LexStep::Emit(TokenView::LParen, i + 1)
    } else if c == ')' {
        LexStep::Emit(TokenView::RParen, i + 1)
    } else if c == '[' {
        LexStep::Emit(TokenView::LBracket, i + 1)
    } else if c == ']' {
        LexStep::Emit(TokenView::RBracket, i + 1)
    } else if c == ',' {
        LexStep::Emit(TokenView::Comma, i + 1)
    } else if c == '=' {
        LexStep::Emit(TokenView::Eq, i + 1)
    } else if c == ':' {
        LexStep::Emit(TokenView::Colon, i + 1)
    } else if c == '"' {
        match scan_string(s, i + 1, Seq::empty()) {
            Ok((text, j)) => LexStep::Emit(TokenView::Str(text), j),
            Err(Some(e)) => LexStep::Fail("unknown escape: \\"@ + seq![e]),
            Err(None) => LexStep::Fail("unterminated string literal"@),
        }
    } else if c == '+' || c == '/' {
        if next == Some('=') {
            LexStep::Emit(TokenView::AssignOp(if c == '+' { CompoundOp::Add } else { CompoundOp::Div }), i + 2)
        } else {
            LexStep::Fail(unexpected_char_message(s, i))
        }
    } else if c == '*' {
        if next == Some('=') {
            LexStep::Emit(TokenView::AssignOp(CompoundOp::Mul), i + 2)
        } else {
            LexStep::Emit(TokenView::Star, i + 1)
        }
    } else if c == '-' {
        if next == Some('=') {
            LexStep::Emit(TokenView::AssignOp(CompoundOp::Sub), i + 2)
        } else if next matches Some(d) && is_digit(d) {
            let end = digit_run_end(s, i + 1);
            let n = digits_value(s, i + 1, end);
            if n <= i32::MAX {
                LexStep::Emit(TokenView::Int((-n) as i32), end)
            } else {
                LexStep::Fail("invalid integer: -"@ + s.subrange(i + 1, end))
            }
        } else {
            LexStep::Fail("unexpected character: '-'"@)
        }
    } else if is_digit(c) {
        let end = digit_run_end(s, i);
        let num = digits_value(s, i, end);
        if num > i32::MAX {
            LexStep::Fail("invalid integer: "@ + s.subrange(i, end))
        } else if end + 1 < s.len() && s[end] == ':' && is_digit(s[end + 1]) {
            let den_end = digit_run_end(s, end + 1);
            let den = digits_value(s, end + 1, den_end);
            if den > i32::MAX {
                LexStep::Fail("invalid ratio denominator: "@ + s.subrange(end + 1, den_end))
            } else {
                LexStep::Emit(TokenView::Ratio { num: num as i32, den: den as i32 }, den_end)
            }
        } else {
            LexStep::Emit(TokenView::Int(num as i32), end)
        }
    } else if c == '#' {
        let end = hex_run_end(s, i + 1);
        match color_value(s, i + 1, end) {
            Some(v) => LexStep::Emit(TokenView::Color(v), end),
            None => LexStep::Fail(color_message(s, i + 1, end)),
        }
    } else if is_alpha(c) || c == '_' {
        let end = ident_run_end(s, i);
        LexStep::Emit(TokenView::Ident(s.subrange(i, end)), end)
    } else {
        LexStep::Fail(unexpected_char_message(s, i))
    }
}

/// The message for the character at `i`, which starts no token.
pub open spec fn unexpected_char_message(s: Seq<char>, i: int) -> Seq<char> {
    "unexpected character: '"@ + s.subrange(i, i + 1) + "'"@
}

/// The message for a colour literal whose hex digits `s[a..b]` are neither
/// six nor eight.
pub open spec fn color_message(s: Seq<char>, a: int, b: int) -> Seq<char> {
    "color literal `#"@ + s.subrange(a, b) + "` must have 6 or 8 hex digits, got "@ + crate::decimal::decimal(
        (b - a) as nat,
    )
}

/// The tokens of `s` from `i` on, or the message of the first failing step.
pub open spec fn lex_from(s: Seq<char>, i: int) -> Result<Seq<TokenView>, Seq<char>>
    decreases s.len() - i,
{
    if i < 0 {
        Err(Seq::empty())
    } else if i >= s.len() {
        Ok(Seq::empty())
    } else {
        match lex_step(s, i) {
            LexStep::Skip(j) => if i < j <= s.len() {
                lex_from(s, j)
            } else {
                Err(Seq::empty())
            },
            LexStep::Emit(t, j) => if i < j <= s.len() {
                match lex_from(s, j) {
                    Ok(rest) => Ok(seq![t] + rest),
                    Err(m) => Err(m),
                }
            } else {
                Err(Seq::empty())
            },
            LexStep::Fail(m) => Err(m),
        }
    }
}

/// `prefix` followed by the tokens of `rest`, failing when `rest` fails.
pub open spec fn prefixed(prefix: Seq<TokenView>, rest: Result<Seq<TokenView>, Seq<char>>) -> Result<
    Seq<TokenView>,
    Seq<char>,
> {
    match rest {
        Ok(r) => Ok(prefix + r),
        Err(m) => Err(m),
    }
}

// ── Runs and their values ───────────────────────────────────────────────

proof fn lemma_digit_run_end(s: Seq<char>, i: int, j: int)
    requires
        0 <= i <= j <= s.len(),
        forall|k: int| i <= k < j ==> is_digit(#[trigger] s[k]),
    ensures
        digit_run_end(s, i) == digit_run_end(s, j),
    decreases j - i,
{
    if i < j {
        lemma_digit_run_end(s, i + 1, j);
    }
}

proof fn lemma_hex_run_end(s: Seq<char>, i: int, j: int)
    requires
        0 <= i <= j <= s.len(),
        forall|k: int| i <= k < j ==> is_hex(#[trigger] s[k]),
    ensures
        hex_run_end(s, i) == hex_run_end(s, j),
    decreases j - i,
{
    if i < j {
        lemma_hex_run_end(s, i + 1, j);
    }
}

proof fn lemma_ident_run_end(s: Seq<char>, i: int, j: int)
    requires
        0 <= i <= j <= s.len(),
        forall|k: int| i <= k < j ==> is_ident_char(#[trigger] s[k]),
    ensures
        ident_run_end(s, i) == ident_run_end(s, j),
    decreases j - i,
{
    if i < j {
        lemma_ident_run_end(s, i + 1, j);
    }
}

/// The end of the digit run at `i`, and its value when it fits an `i32`.
fn scan_digits(cs: &Vec<char>, i: usize) -> (r: (usize, Option<i32>))
    requires
        i <= cs@.len(),
    ensures
        r.0 == digit_run_end(cs@, i as int),
        i <= r.0 <= cs@.len(),
        r.1 matches Some(v) ==> v == digits_value(cs@, i as int, r.0 as int),
        r.1 is None ==> digits_value(cs@, i as int, r.0 as int) > i32::MAX,
        i < cs@.len() && is_digit(cs@[i as int]) ==> i < r.0,
{
    let mut j = i;
    let mut acc: u64 = 0;
    let mut over = false;
    while j < cs.len() && '0' <= cs[j] && cs[j] <= '9'
        invariant
            i <= j <= cs@.len(),
            forall|k: int| i <= k < j ==> is_digit(#[trigger] cs@[k]),
            !over ==> acc == digits_value(cs@, i as int, j as int) && acc <= i32::MAX,
            over ==> digits_value(cs@, i as int, j as int) > i32::MAX,
        decreases cs@.len() - j,
    {
        let d = (cs[j] as u32 - '0' as u32) as u64;
        assert(d == digit_value(cs@[j as int]));
        if !over {
            acc = acc * 10 + d;
            if acc > 0x7fff_ffff {
                over = true;
            }
        } else {
            assert(digits_value(cs@, i as int, j as int + 1) >= digits_value(cs@, i as int, j as int)) by (
            nonlinear_arith)
                requires
                    digits_value(cs@, i as int, j as int + 1) == digits_value(cs@, i as int, j as int) * 10
                        + digit_value(cs@[j as int]),
            ;
        }
        j += 1;
    }
    proof {
        lemma_digit_run_end(cs@, i as int, j as int);
    }
    if over {
        (j, None)
    } else {
        (j, Some(acc as i32))
    }
}

/// The end of the hex run at `i`, and its value when the run has at most
/// eight digits.
fn scan_hex(cs: &Vec<char>, i: usize) -> (r: (usize, u64))
    requires
        i <= cs@.len(),
    ensures
        r.0 == hex_run_end(cs@, i as int),
        i <= r.0 <= cs@.len(),
        r.0 - i <= 8 ==> r.1 == hex_digits_value(cs@, i as int, r.0 as int),
        r.0 - i <= 8 ==> r.1 < pow16(r.0 - i),
{
    let mut j = i;
    let mut acc: u64 = 0;
    while j < cs.len() && (('0' <= cs[j] && cs[j] <= '9') || ('a' <= cs[j] && cs[j] <= 'f') || ('A' <= cs[j]
        && cs[j] <= 'F'))
        invariant
            i <= j <= cs@.len(),
            forall|k: int| i <= k < j ==> is_hex(#[trigger] cs@[k]),
            j - i <= 8 ==> acc == hex_digits_value(cs@, i as int, j as int),
            j - i <= 8 ==> acc < pow16(j - i),
        decreases cs@.len() - j,
    {
        proof {
            if j - i < 8 {
                lemma_pow16_mono(j - i + 1, 8);
                lemma_pow16_eight();
            }
        }
        let c = cs[j];
        let d: u64 = if '0' <= c && c <= '9' {
            (c as u32 - '0' as u32) as u64
        } else if 'a' <= c && c <= 'f' {
            (c as u32 - 'a' as u32 + 10) as u64
        } else {
            (c as u32 - 'A' as u32 + 10) as u64
        };
        assert(d == hex_value(c) && d < 16);
        if j - i < 8 {
            assert(acc * 16 + d < pow16(j - i + 1)) by (nonlinear_arith)
                requires
                    acc < pow16(j - i),
                    d < 16,
                    pow16(j - i + 1) == pow16(j - i) * 16,
            ;
            acc = acc * 16 + d;
        }
        j += 1;
    }
    proof {
        lemma_hex_run_end(cs@, i as int, j as int);
    }
    (j, acc)
}

proof fn lemma_pow16_mono(n: int, m: int)
    requires
        0 <= n <= m,
    ensures
        pow16(n) <= pow16(m),
    decreases m - n,
{
    if n < m {
        lemma_pow16_mono(n, m - 1);
    }
}

proof fn lemma_pow16_eight()
    ensures
        pow16(6) == 0x100_0000,
        pow16(8) == 0x1_0000_0000,
{
    reveal_with_fuel(pow16, 9);
}

/// `16^n`.
pub open spec fn pow16(n: int) -> nat
    decreases n,
{
    if n <= 0 {
        1
    } else {
        16 * pow16(n - 1)
    }
}

/// The end of the identifier run at `i`.
fn scan_ident(cs: &Vec<char>, i: usize) -> (end: usize)
    requires
        i <= cs@.len(),
    ensures
        end == ident_run_end(cs@, i as int),
        i <= end <= cs@.len(),
        i < cs@.len() && is_ident_char(cs@[i as int]) ==> i < end,
{
    let mut j = i;
    while j < cs.len() && (('a' <= cs[j] && cs[j] <= 'z') || ('A' <= cs[j] && cs[j] <= 'Z') || ('0' <= cs[j]
        && cs[j] <= '9') || cs[j] == '_' || cs[j] == '-')
        invariant
            i <= j <= cs@.len(),
            forall|k: int| i <= k < j ==> is_ident_char(#[trigger] cs@[k]),
        decreases cs@.len() - j,
    {
        j += 1;
    }
    proof {
        lemma_ident_run_end(cs@, i as int, j as int);
    }
    j
}

/// Decode a string literal body starting at `j` (after the opening quote).
fn scan_string_exec(cs: &Vec<char>, j: usize) -> (r: Result<(String, usize), Option<char>>)
    requires
        j <= cs@.len(),
    ensures
        match scan_string(cs@, j as int, Seq::empty()) {
            Ok((text, k)) => r matches Ok((t, k2)) && t@ == text && k2 == k,
            Err(x) => r == Err::<(String, usize), Option<char>>(x),
        },
        r matches Ok((_, k2)) ==> j < k2 <= cs@.len(),
{
    let mut out = String::new();
    let mut k = j;
    while k < cs.len() && cs[k] != '"'
        invariant
            j <= k <= cs@.len(),
            scan_string(cs@, j as int, Seq::empty()) == scan_string(cs@, k as int, out@),
        decreases cs@.len() - k,
    {
        if cs[k] == '\\' && k + 1 < cs.len() {
            let e = cs[k + 1];
            let ch = if e == '"' {
                '"'
            } else if e == '\\' {
                '\\'
            } else if e == 'n' {
                '\n'
            } else if e == 't' {
                '\t'
            } else {
                return Err(Some(e));
            };
            push_char(&mut out, ch);
            k += 2;
        } else {
            push_char(&mut out, cs[k]);
            k += 1;
        }
    }
    if k >= cs.len() {
        return Err(None);
    }
    Ok((out, k + 1))
}

fn parse_error(msg: &str) -> (e: IrLoadError)
    ensures
        e is Parse,
        e matches IrLoadError::Parse(t) && t@ == msg@,
{
    IrLoadError::Parse(msg.to_string())
}

fn parse_error2(msg: &str, detail: &str) -> (e: IrLoadError)
    ensures
        e is Parse,
        e matches IrLoadError::Parse(t) && t@ == msg@ + detail@,
{
    let mut m = msg.to_string();
    m.append(detail);
    IrLoadError::Parse(m)
}

fn parse_error3(msg: &str, detail: &str, tail: &str) -> (e: IrLoadError)
    ensures
        e is Parse,
        e matches IrLoadError::Parse(t) && t@ == msg@ + detail@ + tail@,
{
    let mut m = msg.to_string();
    m.append(detail);
    m.append(tail);
    IrLoadError::Parse(m)
}

/// One lexer step at `i`: `Ok((Some(token), j))` emits, `Ok((None, j))`
/// skips, `Err` fails.
fn lex_one(cs: &Vec<char>, i: usize) -> (r: Result<(Option<Token>, usize), IrLoadError>)
    requires
        i < cs@.len(),
    ensures
        match lex_step(cs@, i as int) {
            LexStep::Skip(j) => r matches Ok((None, k)) && k == j,
            LexStep::Emit(t, j) => r matches Ok((Some(tok), k)) && tok@ == t && k == j,
            LexStep::Fail(m) => r matches Err(IrLoadError::Parse(t)) && t@ == m,
        },
        r matches Ok((_, k)) ==> i < k <= cs@.len(),
{
    let c = cs[i];
    let len = cs.len();
    let next: Option<char> = if i < len - 1 {
        Some(cs[i + 1])
    } else {
        None
    };
    if is_white_space_char(c) {
        return Ok((None, i + 1));
    }
    if c == ';' {
        let mut j = i;
        while j < cs.len() && cs[j] != '\n'
            invariant
                i <= j <= cs@.len(),
                crate::ir_loader::find_from(cs@, '\n', j as int) == crate::ir_loader::find_from(cs@, '\n', i as int),
            decreases cs@.len() - j,
        {
            j += 1;
        }
        assert(j > i);
        return Ok((None, j));
    }
    let single = if c == '{' {
        Some(Token::LBrace)
    } else if c == '}' {
        Some(Token::RBrace)
    } else if c == '(' {
        Some(Token::LParen)
    } else if c == ')' {
        Some(Token::RParen)
    } else if c == '[' {
        Some(Token::LBracket)
    } else if c == ']' {
        Some(Token::RBracket)
    } else if c == ',' {
        Some(Token::Comma)
    } else if c == '=' {
        Some(Token::Eq)
    } else if c == ':' {
        Some(Token::Colon)
    } else {
        None
    };
    if let Some(t) = single {
        return Ok((Some(t), i + 1));
    }
    if c == '"' {
        return match scan_string_exec(cs, i + 1) {
            Ok((text, j)) => Ok((Some(Token::Str(text)), j)),
            Err(Some(e)) => {
                let mut shown = String::new();
                crate::decimal::push_char(&mut shown, e);
                Err(parse_error2("unknown escape: \\", shown.as_str()))
            },
            Err(None) => Err(parse_error("unterminated string literal")),
        };
    }
    if c == '+' || c == '/' {
        if next == Some('=') {
            let op = if c == '+' {
                CompoundOp::Add
            } else {
                CompoundOp::Div
            };
            return Ok((Some(Token::AssignOp(op)), i + 2));
        }
        let shown = string_of(cs, i, i + 1);
        return Err(parse_error3("unexpected character: '", shown.as_str(), "'"));
    }
    if c == '*' {
        if next == Some('=') {
            return Ok((Some(Token::AssignOp(CompoundOp::Mul)), i + 2));
        }
        return Ok((Some(Token::Star), i + 1));
    }
    if c == '-' {
        if next == Some('=') {
            return Ok((Some(Token::AssignOp(CompoundOp::Sub)), i + 2));
        }
        if let Some(d) = next {
            if '0' <= d && d <= '9' {
                let (end, v) = scan_digits(cs, i + 1);
                return match v {
                    Some(n) => Ok((Some(Token::Int(-n)), end)),
                    None => {
                        let shown = string_of(cs, i + 1, end);
                        Err(parse_error2("invalid integer: -", shown.as_str()))
                    },
                };
            }
        }
        return Err(parse_error("unexpected character: '-'"));
    }
    if '0' <= c && c <= '9' {
        let (end, v) = scan_digits(cs, i);
        let num = match v {
            Some(n) => n,
            None => {
                let shown = string_of(cs, i, end);
                return Err(parse_error2("invalid integer: ", shown.as_str()));
            },
        };
        if end < len - 1 && cs[end] == ':' && '0' <= cs[end + 1] && cs[end + 1] <= '9' {
            let (den_end, dv) = scan_digits(cs, end + 1);
            return match dv {
                Some(den) => Ok((Some(Token::Ratio { num, den }), den_end)),
                None => {
                    let shown = string_of(cs, end + 1, den_end);
                    Err(parse_error2("invalid ratio denominator: ", shown.as_str()))
                },
            };
        }
        return Ok((Some(Token::Int(num)), end));
    }
    if c == '#' {
        let (end, v) = scan_hex(cs, i + 1);
        let n = end - (i + 1);
        if n == 6 {
            assert(v < 0x100_0000) by {
                lemma_pow16_eight();
            }
            return Ok((Some(Token::Color((0xFF00_0000u64 + v) as u32)), end));
        } else if n == 8 {
            assert(v < 0x1_0000_0000) by {
                lemma_pow16_eight();
            }
            let packed: u64 = (v % 256) * 0x100_0000 + v / 256;
            assert(packed < 0x1_0000_0000) by (nonlinear_arith)
                requires
                    packed == (v % 256) * 0x100_0000 + v / 256,
                    v < 0x1_0000_0000,
            ;
            return Ok((Some(Token::Color(packed as u32)), end));
        }
        let (hex, count) = (string_of(cs, i + 1, end), crate::decimal::usize_to_string(n));
        let mut m = String::from_str("color literal `#");
        m.append(hex.as_str());
        m.append("` must have 6 or 8 hex digits, got ");
        m.append(count.as_str());
        return Err(IrLoadError::Parse(m));
    }
    if ('a' <= c && c <= 'z') || ('A' <= c && c <= 'Z') || c == '_' {
        let end = scan_ident(cs, i);
        let text = string_of(cs, i, end);
        return Ok((Some(Token::Ident(text)), end));
    }
    let shown = string_of(cs, i, i + 1);
    Err(parse_error3("unexpected character: '", shown.as_str(), "'"))
}

/// Split IR text into tokens. White space is skipped, `;` starts a comment
/// running to the end of the line, and any character that starts no token is
/// a parse error, as are an unknown string escape, an unterminated string, an
/// integer beyond `i32`, and a colour literal without 6 or 8 hex digits.
pub fn tokenize(text: &str) -> (r: Result<Vec<Token>, IrLoadError>)
    ensures
        match lex_from(text@, 0) {
            Ok(ts) => r matches Ok(v) && tokens_view(v@) == ts,
            Err(m) => r matches Err(IrLoadError::Parse(t)) && t@ == m,
        },
{
    let cs = crate::text::chars_of(text);
    let mut tokens: Vec<Token> = Vec::new();
    let mut i: usize = 0;
    while i < cs.len()
        invariant
            0 <= i <= cs@.len(),
            cs@ == text@,
            lex_from(cs@, 0) == prefixed(tokens_view(tokens@), lex_from(cs@, i as int)),
        decreases cs@.len() - i,
    {
        let step = lex_one(&cs, i);
        match step {
            Ok((Some(t), j)) => {
                let ghost before = tokens@;
                tokens.push(t);
                proof {
                    assert(tokens_view(tokens@) =~= tokens_view(before) + seq![t@]);
                    match lex_from(cs@, j as int) {
                        Ok(rest) => {
                            assert(tokens_view(before) + (seq![t@] + rest) =~= tokens_view(tokens@) + rest);
                        },
                        Err(_) => {},
                    }
                }
                i = j;
            },
            Ok((None, j)) => {
                i = j;
            },
            Err(e) => {
                return Err(e);
            },
        }
    }
    assert(tokens_view(tokens@) + Seq::<TokenView>::empty() =~= tokens_view(tokens@));
    Ok(tokens)
}

} // verus!
