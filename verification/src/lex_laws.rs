//! Laws of the lexer: the text before a position does not change how the
//! text after it is split, so white space and comments add no token.
use crate::ir_loader::find_from;
use crate::ir_lexer::{
    digit_run_end, digits_value, hex_digits_value, hex_run_end, ident_run_end, lex_from, lex_step,
    scan_string, LexStep,
};
use crate::text::is_white_space;
use vstd::prelude::*;

verus! {

/// A lexer step taken `n` positions further on.
pub open spec fn shifted_step(st: LexStep, n: int) -> LexStep {
    match st {
        LexStep::Skip(j) => LexStep::Skip(j + n),
        LexStep::Emit(t, j) => LexStep::Emit(t, j + n),
        LexStep::Fail(m) => LexStep::Fail(m),
    }
}

/// A string body scanned `n` positions further on.
pub open spec fn shifted_scan(r: Result<(Seq<char>, int), Option<char>>, n: int) -> Result<
    (Seq<char>, int),
    Option<char>,
> {
    match r {
        Ok((t, e)) => Ok((t, e + n)),
        Err(x) => Err(x),
    }
}

proof fn lemma_digit_run_shift(p: Seq<char>, r: Seq<char>, k: int)
    requires
        0 <= k <= r.len(),
    ensures
        digit_run_end(p + r, p.len() + k) == p.len() + digit_run_end(r, k),
        k <= digit_run_end(r, k) <= r.len(),
    decreases r.len() - k,
{
    if k < r.len() {
        assert((p + r)[p.len() + k] == r[k]);
        lemma_digit_run_shift(p, r, k + 1);
    }
}

proof fn lemma_hex_run_shift(p: Seq<char>, r: Seq<char>, k: int)
    requires
        0 <= k <= r.len(),
    ensures
        hex_run_end(p + r, p.len() + k) == p.len() + hex_run_end(r, k),
        k <= hex_run_end(r, k) <= r.len(),
    decreases r.len() - k,
{
    if k < r.len() {
        assert((p + r)[p.len() + k] == r[k]);
        lemma_hex_run_shift(p, r, k + 1);
    }
}

proof fn lemma_ident_run_shift(p: Seq<char>, r: Seq<char>, k: int)
    requires
        0 <= k <= r.len(),
    ensures
        ident_run_end(p + r, p.len() + k) == p.len() + ident_run_end(r, k),
        k <= ident_run_end(r, k) <= r.len(),
    decreases r.len() - k,
{
    if k < r.len() {
        assert((p + r)[p.len() + k] == r[k]);
        lemma_ident_run_shift(p, r, k + 1);
    }
}

proof fn lemma_find_shift(p: Seq<char>, r: Seq<char>, c: char, k: int)
    requires
        0 <= k <= r.len(),
    ensures
        find_from(p + r, c, p.len() + k) == p.len() + find_from(r, c, k),
    decreases r.len() - k,
{
    if k < r.len() {
        assert((p + r)[p.len() + k] == r[k]);
        lemma_find_shift(p, r, c, k + 1);
    }
}

pub proof fn lemma_digits_value_shift(p: Seq<char>, r: Seq<char>, a: int, b: int)
    requires
        0 <= a,
        b <= r.len(),
    ensures
        digits_value(p + r, p.len() + a, p.len() + b) == digits_value(r, a, b),
        hex_digits_value(p + r, p.len() + a, p.len() + b) == hex_digits_value(r, a, b),
    decreases b - a,
{
    if a < b {
        assert((p + r)[p.len() + b - 1] == r[b - 1]);
        lemma_digits_value_shift(p, r, a, b - 1);
    }
}

proof fn lemma_scan_string_shift(p: Seq<char>, r: Seq<char>, j: int, acc: Seq<char>)
    requires
        0 <= j,
    ensures
        scan_string(p + r, p.len() + j, acc) == shifted_scan(scan_string(r, j, acc), p.len() as int),
    decreases r.len() - j,
{
    let s = p + r;
    let n = p.len() as int;
    if j < r.len() {
        assert(s[n + j] == r[j]);
        if j + 1 < r.len() {
            assert(s[n + j + 1] == r[j + 1]);
        }
        if r[j] == '"' {
        } else if r[j] == '\\' && j + 1 < r.len() {
            let e = r[j + 1];
            if e == '"' {
                lemma_scan_string_shift(p, r, j + 2, acc.push('"'));
            } else if e == '\\' {
                lemma_scan_string_shift(p, r, j + 2, acc.push('\\'));
            } else if e == 'n' {
                lemma_scan_string_shift(p, r, j + 2, acc.push('\n'));
            } else if e == 't' {
                lemma_scan_string_shift(p, r, j + 2, acc.push('\t'));
            }
        } else {
            lemma_scan_string_shift(p, r, j + 1, acc.push(r[j]));
        }
    }
}

proof fn lemma_subrange_shift(p: Seq<char>, r: Seq<char>, a: int, b: int)
    requires
        0 <= a <= b <= r.len(),
    ensures
        (p + r).subrange(p.len() + a, p.len() + b) == r.subrange(a, b),
{
    assert((p + r).subrange(p.len() + a, p.len() + b) =~= r.subrange(a, b));
}

/// One lexer step at `p.len() + k` in `p + r` is the step at `k` in `r`,
/// moved along by `p.len()`.
proof fn lemma_lex_step_shift(p: Seq<char>, r: Seq<char>, k: int)
    requires
        0 <= k < r.len(),
    ensures
        lex_step(p + r, p.len() + k) == shifted_step(lex_step(r, k), p.len() as int),
{
    let s = p + r;
    let n = p.len() as int;
    assert(s[n + k] == r[k]);
    if k + 1 < r.len() {
        assert(s[n + k + 1] == r[k + 1]);
    }
    lemma_subrange_shift(p, r, k, k + 1);
    let c = r[k];
    if c == ';' {
        lemma_find_shift(p, r, '\n', k);
    } else if c == '"' {
        lemma_scan_string_shift(p, r, k + 1, Seq::empty());
    } else if c == '-' && k + 1 < r.len() {
        lemma_digit_run_shift(p, r, k + 1);
        let end = digit_run_end(r, k + 1);
        lemma_digits_value_shift(p, r, k + 1, end);
        lemma_subrange_shift(p, r, k + 1, end);
    } else if crate::text::is_digit(c) {
        lemma_digit_run_shift(p, r, k);
        let end = digit_run_end(r, k);
        lemma_digits_value_shift(p, r, k, end);
        lemma_subrange_shift(p, r, k, end);
        if end + 1 < r.len() {
            assert(s[n + end] == r[end]);
            assert(s[n + end + 1] == r[end + 1]);
            lemma_digit_run_shift(p, r, end + 1);
            let den_end = digit_run_end(r, end + 1);
            lemma_digits_value_shift(p, r, end + 1, den_end);
            lemma_subrange_shift(p, r, end + 1, den_end);
        }
    } else if c == '#' {
        lemma_hex_run_shift(p, r, k + 1);
        let end = hex_run_end(r, k + 1);
        lemma_digits_value_shift(p, r, k + 1, end);
        lemma_subrange_shift(p, r, k + 1, end);
    } else {
        lemma_ident_run_shift(p, r, k);
        lemma_subrange_shift(p, r, k, ident_run_end(r, k));
    }
}

/// Lexing `p + r` from position `p.len() + k` gives what lexing `r` from `k`
/// gives: the tokens and the failure message of the lexer depend only on the
/// text from the position on.
pub proof fn lemma_lex_from_shift(p: Seq<char>, r: Seq<char>, k: int)
    requires
        0 <= k <= r.len(),
    ensures
        lex_from(p + r, p.len() + k) == lex_from(r, k),
    decreases r.len() - k,
{
    if k < r.len() {
        lemma_lex_step_shift(p, r, k);
        match lex_step(r, k) {
            LexStep::Skip(j) => {
                if k < j <= r.len() {
                    lemma_lex_from_shift(p, r, j);
                }
            },
            LexStep::Emit(_, j) => {
                if k < j <= r.len() {
                    lemma_lex_from_shift(p, r, j);
                }
            },
            LexStep::Fail(_) => {},
        }
    }
}

proof fn lemma_white_prefix(w: Seq<char>, rest: Seq<char>, i: int)
    requires
        0 <= i <= w.len(),
        forall|k: int| 0 <= k < w.len() ==> is_white_space(#[trigger] w[k]),
    ensures
        lex_from(w + rest, i) == lex_from(w + rest, w.len() as int),
    decreases w.len() - i,
{
    if i < w.len() {
        assert((w + rest)[i] == w[i]);
        lemma_white_prefix(w, rest, i + 1);
    }
}

/// Leading white space adds no token: text lexes as the text after it does,
/// tokens and failure alike.
pub proof fn law_leading_white_space_is_skipped(w: Seq<char>, rest: Seq<char>)
    requires
        forall|k: int| 0 <= k < w.len() ==> is_white_space(#[trigger] w[k]),
    ensures
        lex_from(w + rest, 0) == lex_from(rest, 0),
{
    lemma_white_prefix(w, rest, 0);
    lemma_lex_from_shift(w, rest, 0);
}

proof fn lemma_find_in_comment(c: Seq<char>, rest: Seq<char>, i: int)
    requires
        0 <= i <= c.len() + 1,
        forall|k: int| 0 <= k < c.len() ==> #[trigger] c[k] != '\n',
    ensures
        find_from(seq![';'] + c + seq!['\n'] + rest, '\n', i) == c.len() + 1,
    decreases c.len() + 1 - i,
{
    let s = seq![';'] + c + seq!['\n'] + rest;
    if i == c.len() + 1 {
        assert(s[i] == '\n');
    } else {
        if i > 0 {
            assert(s[i] == c[i - 1]);
        }
        lemma_find_in_comment(c, rest, i + 1);
    }
}

/// A `;` comment running to the end of its line adds no token: text lexes as
/// the text after the line does, tokens and failure alike.
pub proof fn law_comment_is_skipped(c: Seq<char>, rest: Seq<char>)
    requires
        forall|k: int| 0 <= k < c.len() ==> #[trigger] c[k] != '\n',
    ensures
        lex_from(seq![';'] + c + seq!['\n'] + rest, 0) == lex_from(rest, 0),
{
    let head = seq![';'] + c + seq!['\n'];
    let s = seq![';'] + c + seq!['\n'] + rest;
    assert(s =~= head + rest);
    let nl: int = c.len() as int + 1;
    lemma_find_in_comment(c, rest, 0);
    assert(s[0] == ';');
    assert(lex_step(s, 0) == LexStep::Skip(nl));
    assert(s[nl] == '\n');
    assert(lex_step(s, nl) == LexStep::Skip(nl + 1));
    assert(lex_from(s, 0) == lex_from(s, nl));
    assert(lex_from(s, nl) == lex_from(s, head.len() as int));
    lemma_lex_from_shift(head, rest, 0);
}

} // verus!
