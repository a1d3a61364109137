//! Laws of decimal rendering: the text reads back as the number it renders.
use crate::decimal::{decimal, digit_char, signed_decimal};
use crate::experimental_ir_loader::parse_i32_spec;
use crate::ir_lexer::digits_value;
use crate::lex_laws::lemma_digits_value_shift;
use crate::text::is_digit;
use vstd::prelude::*;

verus! {

proof fn lemma_digit_char(d: nat)
    requires
        d < 10,
    ensures
        is_digit(digit_char(d)),
        digit_char(d) as int - '0' as int == d,
{
}

/// A digit run's value depends only on the characters it spans.
proof fn lemma_digits_value_prefix(s: Seq<char>, t: Seq<char>, a: int, b: int)
    requires
        0 <= a,
        b <= s.len(),
    ensures
        digits_value(s + t, a, b) == digits_value(s, a, b),
    decreases b - a,
{
    if a < b {
        assert((s + t)[b - 1] == s[b - 1]);
        lemma_digits_value_prefix(s, t, a, b - 1);
    }
}

/// The decimal digits of `n` are ASCII digits, read back as `n`, and start
/// with `0` only when `n` is 0.
pub proof fn law_decimal_reads_back(n: nat)
    ensures
        decimal(n).len() >= 1,
        forall|i: int| 0 <= i < decimal(n).len() ==> is_digit(#[trigger] decimal(n)[i]),
        digits_value(decimal(n), 0, decimal(n).len() as int) == n,
        n > 0 ==> decimal(n)[0] != '0',
        n >= 10 ==> decimal(n).len() >= 2,
    decreases n,
{
    let s = decimal(n);
    if n < 10 {
        lemma_digit_char(n);
        assert(s == seq![digit_char(n)]);
        assert(digits_value(s, 0, 0) == 0);
    } else {
        let m = n / 10;
        let d = (n % 10) as nat;
        law_decimal_reads_back(m);
        lemma_digit_char(d);
        let p = decimal(m);
        assert(s == p.push(digit_char(d)));
        assert(s == p + seq![digit_char(d)]);
        lemma_digits_value_prefix(p, seq![digit_char(d)], 0, p.len() as int);
        assert(s[s.len() - 1] == digit_char(d));
        assert(digits_value(s, 0, s.len() as int) == digits_value(s, 0, p.len() as int) * 10 + d);
        assert(m * 10 + d == n);
        assert forall|i: int| 0 <= i < s.len() implies is_digit(#[trigger] s[i]) by {
            if i < p.len() {
                assert(s[i] == p[i]);
            }
        }
        assert(s[0] == p[0]);
    }
}

/// The rendering of a signed integer reads back as it: a negative value is
/// a `-` followed by the digits of its magnitude, any other value its digits
/// alone, with no leading `0` but for 0 itself.
pub proof fn law_signed_decimal_reads_back(v: int)
    ensures
        ({
            let s = signed_decimal(v);
            let start: int = if v < 0 { 1 } else { 0 };
            &&& s.len() > start
            &&& (v < 0 <==> s[0] == '-')
            &&& forall|i: int| start <= i < s.len() ==> is_digit(#[trigger] s[i])
            &&& v < 0 ==> digits_value(s, 1, s.len() as int) == -v
            &&& v >= 0 ==> digits_value(s, 0, s.len() as int) == v
            &&& (s.len() == start + 1 || s[start] != '0')
        }),
{
    if v < 0 {
        let m = (-v) as nat;
        law_decimal_reads_back(m);
        let d = decimal(m);
        let s = signed_decimal(v);
        assert(s == seq!['-'] + d);
        lemma_digits_value_shift(seq!['-'], d, 0, d.len() as int);
        assert forall|i: int| 1 <= i < s.len() implies is_digit(#[trigger] s[i]) by {
            assert(s[i] == d[i - 1]);
        }
        assert(s[1] == d[0]);
    } else {
        law_decimal_reads_back(v as nat);
        let d = decimal(v as nat);
        assert(is_digit(d[0]));
    }
}

/// Parsing the rendering of an `i32` as an `i32`, as `str::parse` does,
/// gives the value back.
pub proof fn law_rendered_i32_parses_back(v: i32)
    ensures
        parse_i32_spec(signed_decimal(v as int)) == Some(v),
{
    law_signed_decimal_reads_back(v as int);
    let s = signed_decimal(v as int);
    if v >= 0 {
        assert(is_digit(s[0]));
    }
}

} // verus!
