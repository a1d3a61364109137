//! Laws of handler arithmetic: compound assignments compute in `i32` and
//! wrap, and division rounds toward zero.
use crate::decimal_laws::law_rendered_i32_parses_back;
use crate::experimental_ir_loader::parse_i32_spec;
use crate::handler::{binding_spec, compound_spec, eval_tracked_spec, interp_from, part_spec, EvalContext, EvalError, EvalErrorView};
use crate::ir::{HandlerExpr, InterpolationPart};
use crate::ir::CompoundOp;
use vstd::prelude::*;

verus! {

proof fn lemma_in_range_cast(v: int)
    requires
        i32::MIN <= v <= i32::MAX,
    ensures
        v as i32 == v,
{
}

proof fn lemma_crop(p: int)
    ensures
        (vstd::wrapping::i32_specs::signed_crop(p) - p) % 0x1_0000_0000 == 0,
{
    let m = p % 0x1_0000_0000;
    assert(0 <= m < 0x1_0000_0000);
    assert((m - p) % 0x1_0000_0000 == 0) by (nonlinear_arith)
        requires
            m == p % 0x1_0000_0000,
    ;
    if m > i32::MAX {
        lemma_in_range_cast(m - 0x1_0000_0000);
        assert((m - 0x1_0000_0000 - p) % 0x1_0000_0000 == 0) by (nonlinear_arith)
            requires
                (m - p) % 0x1_0000_0000 == 0,
        ;
    } else {
        lemma_in_range_cast(m);
    }
}

/// `+=`, `-=` and `*=` give the exact sum, difference or product reduced
/// into the `i32` range (equal to it modulo 2^32, so unchanged when it fits);
/// `/=` by zero is a division-by-zero error; any other division gives the
/// quotient rounded toward zero, whose remainder is smaller than the divisor
/// and has the dividend's sign, except `i32::MIN / -1`, which wraps to
/// `i32::MIN`.
pub proof fn law_compound_arithmetic_wraps(current: i32, rhs: i32)
    ensures
        compound_spec(CompoundOp::Add, current, rhs) matches Ok(x) && (x - (current + rhs)) % 0x1_0000_0000 == 0,
        compound_spec(CompoundOp::Sub, current, rhs) matches Ok(x) && (x - (current - rhs)) % 0x1_0000_0000 == 0,
        compound_spec(CompoundOp::Mul, current, rhs) matches Ok(x) && (x - current * rhs) % 0x1_0000_0000 == 0,
        i32::MIN <= current + rhs <= i32::MAX ==> compound_spec(CompoundOp::Add, current, rhs) == Ok::<i32, EvalError>(
            (current + rhs) as i32,
        ),
        rhs == 0 ==> compound_spec(CompoundOp::Div, current, rhs) == Err::<i32, EvalError>(EvalError::DivisionByZero),
        current == i32::MIN && rhs == -1 ==> compound_spec(CompoundOp::Div, current, rhs) == Ok::<i32, EvalError>(
            i32::MIN,
        ),
        rhs != 0 && !(current == i32::MIN && rhs == -1) ==> (compound_spec(CompoundOp::Div, current, rhs) matches Ok(
            q,
        ) && {
            let rem = current - q * rhs;
            &&& (if rem < 0 { -rem } else { rem }) < (if rhs < 0 { -rhs } else { rhs as int })
            &&& (rem == 0 || (rem < 0) == (current < 0))
        }),
{
    let a = current as int;
    let b = rhs as int;
    let s = a + b;
    if s > i32::MAX {
        lemma_in_range_cast(s - 0x1_0000_0000);
    } else if s < i32::MIN {
        lemma_in_range_cast(s + 0x1_0000_0000);
    } else {
        lemma_in_range_cast(s);
    }
    let d = a - b;
    if d > i32::MAX {
        lemma_in_range_cast(d - 0x1_0000_0000);
    } else if d < i32::MIN {
        lemma_in_range_cast(d + 0x1_0000_0000);
    } else {
        lemma_in_range_cast(d);
    }
    lemma_crop(a * b);
    if b != 0 && !(current == i32::MIN && rhs == -1) {
        let aa = if a < 0 { -a } else { a };
        let ab = if b < 0 { -b } else { b };
        let q0 = aa / ab;
        let m = aa % ab;
        assert(aa == q0 * ab + m && 0 <= m < ab) by (nonlinear_arith)
            requires
                ab > 0,
                aa >= 0,
                q0 == aa / ab,
                m == aa % ab,
        ;
        assert(0 <= q0 <= aa) by (nonlinear_arith)
            requires
                ab >= 1,
                aa >= 0,
                q0 == aa / ab,
        ;
        let q = crate::handler::int_trunc_div(a, b);
        assert(q == if (a < 0) != (b < 0) { -q0 } else { q0 });
        assert(q <= i32::MAX) by {
            if aa > i32::MAX {
                assert(a == i32::MIN);
                assert(b != -1);
                if ab == 1 {
                    assert(b == 1);
                    assert(q == -q0);
                } else {
                    assert(q0 * ab <= aa);
                    assert(q0 * 2 <= q0 * ab) by (nonlinear_arith)
                        requires
                            ab >= 2,
                            q0 >= 0,
                    ;
                }
            }
        }
        lemma_in_range_cast(q);
        let rem = a - q * b;
        assert(q * b == if a < 0 { -(q0 * ab) } else { q0 * ab }) by (nonlinear_arith)
            requires
                q == (if (a < 0) != (b < 0) {
                    -q0
                } else {
                    q0
                }),
                ab == (if b < 0 {
                    -b
                } else {
                    b
                }),
        ;
        assert(rem == if a < 0 { -m } else { m });
    }
}

/// In a text binding an integer value is written as text that `str::parse`
/// reads back as that value, alone or as an interpolation part after a
/// literal, which stands in front of it unchanged.
pub proof fn law_integer_text_parses_back<C: EvalContext>(e: HandlerExpr, c: C, lit: String, n: i32)
    requires
        eval_tracked_spec(e, c) == Ok::<i32, EvalErrorView>(n),
        !(e is StrPropRead),
    ensures
        part_spec(e, c) matches Some(Ok(t)) && parse_i32_spec(t) == Some(n),
        !(e is StrLit || e is Interpolation) ==> (binding_spec(e, c) matches Some(Ok(t)) && parse_i32_spec(t) == Some(
            n,
        )),
        interp_from(seq![InterpolationPart::Literal(lit), InterpolationPart::Expr(e)], 0, c) matches Some(Ok(t)) && t.subrange(
            0,
            lit@.len() as int,
        ) == lit@ && parse_i32_spec(t.subrange(lit@.len() as int, t.len() as int)) == Some(n),
{
    law_rendered_i32_parses_back(n);
    let parts = seq![InterpolationPart::Literal(lit), InterpolationPart::Expr(e)];
    let d = crate::decimal::signed_decimal(n as int);
    assert(interp_from(parts, 2, c) == Some(Ok::<Seq<char>, EvalErrorView>(Seq::<char>::empty())));
    assert(d + Seq::<char>::empty() =~= d);
    assert(interp_from(parts, 1, c) == Some(Ok::<Seq<char>, EvalErrorView>(d)));
    let t = lit@ + d;
    assert(interp_from(parts, 0, c) == Some(Ok::<Seq<char>, EvalErrorView>(t)));
    assert(t.subrange(0, lit@.len() as int) =~= lit@);
    assert(t.subrange(lit@.len() as int, t.len() as int) =~= d);
}

} // verus!
