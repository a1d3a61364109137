//! Inline handler evaluator: evaluates handler bodies (integer context, with
//! writes) and binding expressions (read-only, string, integer or bool
//! context) against a property context.
use crate::decimal::{decimal, i32_to_string, signed_decimal, usize_to_string};
use crate::ir::{CompoundOp, HandlerExpr, InterpolationPart};
use vstd::prelude::*;

verus! {

broadcast use vstd::string::group_string_axioms;

/// Errors that the evaluator can produce.
#[derive(Debug, Clone, PartialEq)]
pub enum EvalError {
    UnknownProperty(String),
    TypeMismatch { path: String },
    DivisionByZero,
    /// A write (`Assign` / `CompoundAssign`) in a read-only binding context.
    WriteInBindingContext { path: String },
}

/// Property read / write access for one component. What each method returns
/// is the implementor's to decide; the defaults report the property unknown.
///
/// The integer accessors are described by three spec functions that an
/// implementation verified with this library defines: what a read of a path
/// answers, what a write answers, and the state a write leaves. Their
/// defaults leave them open. The other accessors have default bodies that a
/// user may keep, so no model is given for them.
pub trait EvalContext: Sized {
    /// What `get_i32` and `read_i32_tracked` answer for `path` in this state.
    open spec fn spec_get_i32(&self, path: Seq<char>) -> Result<i32, EvalError> {
        arbitrary()
    }

    /// What `set_i32` answers when writing `value` to `path`.
    open spec fn spec_set_i32(&self, path: Seq<char>, value: i32) -> Result<(), EvalError> {
        arbitrary()
    }

    /// The state that writing `value` to `path` with `set_i32` leaves.
    open spec fn spec_after_set_i32(&self, path: Seq<char>, value: i32) -> Self {
        arbitrary()
    }

    /// What a context that reads strings answers for `path`.
    open spec fn spec_get_string(&self, path: Seq<char>) -> Result<String, EvalError> {
        arbitrary()
    }

    /// What a context that reads bools answers for `path`.
    open spec fn spec_get_bool(&self, path: Seq<char>) -> Result<bool, EvalError> {
        arbitrary()
    }

    /// What a context that reads loop items as bools answers for `binder`.
    open spec fn spec_item_bool(&self, binder: Seq<char>) -> Result<Option<bool>, EvalError> {
        arbitrary()
    }

    /// What a context that writes bools answers when writing `value` to `path`.
    open spec fn spec_set_bool(&self, path: Seq<char>, value: bool) -> Result<(), EvalError> {
        arbitrary()
    }

    /// The state such a bool write leaves.
    open spec fn spec_after_set_bool(&self, path: Seq<char>, value: bool) -> Self {
        arbitrary()
    }

    /// Read an integer property by dot-separated path (untracked).
    fn get_i32(&self, path: &str) -> (r: Result<i32, EvalError>)
        ensures
            r == self.spec_get_i32(path@),
    ;

    /// Read a string property by dot-separated path (untracked).
    fn get_string(&self, path: &str) -> (r: Result<String, EvalError>)
        ensures
            r == self.spec_get_string(path@) || is_unknown(r, path@),
        default_ensures
            is_unknown(r, path@),
    {
        Err(EvalError::UnknownProperty(path.to_string()))
    }

    /// Write an integer property by dot-separated path.
    fn set_i32(&mut self, path: &str, value: i32) -> (r: Result<(), EvalError>)
        ensures
            r == old(self).spec_set_i32(path@, value),
            *final(self) == old(self).spec_after_set_i32(path@, value),
    ;

    /// Read an integer property, reporting the read to the active reactive
    /// scope if any; it answers what the untracked read answers. Defaults to
    /// the untracked read.
    fn read_i32_tracked(&self, path: &str) -> (r: Result<i32, EvalError>)
        ensures
            r == self.spec_get_i32(path@),
    {
        self.get_i32(path)
    }

    /// Read a string property, reporting the read; it answers what the
    /// untracked read may answer. Defaults to the untracked read.
    fn read_string_tracked(&self, path: &str) -> (r: Result<String, EvalError>)
        ensures
            r == self.spec_get_string(path@) || is_unknown(r, path@),
    {
        self.get_string(path)
    }

    /// Read a bool property by dot-separated path (untracked).
    fn get_bool(&self, path: &str) -> (r: Result<bool, EvalError>)
        ensures
            r == self.spec_get_bool(path@) || is_unknown(r, path@),
        default_ensures
            is_unknown(r, path@),
    {
        Err(EvalError::UnknownProperty(path.to_string()))
    }

    /// Read a bool property, reporting the read; it answers what the
    /// untracked read may answer. Defaults to the untracked read.
    fn read_bool_tracked(&self, path: &str) -> (r: Result<bool, EvalError>)
        ensures
            r == self.spec_get_bool(path@) || is_unknown(r, path@),
    {
        self.get_bool(path)
    }

    /// Read the current `for` item as an integer; `Ok(None)` when the item
    /// position is no longer live.
    fn read_item_i32_tracked(&self, binder: &str) -> (r: Result<Option<i32>, EvalError>)
        default_ensures
            r matches Err(EvalError::UnknownProperty(p)) && p@ == binder@,
    {
        Err(EvalError::UnknownProperty(binder.to_string()))
    }

    /// Read the current `for` item as a string.
    fn read_item_string_tracked(&self, binder: &str) -> (r: Result<Option<String>, EvalError>)
        default_ensures
            r matches Err(EvalError::UnknownProperty(p)) && p@ == binder@,
    {
        Err(EvalError::UnknownProperty(binder.to_string()))
    }

    /// Read the current `for` item as a bool.
    fn read_item_bool_tracked(&self, binder: &str) -> (r: Result<Option<bool>, EvalError>)
        ensures
            r == self.spec_item_bool(binder@) || is_unknown(r, binder@),
        default_ensures
            is_unknown(r, binder@),
    {
        Err(EvalError::UnknownProperty(binder.to_string()))
    }

    /// Read the current `for` item for a string-like binding context.
    fn read_item_binding_tracked(&self, binder: &str) -> Result<Option<String>, EvalError> {
        self.read_item_string_tracked(binder)
    }

    /// Read the current `for` index binder as an integer.
    fn read_index_tracked(&self, binder: &str) -> (r: Result<Option<i32>, EvalError>)
        default_ensures
            r matches Err(EvalError::UnknownProperty(p)) && p@ == binder@,
    {
        Err(EvalError::UnknownProperty(binder.to_string()))
    }

    /// Write a bool property by dot-separated path.
    fn set_bool(&mut self, path: &str, value: bool) -> (r: Result<(), EvalError>)
        ensures
            (r == old(self).spec_set_bool(path@, value) && *final(self) == old(self).spec_after_set_bool(
                path@,
                value,
            )) || (is_unknown(r, path@) && *final(self) == *old(self)),
        default_ensures
            is_unknown(r, path@),
            *final(self) == *old(self),
    {
        Err(EvalError::UnknownProperty(path.to_string()))
    }
}

/// `r` reports `name` as an unknown property.
pub open spec fn is_unknown<T>(r: Result<T, EvalError>, name: Seq<char>) -> bool {
    r matches Err(EvalError::UnknownProperty(p)) && p@ == name
}

/// The message a handler diagnostic carries for each error.
pub open spec fn eval_error_message(e: EvalError) -> Seq<char> {
    match e {
        EvalError::UnknownProperty(p) => "unknown property: "@ + p@,
        EvalError::TypeMismatch { path } => "type mismatch at: "@ + path@,
        EvalError::DivisionByZero => "division by zero"@,
        EvalError::WriteInBindingContext { path } => "write expression not allowed in binding context: "@ + path@,
    }
}

impl EvalError {
    /// The human-readable message for this error.
    pub fn message(&self) -> (s: String)
        ensures
            s@ == eval_error_message(*self),
    {
        proof {
            reveal_strlit("unknown property: ");
            reveal_strlit("type mismatch at: ");
            reveal_strlit("division by zero");
            reveal_strlit("write expression not allowed in binding context: ");
        }
        match self {
            EvalError::UnknownProperty(p) => {
                let mut s = String::from_str("unknown property: ");
                s.append(p.as_str());
                s
            },
            EvalError::TypeMismatch { path } => {
                let mut s = String::from_str("type mismatch at: ");
                s.append(path.as_str());
                s
            },
            EvalError::DivisionByZero => String::from_str("division by zero"),
            EvalError::WriteInBindingContext { path } => {
                let mut s = String::from_str("write expression not allowed in binding context: ");
                s.append(path.as_str());
                s
            },
        }
    }
}

/// The one-line diagnostic for a handler that failed at `location`.
pub open spec fn handler_error_text(location: Seq<char>, e: EvalError) -> Seq<char> {
    "wasamo: handler error in "@ + location + ": "@ + eval_error_message(e)
}

/// The diagnostic line printed when a handler fails.
pub fn handler_error_line(location: &str, e: &EvalError) -> (s: String)
    ensures
        s@ == handler_error_text(location@, *e),
{
    proof {
        reveal_strlit("wasamo: handler error in ");
        reveal_strlit(": ");
    }
    let mut s = String::from_str("wasamo: handler error in ");
    s.append(location);
    s.append(": ");
    let m = e.message();
    s.append(m.as_str());
    s
}

/// The text of the type error for a non-integer expression in a handler.
pub open spec fn non_integer_in_handler() -> Seq<char> {
    "<non-integer expression in integer context>"@
}

/// The text of the type error for a bool expression in integer context.
pub open spec fn bool_in_integer() -> Seq<char> {
    "<bool expression in integer context>"@
}

/// The text of the type error for a string expression in integer binding context.
pub open spec fn string_in_integer() -> Seq<char> {
    "<string expression in integer context>"@
}

/// The text of the type error for a non-bool expression in bool binding context.
pub open spec fn non_bool_in_bool() -> Seq<char> {
    "<non-bool expression in bool binding context>"@
}

/// Whether `r` is the type-mismatch error carrying `msg`.
pub open spec fn is_type_mismatch<T>(r: Result<T, EvalError>, msg: Seq<char>) -> bool {
    r matches Err(EvalError::TypeMismatch { path }) && path@ == msg
}

/// Expressions that only have meaning as strings, lists or loop reads: a
/// handler rejects them in integer context.
pub open spec fn is_non_integer_form(e: HandlerExpr) -> bool {
    ||| e is StrLit
    ||| e is StrPropRead
    ||| e is ListPropRead
    ||| e is ItemRead
    ||| e is IndexRead
    ||| e is ListAppend
    ||| e is ListDropLast
    ||| e is ListLit
    ||| e is Interpolation
}

/// `current op rhs` with wrapping arithmetic; division by zero is an error.
pub open spec fn compound_spec(op: CompoundOp, current: i32, rhs: i32) -> Result<i32, EvalError> {
    match op {
        CompoundOp::Add => Ok(vstd::wrapping::i32_specs::wrapping_add(current, rhs)),
        CompoundOp::Sub => Ok(vstd::wrapping::i32_specs::wrapping_sub(current, rhs)),
        CompoundOp::Mul => Ok(vstd::wrapping::i32_specs::wrapping_mul(current, rhs)),
        CompoundOp::Div => if rhs == 0 {
            Err(EvalError::DivisionByZero)
        } else if current == i32::MIN && rhs == -1 {
            Ok(i32::MIN)
        } else {
            Ok(int_trunc_div(current as int, rhs as int) as i32)
        },
    }
}

/// The content of an [`EvalError`].
pub enum EvalErrorView {
    UnknownProperty(Seq<char>),
    TypeMismatch(Seq<char>),
    DivisionByZero,
    WriteInBindingContext(Seq<char>),
}

/// The content of an error.
pub open spec fn error_view(e: EvalError) -> EvalErrorView {
    match e {
        EvalError::UnknownProperty(p) => EvalErrorView::UnknownProperty(p@),
        EvalError::TypeMismatch { path } => EvalErrorView::TypeMismatch(path@),
        EvalError::DivisionByZero => EvalErrorView::DivisionByZero,
        EvalError::WriteInBindingContext { path } => EvalErrorView::WriteInBindingContext(path@),
    }
}

/// The content of a result.
pub open spec fn result_view<T>(r: Result<T, EvalError>) -> Result<T, EvalErrorView> {
    match r {
        Ok(v) => Ok(v),
        Err(e) => Err(error_view(e)),
    }
}

/// Writing the value `v` of an assignment to `lhs` in state `c`: the
/// assignment yields `v` unless the write fails.
pub open spec fn write_spec<C: EvalContext>(c: C, lhs: Seq<char>, v: i32) -> (Result<i32, EvalErrorView>, C) {
    (
        match c.spec_set_i32(lhs, v) {
            Ok(_) => Ok(v),
            Err(x) => Err(error_view(x)),
        },
        c.spec_after_set_i32(lhs, v),
    )
}

/// A bool write of `v` to `lhs` from state `c`, with `choices` saying, in
/// order, which bool accessor calls the context declines (a context that
/// keeps the default accessors declines every one). A declined write reports
/// `lhs` unknown and changes nothing; otherwise the write's own answer and
/// state stand, and the assignment yields 0. `None` when no choice is left.
pub open spec fn bool_write_with<C: EvalContext>(c: C, lhs: Seq<char>, v: bool, choices: Seq<bool>) -> Option<
    ((Result<i32, EvalErrorView>, C), Seq<bool>),
> {
    if choices.len() == 0 {
        None
    } else if choices[0] {
        Some(((Err(EvalErrorView::UnknownProperty(lhs)), c), choices.drop_first()))
    } else {
        Some(
            (
                (
                    match c.spec_set_bool(lhs, v) {
                        Ok(_) => Ok(0i32),
                        Err(x) => Err(error_view(x)),
                    },
                    c.spec_after_set_bool(lhs, v),
                ),
                choices.drop_first(),
            ),
        )
    }
}

/// What a handler expression evaluates to from state `c` when the bool
/// accessor calls it makes are declined as `choices` says, with the choices
/// left over; `None` when the choices run out. Every form evaluates as
/// `eval_spec` describes; a bool assignment reads its right side (a declined
/// read reports the path unknown) and writes as `bool_write_with` says.
pub open spec fn eval_with<C: EvalContext>(e: HandlerExpr, c: C, choices: Seq<bool>) -> Option<
    ((Result<i32, EvalErrorView>, C), Seq<bool>),
>
    decreases e, 1int, 0int,
{
    match e {
        HandlerExpr::Assign { lhs, rhs } => match *rhs {
            HandlerExpr::BoolLit(b) => bool_write_with(c, lhs@, b, choices),
            HandlerExpr::BoolPropRead { path } => if choices.len() == 0 {
                None
            } else if choices[0] {
                Some(((Err(EvalErrorView::UnknownProperty(path@)), c), choices.drop_first()))
            } else {
                match c.spec_get_bool(path@) {
                    Ok(v) => bool_write_with(c, lhs@, v, choices.drop_first()),
                    Err(x) => Some(((Err(error_view(x)), c), choices.drop_first())),
                }
            },
            _ => match eval_with(*rhs, c, choices) {
                Some((mid, rest)) => Some(
                    (
                        match mid.0 {
                            Ok(v) => write_spec(mid.1, lhs@, v),
                            Err(_) => mid,
                        },
                        rest,
                    ),
                ),
                None => None,
            },
        },
        HandlerExpr::CompoundAssign { lhs, op, rhs } => match c.spec_get_i32(lhs@) {
            Err(x) => Some(((Err(error_view(x)), c), choices)),
            Ok(current) => match eval_with(*rhs, c, choices) {
                Some((mid, rest)) => Some(
                    (
                        match mid.0 {
                            Ok(v) => match compound_spec(op, current, v) {
                                Ok(result) => write_spec(mid.1, lhs@, result),
                                Err(x) => (Err(error_view(x)), mid.1),
                            },
                            Err(_) => mid,
                        },
                        rest,
                    ),
                ),
                None => None,
            },
        },
        HandlerExpr::Block(_) => block_with(e, 0, 0, c, choices),
        _ => match eval_spec(e, c) {
            Some(o) => Some((o, choices)),
            None => None,
        },
    }
}

/// The statements of block `e` from the `i`-th on, as `eval_with` runs them.
pub open spec fn block_with<C: EvalContext>(e: HandlerExpr, i: int, last: i32, c: C, choices: Seq<bool>) -> Option<
    ((Result<i32, EvalErrorView>, C), Seq<bool>),
>
    decreases e, 0int, (match e {
        HandlerExpr::Block(stmts) => stmts@.len() - i,
        _ => 0,
    }),
{
    match e {
        HandlerExpr::Block(stmts) => if i < 0 || i >= stmts@.len() {
            Some(((Ok(last), c), choices))
        } else {
            proof {
                assert(decreases_to!(e => stmts@[i]));
            }
            match eval_with(stmts@[i], c, choices) {
                Some((mid, rest)) => match mid.0 {
                    Ok(v) => block_with(e, i + 1, v, mid.1, rest),
                    Err(_) => Some((mid, rest)),
                },
                None => None,
            }
        },
        _ => None,
    }
}

/// The evaluation reads its choices from the front: more choices after
/// them are left over unread.
pub proof fn lemma_eval_with_extends<C: EvalContext>(e: HandlerExpr, c: C, choices: Seq<bool>, more: Seq<bool>)
    ensures
        eval_with(e, c, choices) matches Some((o, rest)) ==> eval_with(e, c, choices + more) == Some((o, rest + more)),
    decreases e, 1int, 0int,
{
    if choices.len() > 0 {
        assert((choices + more)[0] == choices[0]);
        assert((choices + more).drop_first() =~= choices.drop_first() + more);
        if choices.len() > 1 {
            assert((choices + more).drop_first()[0] == choices.drop_first()[0]);
            assert((choices + more).drop_first().drop_first() =~= choices.drop_first().drop_first() + more);
        }
    }
    match e {
        HandlerExpr::Assign { lhs, rhs } => match *rhs {
            HandlerExpr::BoolLit(_) => {},
            HandlerExpr::BoolPropRead { .. } => {},
            _ => lemma_eval_with_extends(*rhs, c, choices, more),
        },
        HandlerExpr::CompoundAssign { rhs, .. } => lemma_eval_with_extends(*rhs, c, choices, more),
        HandlerExpr::Block(_) => lemma_block_with_extends(e, 0, 0, c, choices, more),
        _ => {},
    }
}

pub proof fn lemma_block_with_extends<C: EvalContext>(
    e: HandlerExpr,
    i: int,
    last: i32,
    c: C,
    choices: Seq<bool>,
    more: Seq<bool>,
)
    ensures
        block_with(e, i, last, c, choices) matches Some((o, rest)) ==> block_with(e, i, last, c, choices + more)
            == Some((o, rest + more)),
    decreases e, 0int, (match e {
        HandlerExpr::Block(stmts) => stmts@.len() - i,
        _ => 0,
    }),
{
    match e {
        HandlerExpr::Block(stmts) => if 0 <= i < stmts@.len() {
            assert(decreases_to!(e => stmts@[i]));
            lemma_eval_with_extends(stmts@[i], c, choices, more);
            match eval_with(stmts@[i], c, choices) {
                Some((mid, rest)) => match mid.0 {
                    Ok(v) => lemma_block_with_extends(e, i + 1, v, mid.1, rest, more),
                    Err(_) => {},
                },
                None => {},
            }
        },
        _ => {},
    }
}

/// What a handler expression evaluates to in state `c`, and the state it
/// leaves. `None` where the outcome goes through the bool accessors, which
/// have no model.
///
/// A literal is itself; a read is what the context answers for its path;
/// an assignment evaluates its right side and writes it; a compound
/// assignment reads the target, evaluates the right side, combines them by
/// `compound_spec` and writes the result back; a block runs its statements
/// in order and yields the last value (0 when empty). The first error stops
/// the evaluation, and nothing after it is read or written.
pub open spec fn eval_spec<C: EvalContext>(e: HandlerExpr, c: C) -> Option<(Result<i32, EvalErrorView>, C)>
    decreases e, 1int, 0int,
{
    match e {
        HandlerExpr::IntLit(v) => Some((Ok(v), c)),
        HandlerExpr::BoolLit(_) | HandlerExpr::BoolPropRead { .. } => Some(
            (Err(EvalErrorView::TypeMismatch(bool_in_integer())), c),
        ),
        HandlerExpr::PropRead { path } => Some((result_view(c.spec_get_i32(path@)), c)),
        HandlerExpr::Assign { lhs, rhs } => match *rhs {
            HandlerExpr::BoolLit(_) | HandlerExpr::BoolPropRead { .. } => None,
            _ => match eval_spec(*rhs, c) {
                Some((Ok(v), c1)) => Some(write_spec(c1, lhs@, v)),
                other => other,
            },
        },
        HandlerExpr::CompoundAssign { lhs, op, rhs } => match c.spec_get_i32(lhs@) {
            Err(x) => Some((Err(error_view(x)), c)),
            Ok(current) => match eval_spec(*rhs, c) {
                Some((Ok(v), c1)) => match compound_spec(op, current, v) {
                    Ok(result) => Some(write_spec(c1, lhs@, result)),
                    Err(x) => Some((Err(error_view(x)), c1)),
                },
                other => other,
            },
        },
        HandlerExpr::Block(_) => eval_block_spec(e, 0, 0, c),
        _ => Some((Err(EvalErrorView::TypeMismatch(non_integer_in_handler())), c)),
    }
}

/// The statements of block `e` from the `i`-th on, in state `c`, after the
/// statements before it yielded `last`.
pub open spec fn eval_block_spec<C: EvalContext>(e: HandlerExpr, i: int, last: i32, c: C) -> Option<
    (Result<i32, EvalErrorView>, C),
>
    decreases e, 0int, (match e {
        HandlerExpr::Block(stmts) => stmts@.len() - i,
        _ => 0,
    }),
{
    match e {
        HandlerExpr::Block(stmts) => if i < 0 || i >= stmts@.len() {
            Some((Ok(last), c))
        } else {
            proof {
                assert(decreases_to!(e => stmts@[i]));
            }
            match eval_spec(stmts@[i], c) {
                Some((Ok(v), c1)) => eval_block_spec(e, i + 1, v, c1),
                other => other,
            }
        },
        _ => None,
    }
}

/// Integer division rounding toward zero.
pub open spec fn int_trunc_div(a: int, b: int) -> int {
    let q = abs_int(a) / abs_int(b);
    if (a < 0) != (b < 0) {
        -q
    } else {
        q
    }
}

pub open spec fn abs_int(a: int) -> int {
    if a < 0 {
        -a
    } else {
        a
    }
}

/// Applies a compound-assignment operator to the current value and the
/// right-hand side, as the handler writes it back.
pub fn apply_compound(op: CompoundOp, current: i32, rhs: i32) -> (r: Result<i32, EvalError>)
    ensures
        r == compound_spec(op, current, rhs),
{
    match op {
        CompoundOp::Add => Ok(current.wrapping_add(rhs)),
        CompoundOp::Sub => Ok(current.wrapping_sub(rhs)),
        CompoundOp::Mul => Ok(current.wrapping_mul(rhs)),
        CompoundOp::Div => {
            if rhs == 0 {
                return Err(EvalError::DivisionByZero);
            }
            if current == i32::MIN && rhs == -1 {
                return Ok(i32::MIN);
            }
            let ua: u64 = if current < 0 {
                (-(current as i64)) as u64
            } else {
                current as u64
            };
            let ub: u64 = if rhs < 0 {
                (-(rhs as i64)) as u64
            } else {
                rhs as u64
            };
            let uq: u64 = ua / ub;
            assert(uq <= ua) by (nonlinear_arith)
                requires
                    uq == ua / ub,
                    ub > 0,
            ;
            assert(ua <= 0x8000_0000);
            assert(uq <= 0x8000_0000);
            if uq == 0x8000_0000 {
                assert(ub == 1) by (nonlinear_arith)
                    requires
                        uq == ua / ub,
                        ub > 0,
                        ua <= 0x8000_0000,
                        uq == 0x8000_0000,
                ;
                assert((current < 0) != (rhs < 0));
            }
            let q: i64 = if (current < 0) != (rhs < 0) {
                -(uq as i64)
            } else {
                uq as i64
            };
            assert(q as int == int_trunc_div(current as int, rhs as int));
            Ok(q as i32)
        },
    }
}

/// Evaluate a handler expression against a mutable context.
///
/// Arithmetic wraps on overflow; division by zero is an error. String,
/// list and loop forms, and bare bool forms, are type errors in this
/// integer context. A bool-typed assignment (`rhs` a bool literal or a bool
/// read) writes through `set_bool` and yields 0.
#[verifier::loop_isolation(false)]
pub fn evaluate<C: EvalContext>(expr: &HandlerExpr, ctx: &mut C) -> (r: Result<i32, EvalError>)
    ensures
        exists|choices: Seq<bool>|
            #[trigger] eval_with(*expr, *old(ctx), choices) == Some(
                ((result_view(r), *final(ctx)), Seq::<bool>::empty()),
            ),
        eval_spec(*expr, *old(ctx)) matches Some((res, c)) ==> result_view(r) == res && *final(ctx) == c,
        is_non_integer_form(*expr) ==> is_type_mismatch(r, non_integer_in_handler()),
        (expr is BoolLit || expr is BoolPropRead) ==> is_type_mismatch(r, bool_in_integer()),
        match *expr {
            HandlerExpr::IntLit(v) => r == Ok::<i32, EvalError>(v),
            HandlerExpr::Block(stmts) => stmts@.len() == 0 ==> r == Ok::<i32, EvalError>(0),
            _ => true,
        },
    decreases expr,
{
    let ghost none = Seq::<bool>::empty();
    match expr {
        HandlerExpr::IntLit(v) => {
            assert(eval_with(*expr, *ctx, none) == Some(((Ok::<i32, EvalErrorView>(*v), *ctx), none)));
            Ok(*v)
        },
        HandlerExpr::StrLit(_)
        | HandlerExpr::StrPropRead { .. }
        | HandlerExpr::ListPropRead { .. }
        | HandlerExpr::ItemRead { .. }
        | HandlerExpr::IndexRead { .. }
        | HandlerExpr::ListAppend { .. }
        | HandlerExpr::ListDropLast { .. }
        | HandlerExpr::ListLit(_)
        | HandlerExpr::Interpolation(_) => {
            let r = Err(
                EvalError::TypeMismatch { path: String::from_str("<non-integer expression in integer context>") },
            );
            assert(eval_with(*expr, *ctx, none) == Some(((result_view(r), *ctx), none)));
            r
        },
        HandlerExpr::BoolLit(_) | HandlerExpr::BoolPropRead { .. } => {
            let r = Err(EvalError::TypeMismatch { path: String::from_str("<bool expression in integer context>") });
            assert(eval_with(*expr, *ctx, none) == Some(((result_view(r), *ctx), none)));
            r
        },
        HandlerExpr::PropRead { path } => {
            let r = ctx.get_i32(path.as_str());
            assert(eval_with(*expr, *ctx, none) == Some(((result_view(r), *ctx), none)));
            r
        },
        HandlerExpr::Assign { lhs, rhs } => match &**rhs {
            HandlerExpr::BoolLit(b) => {
                let ghost before = *ctx;
                let w = ctx.set_bool(lhs.as_str(), *b);
                let r = match w {
                    Ok(_) => Ok(0),
                    Err(e) => Err(e),
                };
                proof {
                    let declined = !(w == before.spec_set_bool(lhs@, *b) && *ctx == before.spec_after_set_bool(lhs@, *b));
                    assert(eval_with(*expr, before, seq![declined]) == Some(((result_view(r), *ctx), none)));
                }
                r
            },
            HandlerExpr::BoolPropRead { path } => {
                let ghost before = *ctx;
                let g = ctx.get_bool(path.as_str());
                let ghost declined_read = !(g == before.spec_get_bool(path@));
                let v = match g {
                    Ok(v) => v,
                    Err(e) => {
                        assert(eval_with(*expr, before, seq![declined_read]) == Some(
                            ((result_view(Err::<i32, EvalError>(e)), *ctx), none),
                        ));
                        return Err(e);
                    },
                };
                let w = ctx.set_bool(lhs.as_str(), v);
                let r = match w {
                    Ok(_) => Ok(0),
                    Err(e) => Err(e),
                };
                proof {
                    let declined = !(w == before.spec_set_bool(lhs@, v) && *ctx == before.spec_after_set_bool(lhs@, v));
                    let ch = seq![false, declined];
                    assert(ch.drop_first() =~= seq![declined]);
                    assert(eval_with(*expr, before, ch) == Some(((result_view(r), *ctx), none)));
                }
                r
            },
            _ => {
                let ghost before = *ctx;
                let res = evaluate(&**rhs, ctx);
                let ghost ch = choose|ch: Seq<bool>|
                    #[trigger] eval_with(**rhs, before, ch) == Some(((result_view(res), *ctx), none));
                let v = match res {
                    Ok(v) => v,
                    Err(e) => {
                        assert(eval_with(*expr, before, ch) == Some(((result_view(res), *ctx), none)));
                        return Err(e);
                    },
                };
                let w = ctx.set_i32(lhs.as_str(), v);
                let r = match w {
                    Ok(_) => Ok(v),
                    Err(e) => Err(e),
                };
                assert(eval_with(*expr, before, ch) == Some(((result_view(r), *ctx), none)));
                r
            },
        },
        HandlerExpr::CompoundAssign { lhs, op, rhs } => {
            let current = match ctx.get_i32(lhs.as_str()) {
                Ok(c) => c,
                Err(e) => {
                    assert(eval_with(*expr, *ctx, none) == Some(((result_view(Err::<i32, EvalError>(e)), *ctx), none)));
                    return Err(e);
                },
            };
            let ghost before = *ctx;
            let res = evaluate(&**rhs, ctx);
            let ghost ch = choose|ch: Seq<bool>|
                #[trigger] eval_with(**rhs, before, ch) == Some(((result_view(res), *ctx), none));
            let rhs_val = match res {
                Ok(v) => v,
                Err(e) => {
                    assert(eval_with(*expr, before, ch) == Some(((result_view(res), *ctx), none)));
                    return Err(e);
                },
            };
            let result = match apply_compound(*op, current, rhs_val) {
                Ok(x) => x,
                Err(e) => {
                    assert(eval_with(*expr, before, ch) == Some(((result_view(Err::<i32, EvalError>(e)), *ctx), none)));
                    return Err(e);
                },
            };
            let w = ctx.set_i32(lhs.as_str(), result);
            let r = match w {
                Ok(_) => Ok(result),
                Err(e) => Err(e),
            };
            assert(eval_with(*expr, before, ch) == Some(((result_view(r), *ctx), none)));
            r
        },
        HandlerExpr::Block(stmts) => {
            let mut last: i32 = 0;
            let mut i: usize = 0;
            let ghost mut used = Seq::<bool>::empty();
            while i < stmts.len()
                invariant
                    0 <= i <= stmts@.len(),
                    stmts@.len() == 0 ==> last == 0,
                    none == Seq::<bool>::empty(),
                    eval_spec(*expr, *old(ctx)) matches Some(o) ==> eval_block_spec(*expr, i as int, last, *ctx)
                        == Some(o),
                    forall|t: Seq<bool>|
                        #[trigger] block_with(*expr, 0, 0, *old(ctx), used + t) == block_with(
                            *expr,
                            i as int,
                            last,
                            *ctx,
                            t,
                        ),
                decreases stmts@.len() - i,
            {
                assert(decreases_to!(expr => stmts@[i as int]));
                let ghost before = *ctx;
                let ghost last0 = last;
                let res = evaluate(&stmts[i], ctx);
                let ghost ch = choose|ch: Seq<bool>|
                    #[trigger] eval_with(stmts@[i as int], before, ch) == Some(((result_view(res), *ctx), none));
                proof {
                    assert forall|t: Seq<bool>| #[trigger] eval_with(stmts@[i as int], before, ch + t) == Some(
                        ((result_view(res), *ctx), t),
                    ) by {
                        lemma_eval_with_extends(stmts@[i as int], before, ch, t);
                        assert(none + t =~= t);
                    }
                }
                match res {
                    Ok(v) => {
                        proof {
                            assert forall|t: Seq<bool>|
                                #[trigger] block_with(*expr, 0, 0, *old(ctx), (used + ch) + t) == block_with(
                                    *expr,
                                    i as int + 1,
                                    v,
                                    *ctx,
                                    t,
                                ) by {
                                assert((used + ch) + t =~= used + (ch + t));
                                assert(eval_with(stmts@[i as int], before, ch + t) == Some(
                                    ((result_view(res), *ctx), t),
                                ));
                                assert(block_with(*expr, 0, 0, *old(ctx), used + (ch + t)) == block_with(
                                    *expr,
                                    i as int,
                                    last0,
                                    before,
                                    ch + t,
                                ));
                            }
                            used = used + ch;
                        }
                        last = v;
                    },
                    Err(e) => {
                        proof {
                            assert(ch + none =~= ch);
                            assert(eval_with(stmts@[i as int], before, ch + none) == Some(
                                ((result_view(res), *ctx), none),
                            ));
                            assert(block_with(*expr, 0, 0, *old(ctx), used + (ch + none)) == block_with(
                                *expr,
                                i as int,
                                last0,
                                before,
                                ch + none,
                            ));
                            assert(eval_with(*expr, *old(ctx), used + ch) == Some(
                                ((result_view(res), *ctx), none),
                            ));
                        }
                        return Err(e);
                    },
                }
                i += 1;
            }
            proof {
                assert(used + none =~= used);
                assert(block_with(*expr, 0, 0, *old(ctx), used + none) == block_with(
                    *expr,
                    i as int,
                    last,
                    *ctx,
                    none,
                ));
                assert(eval_with(*expr, *old(ctx), used) == Some(((Ok::<i32, EvalErrorView>(last), *ctx), none)));
            }
            Ok(last)
        },
    }
}

/// Whether every part of an interpolation is a literal.
pub open spec fn all_literal(parts: Seq<InterpolationPart>) -> bool {
    forall|i: int| 0 <= i < parts.len() ==> #[trigger] parts[i] is Literal
}

/// The concatenated text of an interpolation's literal parts.
pub open spec fn literal_text(parts: Seq<InterpolationPart>) -> Seq<char>
    decreases parts.len(),
{
    if parts.len() == 0 {
        Seq::empty()
    } else {
        let rest = literal_text(parts.drop_last());
        match parts.last() {
            InterpolationPart::Literal(s) => rest + s@,
            InterpolationPart::Expr(_) => rest,
        }
    }
}

/// Whether `r` is the write-in-binding error naming `lhs`.
pub open spec fn is_write_rejection<T>(r: Result<T, EvalError>, lhs: Seq<char>) -> bool {
    r matches Err(EvalError::WriteInBindingContext { path }) && path@ == lhs
}

/// The string and collection forms rejected in integer binding context,
/// other than the loop reads that the optional evaluators accept.
pub open spec fn is_string_form(e: HandlerExpr) -> bool {
    ||| e is StrLit
    ||| e is StrPropRead
    ||| e is ListPropRead
    ||| e is ListAppend
    ||| e is ListDropLast
    ||| e is ListLit
    ||| e is Interpolation
}

/// What an expression evaluates to in integer binding context, in state
/// `c`: a literal is itself; a read is what the context answers; a write is
/// rejected naming its target; string, collection and loop forms and bool
/// forms are type errors; a block yields its last value (0 when empty), the
/// first error stopping it.
pub open spec fn eval_tracked_spec<C: EvalContext>(e: HandlerExpr, c: C) -> Result<i32, EvalErrorView>
    decreases e, 1int, 0int,
{
    match e {
        HandlerExpr::IntLit(v) => Ok(v),
        HandlerExpr::PropRead { path } => result_view(c.spec_get_i32(path@)),
        HandlerExpr::Assign { lhs, .. } | HandlerExpr::CompoundAssign { lhs, .. } => Err(
            EvalErrorView::WriteInBindingContext(lhs@),
        ),
        HandlerExpr::Block(_) => eval_tracked_block(e, 0, 0, c),
        HandlerExpr::BoolLit(_) | HandlerExpr::BoolPropRead { .. } => Err(EvalErrorView::TypeMismatch(bool_in_integer())),
        _ => Err(EvalErrorView::TypeMismatch(string_in_integer())),
    }
}

/// The statements of block `e` from the `i`-th on, in binding context,
/// after the earlier ones yielded `last`.
pub open spec fn eval_tracked_block<C: EvalContext>(e: HandlerExpr, i: int, last: i32, c: C) -> Result<
    i32,
    EvalErrorView,
>
    decreases e, 0int, (match e {
        HandlerExpr::Block(stmts) => stmts@.len() - i,
        _ => 0,
    }),
{
    match e {
        HandlerExpr::Block(stmts) => if i < 0 || i >= stmts@.len() {
            Ok(last)
        } else {
            proof {
                assert(decreases_to!(e => stmts@[i]));
            }
            match eval_tracked_spec(stmts@[i], c) {
                Ok(v) => eval_tracked_block(e, i + 1, v, c),
                Err(x) => Err(x),
            }
        },
        _ => Ok(last),
    }
}

/// Integer-typed evaluation in read-only binding mode: reads go through the
/// tracked accessors, writes are rejected, string and bool forms are type
/// errors.
#[verifier::loop_isolation(false)]
fn evaluate_tracked<C: EvalContext>(expr: &HandlerExpr, ctx: &mut C) -> (r: Result<i32, EvalError>)
    ensures
        result_view(r) == eval_tracked_spec(*expr, *old(ctx)),
        *final(ctx) == *old(ctx),
        (is_string_form(*expr) || expr is ItemRead || expr is IndexRead) ==> is_type_mismatch(r, string_in_integer()),
        (expr is BoolLit || expr is BoolPropRead) ==> is_type_mismatch(r, bool_in_integer()),
        match *expr {
            HandlerExpr::IntLit(v) => r == Ok::<i32, EvalError>(v),
            HandlerExpr::Assign { lhs, .. } => is_write_rejection(r, lhs@),
            HandlerExpr::CompoundAssign { lhs, .. } => is_write_rejection(r, lhs@),
            HandlerExpr::Block(stmts) => stmts@.len() == 0 ==> r == Ok::<i32, EvalError>(0),
            _ => true,
        },
    decreases expr,
{
    match expr {
        HandlerExpr::IntLit(v) => Ok(*v),
        HandlerExpr::PropRead { path } => ctx.read_i32_tracked(path.as_str()),
        HandlerExpr::Assign { lhs, .. } | HandlerExpr::CompoundAssign { lhs, .. } => Err(
            EvalError::WriteInBindingContext { path: lhs.clone() },
        ),
        HandlerExpr::Block(stmts) => {
            let mut last: i32 = 0;
            let mut i: usize = 0;
            while i < stmts.len()
                invariant
                    0 <= i <= stmts@.len(),
                    stmts@.len() == 0 ==> last == 0,
                    *ctx == *old(ctx),
                    eval_tracked_spec(*expr, *old(ctx)) == eval_tracked_block(*expr, i as int, last, *ctx),
                decreases stmts@.len() - i,
            {
                assert(decreases_to!(expr => stmts@[i as int]));
                last = evaluate_tracked(&stmts[i], ctx)?;
                i += 1;
            }
            Ok(last)
        },
        HandlerExpr::StrLit(_)
        | HandlerExpr::StrPropRead { .. }
        | HandlerExpr::ListPropRead { .. }
        | HandlerExpr::ItemRead { .. }
        | HandlerExpr::IndexRead { .. }
        | HandlerExpr::ListAppend { .. }
        | HandlerExpr::ListDropLast { .. }
        | HandlerExpr::ListLit(_)
        | HandlerExpr::Interpolation(_) => Err(
            EvalError::TypeMismatch { path: String::from_str("<string expression in integer context>") },
        ),
        HandlerExpr::BoolLit(_) | HandlerExpr::BoolPropRead { .. } => Err(
            EvalError::TypeMismatch { path: String::from_str("<bool expression in integer context>") },
        ),
    }
}

/// What an expression evaluates to in integer binding context with loop
/// reads accepted, in state `c`: as [`eval_tracked_spec`], wrapped in
/// `Some`, with a block stopping at the first statement whose loop position
/// is no longer live. `None` where the outcome goes through a loop read,
/// whose accessors have no model.
pub open spec fn eval_tracked_opt_spec<C: EvalContext>(e: HandlerExpr, c: C) -> Option<
    Result<Option<i32>, EvalErrorView>,
>
    decreases e, 1int, 0int,
{
    match e {
        HandlerExpr::IntLit(v) => Some(Ok(Some(v))),
        HandlerExpr::PropRead { path } => Some(
            match c.spec_get_i32(path@) {
                Ok(v) => Ok(Some(v)),
                Err(x) => Err(error_view(x)),
            },
        ),
        HandlerExpr::ItemRead { .. } | HandlerExpr::IndexRead { .. } => None,
        HandlerExpr::Assign { lhs, .. } | HandlerExpr::CompoundAssign { lhs, .. } => Some(
            Err(EvalErrorView::WriteInBindingContext(lhs@)),
        ),
        HandlerExpr::Block(_) => eval_tracked_opt_block(e, 0, 0, c),
        HandlerExpr::BoolLit(_) | HandlerExpr::BoolPropRead { .. } => Some(
            Err(EvalErrorView::TypeMismatch(bool_in_integer())),
        ),
        _ => Some(Err(EvalErrorView::TypeMismatch(string_in_integer()))),
    }
}

/// The statements of block `e` from the `i`-th on, with loop reads
/// accepted, after the earlier ones yielded `last`.
pub open spec fn eval_tracked_opt_block<C: EvalContext>(e: HandlerExpr, i: int, last: i32, c: C) -> Option<
    Result<Option<i32>, EvalErrorView>,
>
    decreases e, 0int, (match e {
        HandlerExpr::Block(stmts) => stmts@.len() - i,
        _ => 0,
    }),
{
    match e {
        HandlerExpr::Block(stmts) => if i < 0 || i >= stmts@.len() {
            Some(Ok(Some(last)))
        } else {
            proof {
                assert(decreases_to!(e => stmts@[i]));
            }
            match eval_tracked_opt_spec(stmts@[i], c) {
                Some(Ok(Some(v))) => eval_tracked_opt_block(e, i + 1, v, c),
                other => other,
            }
        },
        _ => Some(Ok(Some(last))),
    }
}

/// Like `evaluate_tracked`, but a loop item or index that is no longer live
/// yields `Ok(None)`, and loop reads are accepted.
#[verifier::loop_isolation(false)]
fn evaluate_tracked_optional<C: EvalContext>(expr: &HandlerExpr, ctx: &mut C) -> (r: Result<Option<i32>, EvalError>)
    ensures
        eval_tracked_opt_spec(*expr, *old(ctx)) matches Some(o) ==> result_view(r) == o,
        *final(ctx) == *old(ctx),
        is_string_form(*expr) ==> is_type_mismatch(r, string_in_integer()),
        (expr is BoolLit || expr is BoolPropRead) ==> is_type_mismatch(r, bool_in_integer()),
        match *expr {
            HandlerExpr::IntLit(v) => r == Ok::<Option<i32>, EvalError>(Some(v)),
            HandlerExpr::Assign { lhs, .. } => is_write_rejection(r, lhs@),
            HandlerExpr::CompoundAssign { lhs, .. } => is_write_rejection(r, lhs@),
            HandlerExpr::Block(stmts) => stmts@.len() == 0 ==> r == Ok::<Option<i32>, EvalError>(Some(0)),
            _ => true,
        },
    decreases expr,
{
    match expr {
        HandlerExpr::IntLit(v) => Ok(Some(*v)),
        HandlerExpr::PropRead { path } => match ctx.read_i32_tracked(path.as_str()) {
            Ok(v) => Ok(Some(v)),
            Err(e) => Err(e),
        },
        HandlerExpr::ItemRead { binder } => ctx.read_item_i32_tracked(binder.as_str()),
        HandlerExpr::IndexRead { binder } => ctx.read_index_tracked(binder.as_str()),
        HandlerExpr::Assign { lhs, .. } | HandlerExpr::CompoundAssign { lhs, .. } => Err(
            EvalError::WriteInBindingContext { path: lhs.clone() },
        ),
        HandlerExpr::Block(stmts) => {
            let mut last: Option<i32> = Some(0);
            let mut i: usize = 0;
            while i < stmts.len()
                invariant
                    0 <= i <= stmts@.len(),
                    stmts@.len() == 0 ==> last == Some(0i32),
                    last is Some,
                    *ctx == *old(ctx),
                    eval_tracked_opt_spec(*expr, *old(ctx)) matches Some(o) ==> eval_tracked_opt_block(
                        *expr,
                        i as int,
                        last->0,
                        *old(ctx),
                    ) == Some(o),
                decreases stmts@.len() - i,
            {
                assert(decreases_to!(expr => stmts@[i as int]));
                last = evaluate_tracked_optional(&stmts[i], ctx)?;
                if last.is_none() {
                    return Ok(None);
                }
                i += 1;
            }
            Ok(last)
        },
        HandlerExpr::StrLit(_)
        | HandlerExpr::StrPropRead { .. }
        | HandlerExpr::ListPropRead { .. }
        | HandlerExpr::ListAppend { .. }
        | HandlerExpr::ListDropLast { .. }
        | HandlerExpr::ListLit(_)
        | HandlerExpr::Interpolation(_) => Err(
            EvalError::TypeMismatch { path: String::from_str("<string expression in integer context>") },
        ),
        HandlerExpr::BoolLit(_) | HandlerExpr::BoolPropRead { .. } => Err(
            EvalError::TypeMismatch { path: String::from_str("<bool expression in integer context>") },
        ),
    }
}

/// The content of a string result.
pub open spec fn text_result_view(r: Result<String, EvalError>) -> Result<Seq<char>, EvalErrorView> {
    match r {
        Ok(t) => Ok(t@),
        Err(e) => Err(error_view(e)),
    }
}

/// The content of an optional string result.
pub open spec fn opt_text_result_view(r: Result<Option<String>, EvalError>) -> Result<Option<Seq<char>>, EvalErrorView> {
    match r {
        Ok(Some(t)) => Ok(Some(t@)),
        Ok(None) => Ok(None),
        Err(e) => Err(error_view(e)),
    }
}

/// An integer result rendered in decimal.
pub open spec fn render_spec(r: Result<i32, EvalErrorView>) -> Result<Seq<char>, EvalErrorView> {
    match r {
        Ok(v) => Ok(signed_decimal(v as int)),
        Err(x) => Err(x),
    }
}

/// An optional integer result rendered in decimal.
pub open spec fn render_opt_spec(o: Option<Result<Option<i32>, EvalErrorView>>) -> Option<
    Result<Option<Seq<char>>, EvalErrorView>,
> {
    match o {
        Some(Ok(Some(v))) => Some(Ok(Some(signed_decimal(v as int)))),
        Some(Ok(None)) => Some(Ok(None)),
        Some(Err(x)) => Some(Err(x)),
        None => None,
    }
}

/// One interpolation part in binding context: its integer value rendered in
/// decimal. `None` for a string read, whose accessor has no model.
pub open spec fn part_spec<C: EvalContext>(e: HandlerExpr, c: C) -> Option<Result<Seq<char>, EvalErrorView>> {
    match e {
        HandlerExpr::StrPropRead { .. } => None,
        _ => Some(render_spec(eval_tracked_spec(e, c))),
    }
}

/// One interpolation part with loop reads accepted. `None` for string and
/// loop reads, whose accessors have no model.
pub open spec fn part_opt_spec<C: EvalContext>(e: HandlerExpr, c: C) -> Option<
    Result<Option<Seq<char>>, EvalErrorView>,
> {
    match e {
        HandlerExpr::StrPropRead { .. } | HandlerExpr::ItemRead { .. } | HandlerExpr::IndexRead { .. } => None,
        _ => render_opt_spec(eval_tracked_opt_spec(e, c)),
    }
}

/// `t` in front of the text of a successful outcome.
pub open spec fn prepend(t: Seq<char>, o: Option<Result<Seq<char>, EvalErrorView>>) -> Option<
    Result<Seq<char>, EvalErrorView>,
> {
    match o {
        Some(Ok(r)) => Some(Ok(t + r)),
        other => other,
    }
}

/// `t` in front of the text of a successful, live outcome.
pub open spec fn prepend_opt(t: Seq<char>, o: Option<Result<Option<Seq<char>>, EvalErrorView>>) -> Option<
    Result<Option<Seq<char>>, EvalErrorView>,
> {
    match o {
        Some(Ok(Some(r))) => Some(Ok(Some(t + r))),
        other => other,
    }
}

/// The text of interpolation parts `i..`: literal parts as written,
/// expression parts rendered, the first error stopping it.
pub open spec fn interp_from<C: EvalContext>(parts: Seq<InterpolationPart>, i: int, c: C) -> Option<
    Result<Seq<char>, EvalErrorView>,
>
    decreases parts.len() - i,
{
    if i < 0 || i >= parts.len() {
        Some(Ok(Seq::empty()))
    } else {
        let rest = interp_from(parts, i + 1, c);
        match parts[i] {
            InterpolationPart::Literal(t) => prepend(t@, rest),
            InterpolationPart::Expr(inner) => match part_spec(inner, c) {
                Some(Ok(t)) => prepend(t, rest),
                other => other,
            },
        }
    }
}

/// As [`interp_from`], with loop reads accepted and a part whose loop
/// position is no longer live stopping it with `Ok(None)`.
pub open spec fn interp_opt_from<C: EvalContext>(parts: Seq<InterpolationPart>, i: int, c: C) -> Option<
    Result<Option<Seq<char>>, EvalErrorView>,
>
    decreases parts.len() - i,
{
    if i < 0 || i >= parts.len() {
        Some(Ok(Some(Seq::empty())))
    } else {
        let rest = interp_opt_from(parts, i + 1, c);
        match parts[i] {
            InterpolationPart::Literal(t) => prepend_opt(t@, rest),
            InterpolationPart::Expr(inner) => match part_opt_spec(inner, c) {
                Some(Ok(Some(t))) => prepend_opt(t, rest),
                other => other,
            },
        }
    }
}

/// The string a binding expression evaluates to in state `c`: a string
/// literal is itself, an interpolation is [`interp_from`], anything else is
/// its integer value rendered in decimal. `None` for a string read, whose
/// accessor has no model.
pub open spec fn binding_spec<C: EvalContext>(e: HandlerExpr, c: C) -> Option<Result<Seq<char>, EvalErrorView>> {
    match e {
        HandlerExpr::StrLit(t) => Some(Ok(t@)),
        HandlerExpr::Interpolation(parts) => interp_from(parts@, 0, c),
        HandlerExpr::StrPropRead { .. } => None,
        _ => Some(render_spec(eval_tracked_spec(e, c))),
    }
}

/// As [`binding_spec`], with loop reads accepted. `None` for string and
/// loop reads, whose accessors have no model.
pub open spec fn binding_opt_spec<C: EvalContext>(e: HandlerExpr, c: C) -> Option<
    Result<Option<Seq<char>>, EvalErrorView>,
> {
    match e {
        HandlerExpr::StrLit(t) => Some(Ok(Some(t@))),
        HandlerExpr::Interpolation(parts) => interp_opt_from(parts@, 0, c),
        HandlerExpr::StrPropRead { .. } | HandlerExpr::ItemRead { .. } | HandlerExpr::IndexRead { .. } => None,
        _ => render_opt_spec(eval_tracked_opt_spec(e, c)),
    }
}

proof fn lemma_prepend_assoc(a: Seq<char>, b: Seq<char>, o: Option<Result<Seq<char>, EvalErrorView>>)
    ensures
        prepend(a, prepend(b, o)) == prepend(a + b, o),
{
    if let Some(Ok(r)) = o {
        assert(a + (b + r) =~= (a + b) + r);
    }
}

proof fn lemma_prepend_opt_assoc(a: Seq<char>, b: Seq<char>, o: Option<Result<Option<Seq<char>>, EvalErrorView>>)
    ensures
        prepend_opt(a, prepend_opt(b, o)) == prepend_opt(a + b, o),
{
    if let Some(Ok(Some(r))) = o {
        assert(a + (b + r) =~= (a + b) + r);
    }
}

/// The decimal text of an integer result, errors passed through.
fn render_i32(r: Result<i32, EvalError>) -> (s: Result<String, EvalError>)
    ensures
        r matches Ok(v) ==> s matches Ok(t) && t@ == signed_decimal(v as int),
        r matches Err(e) ==> s == Err::<String, EvalError>(e),
{
    match r {
        Ok(v) => Ok(i32_to_string(v)),
        Err(e) => Err(e),
    }
}

/// One interpolation part in binding context: a string read, or an
/// integer expression rendered in decimal.
fn evaluate_binding_part<C: EvalContext>(expr: &HandlerExpr, ctx: &mut C) -> (r: Result<String, EvalError>)
    ensures
        part_spec(*expr, *old(ctx)) matches Some(o) ==> text_result_view(r) == o,
        *final(ctx) == *old(ctx),
        match *expr {
            HandlerExpr::IntLit(v) => r matches Ok(t) && t@ == signed_decimal(v as int),
            HandlerExpr::Assign { lhs, .. } => is_write_rejection(r, lhs@),
            HandlerExpr::CompoundAssign { lhs, .. } => is_write_rejection(r, lhs@),
            HandlerExpr::StrLit(_) => is_type_mismatch(r, string_in_integer()),
            HandlerExpr::BoolLit(_) | HandlerExpr::BoolPropRead { .. } => is_type_mismatch(r, bool_in_integer()),
            _ => true,
        },
{
    match expr {
        HandlerExpr::StrPropRead { path } => ctx.read_string_tracked(path.as_str()),
        _ => render_i32(evaluate_tracked(expr, ctx)),
    }
}

/// Like `evaluate_binding_part`, with loop reads and a no-longer-live loop
/// position yielding `Ok(None)`.
fn evaluate_binding_part_optional<C: EvalContext>(expr: &HandlerExpr, ctx: &mut C) -> (r: Result<Option<String>, EvalError>)
    ensures
        part_opt_spec(*expr, *old(ctx)) matches Some(o) ==> opt_text_result_view(r) == o,
        *final(ctx) == *old(ctx),
        match *expr {
            HandlerExpr::IntLit(v) => r matches Ok(Some(t)) && t@ == signed_decimal(v as int),
            HandlerExpr::Assign { lhs, .. } => is_write_rejection(r, lhs@),
            HandlerExpr::CompoundAssign { lhs, .. } => is_write_rejection(r, lhs@),
            HandlerExpr::StrLit(_) => is_type_mismatch(r, string_in_integer()),
            HandlerExpr::BoolLit(_) | HandlerExpr::BoolPropRead { .. } => is_type_mismatch(r, bool_in_integer()),
            _ => true,
        },
{
    match expr {
        HandlerExpr::StrPropRead { path } => match ctx.read_string_tracked(path.as_str()) {
            Ok(v) => Ok(Some(v)),
            Err(e) => Err(e),
        },
        HandlerExpr::ItemRead { binder } => ctx.read_item_binding_tracked(binder.as_str()),
        HandlerExpr::IndexRead { binder } => match ctx.read_index_tracked(binder.as_str()) {
            Ok(Some(i)) => Ok(Some(i32_to_string(i))),
            Ok(None) => Ok(None),
            Err(e) => Err(e),
        },
        _ => match evaluate_tracked_optional(expr, ctx) {
            Ok(Some(v)) => Ok(Some(i32_to_string(v))),
            Ok(None) => Ok(None),
            Err(e) => Err(e),
        },
    }
}

/// Evaluate a binding expression (read-only) to its string form: a string
/// literal is itself, an interpolation concatenates its literal parts with
/// the rendered values of its expression parts, a string read is what the
/// context returns, and an integer expression is rendered in decimal. A
/// write anywhere is rejected.
#[verifier::loop_isolation(false)]
pub fn evaluate_binding<C: EvalContext>(expr: &HandlerExpr, ctx: &mut C) -> (r: Result<String, EvalError>)
    ensures
        binding_spec(*expr, *old(ctx)) matches Some(o) ==> text_result_view(r) == o,
        *final(ctx) == *old(ctx),
        match *expr {
            HandlerExpr::StrLit(s) => r matches Ok(t) && t@ == s@,
            HandlerExpr::Interpolation(parts) => all_literal(parts@) ==> (r matches Ok(t) && t@ == literal_text(parts@)),
            HandlerExpr::IntLit(v) => r matches Ok(t) && t@ == signed_decimal(v as int),
            HandlerExpr::Assign { lhs, .. } => is_write_rejection(r, lhs@),
            HandlerExpr::CompoundAssign { lhs, .. } => is_write_rejection(r, lhs@),
            HandlerExpr::BoolLit(_) | HandlerExpr::BoolPropRead { .. } => is_type_mismatch(r, bool_in_integer()),
            HandlerExpr::ListLit(_) | HandlerExpr::ItemRead { .. } | HandlerExpr::IndexRead { .. } => is_type_mismatch(
                r,
                string_in_integer(),
            ),
            HandlerExpr::StrPropRead { path } => r == old(ctx).spec_get_string(path@) || is_unknown(r, path@),
            _ => true,
        },
{
    match expr {
        HandlerExpr::StrLit(s) => Ok(s.clone()),
        HandlerExpr::Interpolation(parts) => {
            let mut out = String::new();
            let mut i: usize = 0;
            while i < parts.len()
                invariant
                    0 <= i <= parts@.len(),
                    all_literal(parts@) ==> out@ == literal_text(parts@.subrange(0, i as int)),
                    *ctx == *old(ctx),
                    interp_from(parts@, 0, *old(ctx)) is Some ==> interp_from(parts@, 0, *old(ctx)) == prepend(
                        out@,
                        interp_from(parts@, i as int, *old(ctx)),
                    ),
                decreases parts@.len() - i,
            {
                let ghost prev = out@;
                match &parts[i] {
                    InterpolationPart::Literal(s) => {
                        out.append(s.as_str());
                        proof {
                            lemma_prepend_assoc(prev, s@, interp_from(parts@, i + 1, *old(ctx)));
                        }
                    },
                    InterpolationPart::Expr(e) => {
                        let v = evaluate_binding_part(e, ctx)?;
                        out.append(v.as_str());
                        proof {
                            lemma_prepend_assoc(prev, v@, interp_from(parts@, i + 1, *old(ctx)));
                        }
                    },
                }
                proof {
                    let sub = parts@.subrange(0, i as int + 1);
                    assert(sub.drop_last() =~= parts@.subrange(0, i as int));
                    assert(sub.last() == parts@[i as int]);
                }
                i += 1;
            }
            assert(parts@.subrange(0, parts@.len() as int) =~= parts@);
            Ok(out)
        },
        HandlerExpr::StrPropRead { path } => ctx.read_string_tracked(path.as_str()),
        _ => render_i32(evaluate_tracked(expr, ctx)),
    }
}

/// Like `evaluate_binding`, with loop reads accepted and a no-longer-live
/// loop position anywhere in the expression yielding `Ok(None)`.
#[verifier::loop_isolation(false)]
pub fn evaluate_binding_optional<C: EvalContext>(expr: &HandlerExpr, ctx: &mut C) -> (r: Result<Option<String>, EvalError>)
    ensures
        binding_opt_spec(*expr, *old(ctx)) matches Some(o) ==> opt_text_result_view(r) == o,
        *final(ctx) == *old(ctx),
        match *expr {
            HandlerExpr::StrLit(s) => r matches Ok(Some(t)) && t@ == s@,
            HandlerExpr::Interpolation(parts) => all_literal(parts@) ==> (r matches Ok(Some(t)) && t@ == literal_text(parts@)),
            HandlerExpr::IntLit(v) => r matches Ok(Some(t)) && t@ == signed_decimal(v as int),
            HandlerExpr::Assign { lhs, .. } => is_write_rejection(r, lhs@),
            HandlerExpr::CompoundAssign { lhs, .. } => is_write_rejection(r, lhs@),
            HandlerExpr::BoolLit(_) | HandlerExpr::BoolPropRead { .. } => is_type_mismatch(r, bool_in_integer()),
            HandlerExpr::ListLit(_) => is_type_mismatch(r, string_in_integer()),
            HandlerExpr::StrPropRead { path } => match old(ctx).spec_get_string(path@) {
                Ok(t) => r == Ok::<Option<String>, EvalError>(Some(t)) || is_unknown(r, path@),
                Err(x) => r == Err::<Option<String>, EvalError>(x) || is_unknown(r, path@),
            },
            _ => true,
        },
{
    match expr {
        HandlerExpr::StrLit(s) => Ok(Some(s.clone())),
        HandlerExpr::Interpolation(parts) => {
            let mut out = String::new();
            let mut i: usize = 0;
            while i < parts.len()
                invariant
                    0 <= i <= parts@.len(),
                    all_literal(parts@) ==> out@ == literal_text(parts@.subrange(0, i as int)),
                    *ctx == *old(ctx),
                    interp_opt_from(parts@, 0, *old(ctx)) is Some ==> interp_opt_from(parts@, 0, *old(ctx))
                        == prepend_opt(out@, interp_opt_from(parts@, i as int, *old(ctx))),
                decreases parts@.len() - i,
            {
                let ghost prev = out@;
                match &parts[i] {
                    InterpolationPart::Literal(s) => {
                        out.append(s.as_str());
                        proof {
                            lemma_prepend_opt_assoc(prev, s@, interp_opt_from(parts@, i + 1, *old(ctx)));
                        }
                    },
                    InterpolationPart::Expr(e) => match evaluate_binding_part_optional(e, ctx)? {
                        Some(value) => {
                            out.append(value.as_str());
                            proof {
                                lemma_prepend_opt_assoc(prev, value@, interp_opt_from(parts@, i + 1, *old(ctx)));
                            }
                        },
                        None => return Ok(None),
                    },
                }
                proof {
                    let sub = parts@.subrange(0, i as int + 1);
                    assert(sub.drop_last() =~= parts@.subrange(0, i as int));
                    assert(sub.last() == parts@[i as int]);
                }
                i += 1;
            }
            assert(parts@.subrange(0, parts@.len() as int) =~= parts@);
            Ok(Some(out))
        },
        HandlerExpr::StrPropRead { path } => match ctx.read_string_tracked(path.as_str()) {
            Ok(v) => Ok(Some(v)),
            Err(e) => Err(e),
        },
        HandlerExpr::ItemRead { binder } => ctx.read_item_binding_tracked(binder.as_str()),
        HandlerExpr::IndexRead { binder } => match ctx.read_index_tracked(binder.as_str()) {
            Ok(Some(i)) => Ok(Some(i32_to_string(i))),
            Ok(None) => Ok(None),
            Err(e) => Err(e),
        },
        _ => match evaluate_tracked_optional(expr, ctx) {
            Ok(Some(v)) => Ok(Some(i32_to_string(v))),
            Ok(None) => Ok(None),
            Err(e) => Err(e),
        },
    }
}

/// Evaluate a bool binding: a bool literal is itself, a bool read is what
/// the context returns through the tracked accessor, anything else is a
/// type error.
pub fn evaluate_bool_binding<C: EvalContext>(expr: &HandlerExpr, ctx: &mut C) -> (r: Result<bool, EvalError>)
    ensures
        *final(ctx) == *old(ctx),
        match *expr {
            HandlerExpr::BoolLit(b) => r == Ok::<bool, EvalError>(b),
            HandlerExpr::BoolPropRead { path } => r == old(ctx).spec_get_bool(path@) || is_unknown(r, path@),
            _ => is_type_mismatch(r, non_bool_in_bool()),
        },
{
    match expr {
        HandlerExpr::BoolLit(b) => Ok(*b),
        HandlerExpr::BoolPropRead { path } => ctx.read_bool_tracked(path.as_str()),
        _ => Err(EvalError::TypeMismatch { path: String::from_str("<non-bool expression in bool binding context>") }),
    }
}

/// Like `evaluate_bool_binding`, with a loop item read accepted.
pub fn evaluate_bool_binding_optional<C: EvalContext>(expr: &HandlerExpr, ctx: &mut C) -> (r: Result<Option<bool>, EvalError>)
    ensures
        *final(ctx) == *old(ctx),
        match *expr {
            HandlerExpr::BoolLit(b) => r == Ok::<Option<bool>, EvalError>(Some(b)),
            HandlerExpr::BoolPropRead { path } => match old(ctx).spec_get_bool(path@) {
                Ok(v) => r == Ok::<Option<bool>, EvalError>(Some(v)) || is_unknown(r, path@),
                Err(x) => r == Err::<Option<bool>, EvalError>(x) || is_unknown(r, path@),
            },
            HandlerExpr::ItemRead { binder } => r == old(ctx).spec_item_bool(binder@) || is_unknown(r, binder@),
            _ => is_type_mismatch(r, non_bool_in_bool()),
        },
{
    match expr {
        HandlerExpr::BoolLit(b) => Ok(Some(*b)),
        HandlerExpr::BoolPropRead { path } => match ctx.read_bool_tracked(path.as_str()) {
            Ok(v) => Ok(Some(v)),
            Err(e) => Err(e),
        },
        HandlerExpr::ItemRead { binder } => ctx.read_item_bool_tracked(binder.as_str()),
        _ => Err(EvalError::TypeMismatch { path: String::from_str("<non-bool expression in bool binding context>") }),
    }
}

/// One segment of a dot-path widget identifier.
#[derive(Debug, Clone, PartialEq)]
pub struct WidgetPathSegment {
    /// Widget type or instance name.
    pub name: String,
    /// Positional index among same-named siblings, when disambiguation is needed.
    pub index: Option<usize>,
}

impl WidgetPathSegment {
    pub fn named(name: &str) -> (s: Self)
        ensures
            s.name@ == name@,
            s.index is None,
    {
        Self { name: name.to_string(), index: None }
    }

    pub fn indexed(name: &str, index: usize) -> (s: Self)
        ensures
            s.name@ == name@,
            s.index == Some(index),
    {
        Self { name: name.to_string(), index: Some(index) }
    }
}

/// A segment's text: its name, with `[index]` appended when it has one.
pub open spec fn segment_text(seg: WidgetPathSegment) -> Seq<char> {
    match seg.index {
        None => seg.name@,
        Some(i) => seg.name@ + seq!['['] + decimal(i as nat) + seq![']'],
    }
}

/// The segments' texts joined by `.`.
pub open spec fn joined_path(segs: Seq<WidgetPathSegment>) -> Seq<char>
    decreases segs.len(),
{
    if segs.len() == 0 {
        Seq::empty()
    } else if segs.len() == 1 {
        segment_text(segs[0])
    } else {
        joined_path(segs.drop_last()) + seq!['.'] + segment_text(segs.last())
    }
}

/// `<component>.<widget-path>.<signal>`, or `<component>.<signal>` for an
/// empty path.
pub open spec fn handler_location(component: Seq<char>, path: Seq<WidgetPathSegment>, signal: Seq<char>) -> Seq<char> {
    if path.len() == 0 {
        component + seq!['.'] + signal
    } else {
        component + seq!['.'] + joined_path(path) + seq!['.'] + signal
    }
}

/// Format the coarse handler-location identifier used in diagnostics.
pub fn format_handler_location(component: &str, widget_path: &[WidgetPathSegment], signal: &str) -> (s: String)
    ensures
        s@ == handler_location(component@, widget_path@, signal@),
{
    proof {
        reveal_strlit(".");
        reveal_strlit("[");
        reveal_strlit("]");
    }
    let mut out = String::from_str(component);
    out.append(".");
    if widget_path.len() == 0 {
        out.append(signal);
        return out;
    }
    let mut i: usize = 0;
    while i < widget_path.len()
        invariant
            0 <= i <= widget_path@.len(),
            widget_path@.len() > 0,
            out@ == component@ + seq!['.'] + (if i == 0 {
                Seq::<char>::empty()
            } else {
                joined_path(widget_path@.subrange(0, i as int))
            }),
        decreases widget_path@.len() - i,
    {
        proof {
            reveal_strlit(".");
            reveal_strlit("[");
            reveal_strlit("]");
        }
        let seg = &widget_path[i];
        let ghost prev = out@;
        if i > 0 {
            out.append(".");
        }
        out.append(seg.name.as_str());
        match seg.index {
            None => {},
            Some(ix) => {
                out.append("[");
                let digits = usize_to_string(ix);
                out.append(digits.as_str());
                out.append("]");
            },
        }
        proof {
            let sub = widget_path@.subrange(0, i as int + 1);
            assert(out@ =~= prev + (if i > 0 { seq!['.'] } else { Seq::<char>::empty() }) + segment_text(*seg));
            assert(sub.drop_last() =~= widget_path@.subrange(0, i as int));
            assert(sub.last() == widget_path@[i as int]);
            assert(sub[0] == widget_path@[0]);
            if i > 0 {
                assert(joined_path(sub) == joined_path(sub.drop_last()) + seq!['.'] + segment_text(sub.last()));
            } else {
                assert(joined_path(sub) == segment_text(sub[0]));
            }
        }
        i += 1;
        assert(out@ =~= component@ + seq!['.'] + joined_path(widget_path@.subrange(0, i as int)));
    }
    assert(widget_path@.subrange(0, widget_path@.len() as int) =~= widget_path@);
    out.append(".");
    out.append(signal);
    out
}

} // verus!
