//! The status codes of the C ABI and the guards every entry point runs
//! before it does anything: which calls are refused, with which status, and
//! the last-error message each refusal leaves behind.
use crate::decimal::{decimal, decimal_chars, push_chars};
use vstd::prelude::*;

verus! {

broadcast use vstd::string::group_string_axioms;

/// The status every entry point returns.
pub type WasamoStatus = i32;

pub const WASAMO_OK: WasamoStatus = 0;
pub const WASAMO_ERR_INVALID_ARG: WasamoStatus = -1;
pub const WASAMO_ERR_RUNTIME: WasamoStatus = -2;
pub const WASAMO_ERR_NOT_INITIALIZED: WasamoStatus = -3;
pub const WASAMO_ERR_WRONG_THREAD: WasamoStatus = -4;
/// A structure-changing call made while Phase 1 of a drain runs.
pub const WASAMO_ERR_REENTRANT_LOAD: WasamoStatus = -5;
/// Any guarded call once the reactive runtime has diverged.
pub const WASAMO_ERR_REACTIVE_DIVERGED: WasamoStatus = -6;
/// A state-mutating call made from an observer callback (Phase 3).
pub const WASAMO_ERR_OBSERVER_MUTATION: WasamoStatus = -7;
/// IR text that could not be loaded.
pub const WASAMO_ERR_IR_MALFORMED: WasamoStatus = -8;

/// How `wasamo_load_ui` receives its IR.
pub type WasamoLoadType = i32;

pub const WASAMO_LOAD_PATH: WasamoLoadType = 0;
pub const WASAMO_LOAD_MEMORY: WasamoLoadType = 1;

/// The tag of a value crossing the ABI.
pub type WasamoValueTag = i32;

pub const WASAMO_VALUE_NONE: WasamoValueTag = 0;
pub const WASAMO_VALUE_I32: WasamoValueTag = 1;
pub const WASAMO_VALUE_F64: WasamoValueTag = 2;
pub const WASAMO_VALUE_BOOL: WasamoValueTag = 3;
pub const WASAMO_VALUE_STRING: WasamoValueTag = 4;
pub const WASAMO_VALUE_WIDGET: WasamoValueTag = 5;

/// What the reactive runtime reports about the effect that diverged.
#[derive(Debug)]
pub struct DivergenceDiagnostics {
    pub offending_effect_id: u64,
    pub iteration_count: u64,
    pub last_dirty_signal_ids: Vec<u64>,
}

/// The runtime facts the guards read.
#[derive(Debug)]
pub struct GuardFacts {
    pub initialized: bool,
    pub owning_thread: bool,
    pub diverged: bool,
    pub divergence: Option<DivergenceDiagnostics>,
    pub in_drain: bool,
    pub in_observer_callback: bool,
}

/// A refused call: the status to return and the last-error message to set.
#[derive(Debug)]
pub struct Refusal {
    pub status: WasamoStatus,
    pub message: String,
}

/// `ids` as `{:?}` renders a list of integers: `[a, b, c]`.
pub open spec fn id_list_text(ids: Seq<u64>) -> Seq<char> {
    "["@ + joined_ids(ids) + "]"@
}

/// The decimal renderings of `ids`, separated by `, `.
pub open spec fn joined_ids(ids: Seq<u64>) -> Seq<char>
    decreases ids.len(),
{
    if ids.len() == 0 {
        Seq::empty()
    } else if ids.len() == 1 {
        decimal(ids[0] as nat)
    } else {
        joined_ids(ids.drop_last()) + ", "@ + decimal(ids.last() as nat)
    }
}

/// The detail a divergence refusal appends, when diagnostics exist.
pub open spec fn divergence_detail(d: Option<DivergenceDiagnostics>) -> Seq<char> {
    match d {
        Some(d) => " (offending effect id="@ + decimal(d.offending_effect_id as nat) + ", iterations="@ + decimal(
            d.iteration_count as nat,
        ) + ", last dirty signals="@ + id_list_text(d.last_dirty_signal_ids@) + ")"@,
        None => Seq::empty(),
    }
}

/// The refusal of the thread check: not initialised, then wrong thread.
pub open spec fn owning_thread_refusal(fn_name: Seq<char>, initialized: bool, owning: bool) -> Option<(WasamoStatus, Seq<char>)> {
    if !initialized {
        Some((WASAMO_ERR_NOT_INITIALIZED, fn_name + ": wasamo_init has not been called"@))
    } else if !owning {
        Some(
            (
                WASAMO_ERR_WRONG_THREAD,
                fn_name + ": called from non-owning thread (must be the thread that called wasamo_init)"@,
            ),
        )
    } else {
        None
    }
}

/// The refusal of the divergence check.
pub open spec fn diverged_refusal(fn_name: Seq<char>, diverged: bool, d: Option<DivergenceDiagnostics>) -> Option<(WasamoStatus, Seq<char>)> {
    if diverged {
        Some(
            (
                WASAMO_ERR_REACTIVE_DIVERGED,
                fn_name + ": runtime is in Diverged state; call wasamo_runtime_destroy"@ + divergence_detail(d),
            ),
        )
    } else {
        None
    }
}

/// The refusal of the Phase 1 check.
pub open spec fn drain_refusal(fn_name: Seq<char>, in_drain: bool) -> Option<(WasamoStatus, Seq<char>)> {
    if in_drain {
        Some(
            (
                WASAMO_ERR_REENTRANT_LOAD,
                fn_name + ": structure-changing ABI called during reactive drain (Phase 1)"@,
            ),
        )
    } else {
        None
    }
}

/// The refusal of the Phase 3 check.
pub open spec fn observer_refusal(fn_name: Seq<char>, in_observer: bool) -> Option<(WasamoStatus, Seq<char>)> {
    if in_observer {
        Some(
            (
                WASAMO_ERR_OBSERVER_MUTATION,
                fn_name + ": state-mutating ABI called from within observer callback (Phase 3)"@,
            ),
        )
    } else {
        None
    }
}

/// A refusal as status and message.
pub open spec fn refusal_view(r: Option<Refusal>) -> Option<(WasamoStatus, Seq<char>)> {
    match r {
        Some(x) => Some((x.status, x.message@)),
        None => None,
    }
}

/// The first refusal of a sequence of checks.
pub open spec fn first_refusal(
    a: Option<(WasamoStatus, Seq<char>)>,
    b: Option<(WasamoStatus, Seq<char>)>,
) -> Option<(WasamoStatus, Seq<char>)> {
    if a is Some {
        a
    } else {
        b
    }
}

/// The guard of a structure-changing call: thread, divergence, Phase 1,
/// Phase 3, in that order.
pub open spec fn structural_refusal(fn_name: Seq<char>, f: GuardFacts) -> Option<(WasamoStatus, Seq<char>)> {
    first_refusal(
        owning_thread_refusal(fn_name, f.initialized, f.owning_thread),
        first_refusal(
            diverged_refusal(fn_name, f.diverged, f.divergence),
            first_refusal(drain_refusal(fn_name, f.in_drain), observer_refusal(fn_name, f.in_observer_callback)),
        ),
    )
}

/// The guard of a state-mutating call: thread, divergence, Phase 3.
pub open spec fn mutating_refusal(fn_name: Seq<char>, f: GuardFacts) -> Option<(WasamoStatus, Seq<char>)> {
    first_refusal(
        owning_thread_refusal(fn_name, f.initialized, f.owning_thread),
        first_refusal(
            diverged_refusal(fn_name, f.diverged, f.divergence),
            observer_refusal(fn_name, f.in_observer_callback),
        ),
    )
}

fn refusal(status: WasamoStatus, fn_name: &str, tail: &str) -> (r: Refusal)
    ensures
        r.status == status,
        r.message@ == fn_name@ + tail@,
{
    let mut message = fn_name.to_string();
    message.append(tail);
    Refusal { status, message }
}

/// Refuse a call made before `wasamo_init`, or from a thread other than the
/// one that called it.
pub fn check_owning_thread(fn_name: &str, initialized: bool, owning_thread: bool) -> (r: Option<Refusal>)
    ensures
        refusal_view(r) == owning_thread_refusal(fn_name@, initialized, owning_thread),
{
    if !initialized {
        return Some(refusal(WASAMO_ERR_NOT_INITIALIZED, fn_name, ": wasamo_init has not been called"));
    }
    if !owning_thread {
        return Some(
            refusal(
                WASAMO_ERR_WRONG_THREAD,
                fn_name,
                ": called from non-owning thread (must be the thread that called wasamo_init)",
            ),
        );
    }
    None
}

fn push_decimal(s: &mut String, n: u64)
    ensures
        final(s)@ == old(s)@ + decimal(n as nat),
{
    let cs = decimal_chars(n);
    push_chars(s, &cs);
}

fn push_id_list(s: &mut String, ids: &Vec<u64>)
    ensures
        final(s)@ == old(s)@ + id_list_text(ids@),
{
    let ghost init = s@;
    s.append("[");
    let mut i: usize = 0;
    while i < ids.len()
        invariant
            i <= ids@.len(),
            s@ == init + "["@ + joined_ids(ids@.subrange(0, i as int)),
        decreases ids@.len() - i,
    {
        if i > 0 {
            s.append(", ");
        }
        push_decimal(s, ids[i]);
        i += 1;
        proof {
            let sub = ids@.subrange(0, i as int);
            assert(sub.drop_last() =~= ids@.subrange(0, i - 1));
            assert(sub.last() == ids@[i - 1]);
            if i == 1 {
                assert(ids@.subrange(0, 0) =~= Seq::<u64>::empty());
            }
        }
    }
    s.append("]");
    assert(ids@.subrange(0, ids@.len() as int) =~= ids@);
}

/// Refuse every guarded call once the reactive runtime has diverged, naming
/// the offending effect when diagnostics are available.
pub fn check_not_diverged(fn_name: &str, diverged: bool, divergence: &Option<DivergenceDiagnostics>) -> (r: Option<Refusal>)
    ensures
        refusal_view(r) == diverged_refusal(fn_name@, diverged, *divergence),
{
    if !diverged {
        return None;
    }
    let mut message = fn_name.to_string();
    message.append(": runtime is in Diverged state; call wasamo_runtime_destroy");
    match divergence {
        Some(d) => {
            message.append(" (offending effect id=");
            push_decimal(&mut message, d.offending_effect_id);
            message.append(", iterations=");
            push_decimal(&mut message, d.iteration_count);
            message.append(", last dirty signals=");
            push_id_list(&mut message, &d.last_dirty_signal_ids);
            message.append(")");
        },
        None => {},
    }
    Some(Refusal { status: WASAMO_ERR_REACTIVE_DIVERGED, message })
}

/// Refuse a structure-changing call made while Phase 1 of a drain runs.
pub fn check_not_in_drain(fn_name: &str, in_drain: bool) -> (r: Option<Refusal>)
    ensures
        refusal_view(r) == drain_refusal(fn_name@, in_drain),
{
    if in_drain {
        Some(
            refusal(
                WASAMO_ERR_REENTRANT_LOAD,
                fn_name,
                ": structure-changing ABI called during reactive drain (Phase 1)",
            ),
        )
    } else {
        None
    }
}

/// Refuse a state-mutating call made from an observer callback.
pub fn check_not_in_observer(fn_name: &str, in_observer_callback: bool) -> (r: Option<Refusal>)
    ensures
        refusal_view(r) == observer_refusal(fn_name@, in_observer_callback),
{
    if in_observer_callback {
        Some(
            refusal(
                WASAMO_ERR_OBSERVER_MUTATION,
                fn_name,
                ": state-mutating ABI called from within observer callback (Phase 3)",
            ),
        )
    } else {
        None
    }
}

/// The guard of a structure-changing entry point: the first of the thread,
/// divergence, Phase 1 and Phase 3 checks that refuses.
pub fn guard_structural(fn_name: &str, facts: &GuardFacts) -> (r: Option<Refusal>)
    ensures
        refusal_view(r) == structural_refusal(fn_name@, *facts),
{
    if let Some(x) = check_owning_thread(fn_name, facts.initialized, facts.owning_thread) {
        return Some(x);
    }
    if let Some(x) = check_not_diverged(fn_name, facts.diverged, &facts.divergence) {
        return Some(x);
    }
    if let Some(x) = check_not_in_drain(fn_name, facts.in_drain) {
        return Some(x);
    }
    check_not_in_observer(fn_name, facts.in_observer_callback)
}

/// The guard of a state-mutating entry point: the first of the thread,
/// divergence and Phase 3 checks that refuses.
pub fn guard_mutating(fn_name: &str, facts: &GuardFacts) -> (r: Option<Refusal>)
    ensures
        refusal_view(r) == mutating_refusal(fn_name@, *facts),
{
    if let Some(x) = check_owning_thread(fn_name, facts.initialized, facts.owning_thread) {
        return Some(x);
    }
    if let Some(x) = check_not_diverged(fn_name, facts.diverged, &facts.divergence) {
        return Some(x);
    }
    check_not_in_observer(fn_name, facts.in_observer_callback)
}

/// The message stored when the one asked for cannot be a C string.
pub open spec fn nul_fallback() -> Seq<char> {
    "(error message contained NUL)"@
}

/// The thread's last-error message, as `wasamo_last_error_message` hands it
/// out.
#[derive(Debug)]
pub struct LastError {
    message: Option<String>,
}

impl LastError {
    /// The stored message, if any.
    pub closed spec fn spec_message(&self) -> Option<Seq<char>> {
        match self.message {
            Some(m) => Some(m@),
            None => None,
        }
    }

    /// No message.
    pub fn new() -> (e: Self)
        ensures
            e.spec_message() is None,
    {
        LastError { message: None }
    }

    /// Store `msg`; a message holding a NUL character, which no C string can
    /// carry, is replaced by a fixed notice.
    pub fn set_last_error(&mut self, msg: String)
        ensures
            final(self).spec_message() == Some(if msg@.contains('\0') {
                nul_fallback()
            } else {
                msg@
            }),
    {
        proof {
            reveal_strlit("(error message contained NUL)");
        }
        let cs = crate::text::chars_of(msg.as_str());
        let mut has_nul = false;
        let mut i: usize = 0;
        while i < cs.len()
            invariant
                i <= cs@.len(),
                cs@ == msg@,
                has_nul <==> exists|k: int| 0 <= k < i && cs@[k] == '\0',
            decreases cs@.len() - i,
        {
            if cs[i] == '\0' {
                has_nul = true;
            }
            i += 1;
        }
        if has_nul {
            self.message = Some("(error message contained NUL)".to_string());
        } else {
            self.message = Some(msg);
        }
    }

    /// Forget the stored message.
    pub fn clear_last_error(&mut self)
        ensures
            final(self).spec_message() is None,
    {
        self.message = None;
    }

    /// The stored message, if any.
    pub fn message(&self) -> (m: Option<&str>)
        ensures
            match m {
                Some(s) => self.spec_message() == Some(s@),
                None => self.spec_message() is None,
            },
    {
        match &self.message {
            Some(s) => Some(s.as_str()),
            None => None,
        }
    }
}

/// A refusal's message starts with the name of the entry point it refused.
pub proof fn law_refusal_names_its_entry_point(fn_name: Seq<char>, f: GuardFacts)
    ensures
        structural_refusal(fn_name, f) matches Some((_, m)) ==> m.subrange(0, fn_name.len() as int) == fn_name,
        mutating_refusal(fn_name, f) matches Some((_, m)) ==> m.subrange(0, fn_name.len() as int) == fn_name,
{
    lemma_prefix(fn_name, f);
}

proof fn lemma_prefix(fn_name: Seq<char>, f: GuardFacts)
    ensures
        owning_thread_refusal(fn_name, f.initialized, f.owning_thread) matches Some((_, m)) ==> m.subrange(
            0,
            fn_name.len() as int,
        ) == fn_name,
        diverged_refusal(fn_name, f.diverged, f.divergence) matches Some((_, m)) ==> m.subrange(
            0,
            fn_name.len() as int,
        ) == fn_name,
        drain_refusal(fn_name, f.in_drain) matches Some((_, m)) ==> m.subrange(0, fn_name.len() as int) == fn_name,
        observer_refusal(fn_name, f.in_observer_callback) matches Some((_, m)) ==> m.subrange(
            0,
            fn_name.len() as int,
        ) == fn_name,
{
    let a = fn_name + ": wasamo_init has not been called"@;
    let b = fn_name + ": called from non-owning thread (must be the thread that called wasamo_init)"@;
    let c = fn_name + ": runtime is in Diverged state; call wasamo_runtime_destroy"@ + divergence_detail(
        f.divergence,
    );
    let d = fn_name + ": structure-changing ABI called during reactive drain (Phase 1)"@;
    let e = fn_name + ": state-mutating ABI called from within observer callback (Phase 3)"@;
    assert(a.subrange(0, fn_name.len() as int) =~= fn_name);
    assert(b.subrange(0, fn_name.len() as int) =~= fn_name);
    assert(c.subrange(0, fn_name.len() as int) =~= fn_name);
    assert(d.subrange(0, fn_name.len() as int) =~= fn_name);
    assert(e.subrange(0, fn_name.len() as int) =~= fn_name);
}

/// A divergence refuses every guarded call that the thread check lets
/// through, whatever phase the drain is in.
pub proof fn law_divergence_refuses_every_guarded_call(fn_name: Seq<char>, f: GuardFacts)
    requires
        f.initialized,
        f.owning_thread,
        f.diverged,
    ensures
        structural_refusal(fn_name, f) matches Some((s, _)) && s == WASAMO_ERR_REACTIVE_DIVERGED,
        mutating_refusal(fn_name, f) matches Some((s, _)) && s == WASAMO_ERR_REACTIVE_DIVERGED,
{
}

} // verus!
