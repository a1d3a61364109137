//! Queued callback emission with a re-entrancy guard.
//!
//! While the host is inside a runtime call, no callback runs on that thread:
//! emissions are queued and drained at a later safe point, in three phases.
//! Phase 1 (mutation convergence) runs under the in-drain flag, Phase 2 lays
//! out each window marked dirty, and Phase 3 dispatches the queued
//! callbacks under the in-observer flag. A drain started while another is in
//! its Phase 1, or after the reactive runtime diverged, does nothing.
//!
//! [`EmitState`] holds the queue, the two flags and the window registry;
//! its methods are the decisions of each phase. The caller performs the
//! work in between (running effects, laying out, invoking callbacks).
use std::collections::VecDeque;
use vstd::prelude::*;

verus! {

/// A callback argument owned by the queue.
#[derive(Clone, Debug)]
pub enum OwnedArg {
    I32(i32),
    Bool(bool),
    String(String),
}

/// The mathematical content of an [`OwnedArg`].
pub enum OwnedArgView {
    I32(i32),
    Bool(bool),
    String(Seq<char>),
}

impl View for OwnedArg {
    type V = OwnedArgView;

    open spec fn view(&self) -> OwnedArgView {
        match self {
            OwnedArg::I32(v) => OwnedArgView::I32(*v),
            OwnedArg::Bool(b) => OwnedArgView::Bool(*b),
            OwnedArg::String(s) => OwnedArgView::String(s@),
        }
    }
}

/// The views of a sequence of arguments.
pub open spec fn args_view(v: Seq<OwnedArg>) -> Seq<OwnedArgView> {
    v.map_values(|a: OwnedArg| a@)
}

/// A queued callback invocation.
#[derive(Debug)]
pub enum Pending {
    Observer { token: u64, value: OwnedArg },
    Signal { token: u64, args: Vec<OwnedArg> },
}

/// The mathematical content of a [`Pending`].
pub enum PendingView {
    Observer { token: u64, value: OwnedArgView },
    Signal { token: u64, args: Seq<OwnedArgView> },
}

impl View for Pending {
    type V = PendingView;

    open spec fn view(&self) -> PendingView {
        match self {
            Pending::Observer { token, value } => PendingView::Observer { token: *token, value: value@ },
            Pending::Signal { token, args } => PendingView::Signal { token: *token, args: args_view(args@) },
        }
    }
}

/// The views of a sequence of queued invocations.
pub open spec fn pendings_view(v: Seq<Pending>) -> Seq<PendingView> {
    v.map_values(|p: Pending| p@)
}

/// One observer invocation per token, each carrying `value`, in token order.
pub open spec fn observer_entries(tokens: Seq<u64>, value: OwnedArgView) -> Seq<PendingView> {
    tokens.map_values(|t: u64| PendingView::Observer { token: t, value: value })
}

/// One signal invocation per token, each carrying `args`, in token order.
pub open spec fn signal_entries(tokens: Seq<u64>, args: Seq<OwnedArgView>) -> Seq<PendingView> {
    tokens.map_values(|t: u64| PendingView::Signal { token: t, args: args })
}

/// `s` without the occurrences of `w`, order kept.
pub open spec fn without(s: Seq<u64>, w: u64) -> Seq<u64>
    decreases s.len(),
{
    if s.len() == 0 {
        Seq::empty()
    } else {
        let rest = without(s.drop_last(), w);
        if s.last() == w {
            rest
        } else {
            rest.push(s.last())
        }
    }
}

/// The index of the first `true`, or `v.len()`.
pub open spec fn first_true(v: Seq<bool>, i: int) -> int
    decreases v.len() - i,
{
    if i >= v.len() {
        v.len() as int
    } else if v[i] {
        i
    } else {
        first_true(v, i + 1)
    }
}

/// Emission state of one UI thread.
pub struct EmitState {
    queue: VecDeque<Pending>,
    in_drain: bool,
    in_observer_callback: bool,
    windows: Vec<u64>,
    dirty: Vec<u64>,
}

/// The mathematical content of an [`EmitState`].
pub struct EmitStateView {
    /// Queued invocations, first to run first.
    pub queue: Seq<PendingView>,
    /// Set while Phase 1 runs.
    pub in_drain: bool,
    /// Set while Phase 3 runs.
    pub in_observer_callback: bool,
    /// Live windows, in registration order.
    pub windows: Seq<u64>,
    /// Windows that need a layout pass, each once.
    pub dirty: Seq<u64>,
}

impl View for EmitState {
    type V = EmitStateView;

    closed spec fn view(&self) -> EmitStateView {
        EmitStateView {
            queue: pendings_view(self.queue@),
            in_drain: self.in_drain,
            in_observer_callback: self.in_observer_callback,
            windows: self.windows@,
            dirty: self.dirty@,
        }
    }
}

/// The state after queueing `entries` behind what is already queued.
pub open spec fn enqueue_spec(st: EmitStateView, entries: Seq<PendingView>) -> EmitStateView {
    EmitStateView { queue: st.queue + entries, ..st }
}

/// Phase 3 begins: the queued invocations, in order, and the state with an
/// empty queue and the observer flag set.
pub open spec fn observer_phase_spec(st: EmitStateView) -> (Seq<PendingView>, EmitStateView) {
    (st.queue, EmitStateView { queue: Seq::empty(), in_observer_callback: true, ..st })
}

impl EmitStateView {
    /// Every dirty window is registered, and none is listed twice.
    pub open spec fn wf(self) -> bool {
        &&& self.dirty.no_duplicates()
        &&& forall|i: int| 0 <= i < self.dirty.len() ==> self.windows.contains(#[trigger] self.dirty[i])
    }
}

proof fn lemma_without_push(s: Seq<u64>, x: u64, w: u64)
    ensures
        without(s.push(x), w) == if x == w {
            without(s, w)
        } else {
            without(s, w).push(x)
        },
{
    assert(s.push(x).drop_last() =~= s);
}

proof fn lemma_without_contains(s: Seq<u64>, w: u64, x: u64)
    ensures
        without(s, w).contains(x) <==> (s.contains(x) && x != w),
    decreases s.len(),
{
    if s.len() > 0 {
        let init = s.drop_last();
        lemma_without_contains(init, w, x);
        assert(s =~= init.push(s.last()));
        let r = without(init, w);
        if s.contains(x) && x != w {
            let k = choose|k: int| 0 <= k < s.len() && s[k] == x;
            if k < init.len() {
                assert(init[k] == x);
                let j = choose|j: int| 0 <= j < r.len() && r[j] == x;
                if s.last() != w {
                    assert(r.push(s.last())[j] == x);
                }
            } else {
                assert(r.push(s.last())[r.len() as int] == x);
            }
        }
        if without(s, w).contains(x) {
            let j = choose|j: int| 0 <= j < without(s, w).len() && without(s, w)[j] == x;
            if j < r.len() {
                assert(r[j] == x);
                let k = choose|k: int| 0 <= k < init.len() && init[k] == x;
                assert(s[k] == x);
            } else {
                assert(s[s.len() - 1] == x);
            }
        }
    }
}

proof fn lemma_without_no_duplicates(s: Seq<u64>, w: u64)
    requires
        s.no_duplicates(),
    ensures
        without(s, w).no_duplicates(),
    decreases s.len(),
{
    if s.len() > 0 {
        let init = s.drop_last();
        assert(init.no_duplicates());
        lemma_without_no_duplicates(init, w);
        let r = without(init, w);
        if s.last() != w {
            lemma_without_contains(init, w, s.last());
            if init.contains(s.last()) {
                let k = choose|k: int| 0 <= k < init.len() && init[k] == s.last();
                assert(s[k] == s[s.len() - 1]);
            }
            assert forall|a: int, b: int| 0 <= a < r.push(s.last()).len() && 0 <= b < r.push(s.last()).len() && a != b
                implies r.push(s.last())[a] != r.push(s.last())[b] by {
                if a == r.len() {
                    assert(!r.contains(s.last()));
                    assert(r[b] != s.last());
                } else if b == r.len() {
                    assert(!r.contains(s.last()));
                    assert(r[a] != s.last());
                }
            }
        }
    }
}

/// `v` without the occurrences of `w`, order kept.
fn remove_all(v: &Vec<u64>, w: u64) -> (r: Vec<u64>)
    ensures
        r@ == without(v@, w),
{
    let mut kept: Vec<u64> = Vec::new();
    let mut i: usize = 0;
    while i < v.len()
        invariant
            i <= v@.len(),
            kept@ == without(v@.subrange(0, i as int), w),
        decreases v@.len() - i,
    {
        let x = v[i];
        proof {
            lemma_without_push(v@.subrange(0, i as int), x, w);
            assert(v@.subrange(0, i as int + 1) =~= v@.subrange(0, i as int).push(x));
        }
        if x != w {
            kept.push(x);
        }
        i += 1;
    }
    assert(v@.subrange(0, v@.len() as int) =~= v@);
    kept
}

/// A copy of an argument.
pub fn copy_arg(a: &OwnedArg) -> (r: OwnedArg)
    ensures
        r@ == a@,
{
    match a {
        OwnedArg::I32(v) => OwnedArg::I32(*v),
        OwnedArg::Bool(b) => OwnedArg::Bool(*b),
        OwnedArg::String(s) => OwnedArg::String(s.clone()),
    }
}

/// A copy of an argument list.
pub fn copy_args(v: &Vec<OwnedArg>) -> (r: Vec<OwnedArg>)
    ensures
        args_view(r@) == args_view(v@),
{
    let mut out: Vec<OwnedArg> = Vec::new();
    let mut i: usize = 0;
    while i < v.len()
        invariant
            i <= v@.len(),
            out@.len() == i,
            forall|j: int| 0 <= j < i ==> (#[trigger] out@[j])@ == v@[j]@,
        decreases v@.len() - i,
    {
        let a = copy_arg(&v[i]);
        out.push(a);
        i += 1;
    }
    assert(args_view(out@) =~= args_view(v@));
    out
}

impl EmitState {
    /// No queued work, no window, neither flag set.
    pub fn new() -> (s: Self)
        ensures
            s@.wf(),
            s@.queue.len() == 0,
            !s@.in_drain,
            !s@.in_observer_callback,
            s@.windows.len() == 0,
            s@.dirty.len() == 0,
    {
        EmitState {
            queue: VecDeque::new(),
            in_drain: false,
            in_observer_callback: false,
            windows: Vec::new(),
            dirty: Vec::new(),
        }
    }

    /// Whether Phase 1 is running.
    pub fn in_drain(&self) -> (b: bool)
        ensures
            b == self@.in_drain,
    {
        self.in_drain
    }

    /// Whether Phase 3 is running.
    pub fn in_observer_callback(&self) -> (b: bool)
        ensures
            b == self@.in_observer_callback,
    {
        self.in_observer_callback
    }

    /// The number of queued invocations and of dirty windows, read together.
    pub fn pending_counts(&self) -> (r: (usize, usize))
        ensures
            r.0 == self@.queue.len(),
            r.1 == self@.dirty.len(),
    {
        (self.queue.len(), self.dirty.len())
    }

    /// Record a newly created window.
    pub fn register_window(&mut self, window: u64)
        requires
            old(self)@.wf(),
        ensures
            final(self)@.wf(),
            final(self)@.windows == old(self)@.windows.push(window),
            final(self)@.dirty == old(self)@.dirty,
            final(self)@.queue == old(self)@.queue,
            final(self)@.in_drain == old(self)@.in_drain,
            final(self)@.in_observer_callback == old(self)@.in_observer_callback,
    {
        self.windows.push(window);
        proof {
            assert forall|i: int| 0 <= i < self@.dirty.len() implies self@.windows.contains(
                #[trigger] self@.dirty[i],
            ) by {
                let x = self@.dirty[i];
                assert(old(self)@.windows.contains(x));
                let k = choose|k: int| 0 <= k < old(self)@.windows.len() && old(self)@.windows[k] == x;
                assert(self@.windows[k] == x);
            }
        }
    }

    /// Forget a destroyed window: it leaves the registry and the dirty set.
    pub fn unregister_window(&mut self, window: u64)
        requires
            old(self)@.wf(),
        ensures
            final(self)@.wf(),
            final(self)@.windows == without(old(self)@.windows, window),
            final(self)@.dirty == without(old(self)@.dirty, window),
            final(self)@.queue == old(self)@.queue,
            final(self)@.in_drain == old(self)@.in_drain,
            final(self)@.in_observer_callback == old(self)@.in_observer_callback,
    {
        let kept_windows = remove_all(&self.windows, window);
        let kept_dirty = remove_all(&self.dirty, window);
        proof {
            lemma_without_no_duplicates(self.dirty@, window);
            assert forall|i: int| 0 <= i < kept_dirty@.len() implies without(self.windows@, window).contains(
                #[trigger] kept_dirty@[i],
            ) by {
                let x = kept_dirty@[i];
                assert(kept_dirty@.contains(x));
                lemma_without_contains(self.dirty@, window, x);
                let k = choose|k: int| 0 <= k < self.dirty@.len() && self.dirty@[k] == x;
                assert(self.windows@.contains(self.dirty@[k]));
                lemma_without_contains(self.windows@, window, x);
            }
        }
        self.windows = kept_windows;
        self.dirty = kept_dirty;
    }

    /// Mark for a layout pass the first window, in registration order, whose
    /// tree holds the widget (`holds_widget[i]` tells it of the `i`-th window).
    /// A widget in no window's tree marks nothing.
    pub fn mark_layout_dirty_for(&mut self, holds_widget: &Vec<bool>)
        requires
            old(self)@.wf(),
            holds_widget@.len() == old(self)@.windows.len(),
        ensures
            final(self)@.wf(),
            ({
                let i = first_true(holds_widget@, 0);
                if i < holds_widget@.len() {
                    let w = old(self)@.windows[i];
                    final(self)@.dirty == if old(self)@.dirty.contains(w) {
                        old(self)@.dirty
                    } else {
                        old(self)@.dirty.push(w)
                    }
                } else {
                    final(self)@.dirty == old(self)@.dirty
                }
            }),
            final(self)@.windows == old(self)@.windows,
            final(self)@.queue == old(self)@.queue,
            final(self)@.in_drain == old(self)@.in_drain,
            final(self)@.in_observer_callback == old(self)@.in_observer_callback,
    {
        let mut i: usize = 0;
        while i < holds_widget.len() && !holds_widget[i]
            invariant
                i <= holds_widget@.len(),
                first_true(holds_widget@, i as int) == first_true(holds_widget@, 0),
            decreases holds_widget@.len() - i,
        {
            i += 1;
        }
        if i < holds_widget.len() {
            let w = self.windows[i];
            let mut present = false;
            let mut k: usize = 0;
            while k < self.dirty.len()
                invariant
                    k <= self.dirty@.len(),
                    present <==> exists|m: int| 0 <= m < k && self.dirty@[m] == w,
                decreases self.dirty@.len() - k,
            {
                if self.dirty[k] == w {
                    present = true;
                }
                k += 1;
            }
            if !present {
                let ghost before = self.dirty@;
                self.dirty.push(w);
                proof {
                    assert(old(self)@.windows[i as int] == w);
                    assert(old(self)@.windows.contains(w));
                    assert forall|a: int, b: int|
                        0 <= a < self@.dirty.len() && 0 <= b < self@.dirty.len() && a != b implies self@.dirty[a]
                        != self@.dirty[b] by {
                        if a == before.len() {
                            assert(!before.contains(w));
                            assert(before[b] != w);
                        } else if b == before.len() {
                            assert(!before.contains(w));
                            assert(before[a] != w);
                        }
                    }
                }
            }
        }
    }

    /// Queue one observer invocation per token, each with its own copy of
    /// `value`. Nothing is queued for an empty token list.
    pub fn enqueue_property_change(&mut self, tokens: &Vec<u64>, value: &OwnedArg)
        ensures
            final(self)@ == enqueue_spec(old(self)@, observer_entries(tokens@, value@)),
    {
        let ghost start = pendings_view(self.queue@);
        let mut i: usize = 0;
        while i < tokens.len()
            invariant
                i <= tokens@.len(),
                pendings_view(self.queue@) == start + observer_entries(tokens@.subrange(0, i as int), value@),
                self.windows@ == old(self).windows@,
                self.dirty@ == old(self).dirty@,
                self.in_drain == old(self).in_drain,
                self.in_observer_callback == old(self).in_observer_callback,
                start == pendings_view(old(self).queue@),
            decreases tokens@.len() - i,
        {
            let v = copy_arg(value);
            let ghost before = self.queue@;
            self.queue.push_back(Pending::Observer { token: tokens[i], value: v });
            i += 1;
            proof {
                assert(pendings_view(self.queue@) =~= pendings_view(before).push(
                    PendingView::Observer { token: tokens@[i - 1], value: value@ },
                ));
                assert(observer_entries(tokens@.subrange(0, i as int), value@) =~= observer_entries(
                    tokens@.subrange(0, i - 1),
                    value@,
                ).push(PendingView::Observer { token: tokens@[i - 1], value: value@ }));
                assert(pendings_view(self.queue@) =~= start + observer_entries(
                    tokens@.subrange(0, i as int),
                    value@,
                ));
            }
        }
        assert(tokens@.subrange(0, tokens@.len() as int) =~= tokens@);
    }

    /// Queue one signal invocation per token, each with its own copy of
    /// `args`. Nothing is queued for an empty token list.
    pub fn enqueue_signal(&mut self, tokens: &Vec<u64>, args: &Vec<OwnedArg>)
        ensures
            final(self)@ == enqueue_spec(old(self)@, signal_entries(tokens@, args_view(args@))),
    {
        let ghost start = pendings_view(self.queue@);
        let ghost av = args_view(args@);
        let mut i: usize = 0;
        while i < tokens.len()
            invariant
                i <= tokens@.len(),
                pendings_view(self.queue@) == start + signal_entries(tokens@.subrange(0, i as int), av),
                self.windows@ == old(self).windows@,
                self.dirty@ == old(self).dirty@,
                self.in_drain == old(self).in_drain,
                self.in_observer_callback == old(self).in_observer_callback,
                start == pendings_view(old(self).queue@),
                av == args_view(args@),
            decreases tokens@.len() - i,
        {
            let a = copy_args(args);
            let ghost before = self.queue@;
            self.queue.push_back(Pending::Signal { token: tokens[i], args: a });
            i += 1;
            proof {
                assert(pendings_view(self.queue@) =~= pendings_view(before).push(
                    PendingView::Signal { token: tokens@[i - 1], args: av },
                ));
                assert(signal_entries(tokens@.subrange(0, i as int), av) =~= signal_entries(
                    tokens@.subrange(0, i - 1),
                    av,
                ).push(PendingView::Signal { token: tokens@[i - 1], args: av }));
                assert(pendings_view(self.queue@) =~= start + signal_entries(
                    tokens@.subrange(0, i as int),
                    av,
                ));
            }
        }
        assert(tokens@.subrange(0, tokens@.len() as int) =~= tokens@);
    }

    /// Start a drain: `true` (and Phase 1 begins) unless Phase 1 is already
    /// running or the reactive runtime has diverged, in which case nothing
    /// changes and the queued work stays for the outer drain.
    pub fn drain_if_outermost(&mut self, diverged: bool) -> (run: bool)
        ensures
            run == (!old(self)@.in_drain && !diverged),
            run ==> final(self)@ == (EmitStateView { in_drain: true, ..old(self)@ }),
            !run ==> final(self)@ == old(self)@,
    {
        if self.in_drain || diverged {
            return false;
        }
        self.in_drain = true;
        true
    }

    /// End Phase 1.
    pub fn end_mutation_phase(&mut self)
        ensures
            final(self)@ == (EmitStateView { in_drain: false, ..old(self)@ }),
    {
        self.in_drain = false;
    }

    /// Phase 2: hand over the windows that need a layout pass, each once,
    /// and clear the dirty set.
    pub fn take_dirty_windows(&mut self) -> (dirty: Vec<u64>)
        requires
            old(self)@.wf(),
        ensures
            dirty@ == old(self)@.dirty,
            final(self)@ == (EmitStateView { dirty: Seq::empty(), ..old(self)@ }),
            final(self)@.wf(),
    {
        let mut taken: Vec<u64> = Vec::new();
        std::mem::swap(&mut taken, &mut self.dirty);
        taken
    }

    /// Start Phase 3 and hand over every invocation queued so far, first in
    /// first out. The queue is left empty, so an invocation queued while
    /// these run waits for the next drain.
    #[verifier::loop_isolation(false)]
    pub fn begin_observer_phase(&mut self) -> (batch: Vec<Pending>)
        ensures
            (pendings_view(batch@), final(self)@) == observer_phase_spec(old(self)@),
    {
        self.in_observer_callback = true;
        let mut batch: Vec<Pending> = Vec::new();
        let ghost all = pendings_view(self.queue@);
        loop
            invariant
                pendings_view(batch@) + pendings_view(self.queue@) == all,
                all == old(self)@.queue,
                self.in_observer_callback,
                self.in_drain == old(self).in_drain,
                self.windows@ == old(self).windows@,
                self.dirty@ == old(self).dirty@,
            decreases self.queue@.len(),
        {
            let ghost before_q = self.queue@;
            let ghost before_b = batch@;
            match self.queue.pop_front() {
                Some(p) => {
                    batch.push(p);
                    proof {
                        assert(pendings_view(batch@) =~= pendings_view(before_b).push(p@));
                        assert(pendings_view(self.queue@) =~= pendings_view(before_q).drop_first());
                        assert(pendings_view(batch@) + pendings_view(self.queue@) =~= pendings_view(before_b)
                            + pendings_view(before_q));
                    }
                },
                None => {
                    proof {
                        assert(pendings_view(self.queue@) =~= Seq::<PendingView>::empty());
                        assert(pendings_view(batch@) =~= all);
                        assert(self@.queue =~= Seq::<PendingView>::empty());
                    }
                    break;
                },
            }
        }
        batch
    }

    /// The next queued invocation, first in first out; `None` when the
    /// queue is empty.
    pub fn next_pending(&mut self) -> (p: Option<Pending>)
        ensures
            match p {
                Some(x) => old(self)@.queue.len() > 0 && x@ == old(self)@.queue[0] && final(self)@ == (
                EmitStateView { queue: old(self)@.queue.drop_first(), ..old(self)@ }),
                None => old(self)@.queue.len() == 0 && final(self)@ == old(self)@,
            },
    {
        let ghost before = self.queue@;
        let p = self.queue.pop_front();
        proof {
            if p is Some {
                assert(pendings_view(self.queue@) =~= pendings_view(before).drop_first());
            }
        }
        p
    }

    /// End Phase 3.
    pub fn end_observer_phase(&mut self)
        ensures
            final(self)@ == (EmitStateView { in_observer_callback: false, ..old(self)@ }),
    {
        self.in_observer_callback = false;
    }
}

/// Phase 3 runs exactly what was queued when it began: an invocation queued
/// while it runs is not run by it, and is all the next drain finds.
pub proof fn law_observer_phase_defers_new_emissions(st: EmitStateView, entries: Seq<PendingView>)
    ensures
        observer_phase_spec(st).0 == st.queue,
        enqueue_spec(observer_phase_spec(st).1, entries).queue == entries,
{
    assert(Seq::<PendingView>::empty() + entries =~= entries);
}

/// Phase 2 lays out only live windows, and each of them once: in every
/// well-formed state the dirty windows are registered and distinct.
pub proof fn law_layout_once_per_live_dirty_window(st: EmitStateView)
    requires
        st.wf(),
    ensures
        st.dirty.no_duplicates(),
        forall|i: int| 0 <= i < st.dirty.len() ==> st.windows.contains(#[trigger] st.dirty[i]),
{
}

/// The queue is first in, first out: what is queued comes out after
/// everything queued before it, in the order it went in.
pub proof fn law_queue_is_first_in_first_out(st: EmitStateView, entries: Seq<PendingView>)
    ensures
        enqueue_spec(st, entries).queue.subrange(0, st.queue.len() as int) == st.queue,
        enqueue_spec(st, entries).queue.skip(st.queue.len() as int) == entries,
{
    assert(enqueue_spec(st, entries).queue.subrange(0, st.queue.len() as int) =~= st.queue);
    assert(enqueue_spec(st, entries).queue.skip(st.queue.len() as int) =~= entries);
}

} // verus!
