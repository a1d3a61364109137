//! Focus traversal core: an index-based annotated tree, the per-window focus
//! state, and the rules that pick the next focus target.
//!
//! The core never mutates the tree and knows nothing about how an event
//! reached it; given a tree, its annotations and the current focus state, it
//! answers what the next focus target is.
use std::collections::BTreeMap;
use vstd::prelude::*;

verus! {

broadcast use vstd::std_specs::btree::group_btree_axioms, vstd::laws_cmp::group_laws_cmp;

/// Index into a [`FocusTree`]'s nodes. Stable only for one tree instance.
pub type FocusId = usize;

/// What a node is, for traversal purposes.
#[derive(Clone, Copy, PartialEq, Eq, Debug, Structural)]
pub enum FocusRole {
    /// Structure only: never focused, always descended into.
    Container,
    /// A single Tab stop, treated as a traversal leaf.
    Stop,
    /// A group of stops that Tab treats as one stop and that arrow keys move
    /// within. Entering the group lands on the remembered member.
    Group,
    /// While entered, traversal is confined to this subtree; while not
    /// entered, its stops are not enumerated at all.
    ModalScope,
    /// A list whose items are activated without moving focus.
    ActiveItemList,
    /// An item inside an [`FocusRole::ActiveItemList`].
    ActiveItem,
}

#[derive(Clone, Debug)]
pub struct FocusNode {
    pub parent: Option<FocusId>,
    pub children: Vec<FocusId>,
    pub role: FocusRole,
    /// A disabled stop is skipped by traversal.
    pub enabled: bool,
}

/// The annotated tree. Node 0 is the root by construction.
#[derive(Debug)]
pub struct FocusTree {
    nodes: Vec<FocusNode>,
}

/// One entered modal scope, with the focus to restore when it leaves.
#[derive(Clone, Copy, PartialEq, Eq, Debug, Structural)]
pub struct ModalEntry {
    pub scope: FocusId,
    pub restore_to: Option<FocusId>,
}

/// The mutable focus state for one window.
#[derive(Clone, Debug)]
pub struct FocusState {
    focused: Option<FocusId>,
    /// Per-group memory of the last member focused inside it.
    group_memory: BTreeMap<FocusId, FocusId>,
    /// Per-list active item, independent of `focused`.
    active_item: BTreeMap<FocusId, FocusId>,
    /// Entered modal scopes, innermost last.
    modal_stack: Vec<ModalEntry>,
}

/// The mathematical content of a [`FocusState`].
pub struct FocusStateView {
    pub focused: Option<FocusId>,
    pub group_memory: Map<FocusId, FocusId>,
    pub active_item: Map<FocusId, FocusId>,
    pub modal_stack: Seq<ModalEntry>,
}

impl View for FocusState {
    type V = FocusStateView;

    closed spec fn view(&self) -> FocusStateView {
        FocusStateView {
            focused: self.focused,
            group_memory: self.group_memory@,
            active_item: self.active_item@,
            modal_stack: self.modal_stack@,
        }
    }
}

#[derive(Clone, Copy, PartialEq, Eq, Debug, Structural)]
pub enum TabDirection {
    Forward,
    Backward,
}

#[derive(Clone, Copy, PartialEq, Eq, Debug, Structural)]
pub enum Arrow {
    Prev,
    Next,
}

/// What an arrow key did.
#[derive(Clone, Copy, PartialEq, Eq, Debug, Structural)]
pub enum ArrowOutcome {
    /// Focus moved within a group.
    MovedFocus(FocusId),
    /// The active item of `list` moved to `item`; focus did not move.
    MovedActiveItem { list: FocusId, item: FocusId },
    /// The core has no arrow semantics here; the caller decides.
    NotHandled,
}

// ── Specification helpers on sequences ──────────────────────────────────

/// The first index at which `x` occurs in `s`.
pub open spec fn first_index(s: Seq<FocusId>, x: FocusId) -> Option<int> {
    if s.contains(x) {
        Some(choose|i: int| 0 <= i < s.len() && s[i] == x && forall|k: int| 0 <= k < i ==> s[k] != x)
    } else {
        None
    }
}

/// The index reached from `current` by one step in a cyclic list of `len`
/// entries; with no current index, forward starts at the first entry and
/// backward at the last.
pub open spec fn cycle_index(current: Option<int>, forward: bool, len: int) -> int {
    match current {
        None => if forward { 0 } else { len - 1 },
        Some(i) => if forward { (i + 1) % len } else { (i + len - 1) % len },
    }
}

/// The index of the modal entry on top of the stack, as a traversal root.
pub open spec fn traversal_root_of(st: FocusStateView) -> FocusId {
    if st.modal_stack.len() == 0 {
        0
    } else {
        st.modal_stack.last().scope
    }
}

/// Whether `scope` is one of the entered modal scopes.
pub open spec fn is_entered_spec(st: FocusStateView, scope: FocusId) -> bool {
    exists|i: int| 0 <= i < st.modal_stack.len() && #[trigger] st.modal_stack[i].scope == scope
}

/// Two states agree on everything but the modal stack.
pub open spec fn with_modal_stack(st: FocusStateView, stack: Seq<ModalEntry>) -> FocusStateView {
    FocusStateView { modal_stack: stack, ..st }
}

/// Proof that `first_index` names the first occurrence.
pub proof fn lemma_first_index(s: Seq<FocusId>, x: FocusId, i: int)
    requires
        0 <= i < s.len(),
        s[i] == x,
        forall|k: int| 0 <= k < i ==> s[k] != x,
    ensures
        first_index(s, x) == Some(i),
{
    assert(s.contains(x));
    let j = choose|j: int| 0 <= j < s.len() && s[j] == x && forall|k: int| 0 <= k < j ==> s[k] != x;
    assert(0 <= j < s.len() && s[j] == x && forall|k: int| 0 <= k < j ==> s[k] != x);
    if j < i {
        assert(s[j] != x);
    }
    if i < j {
        assert(s[i] != x);
    }
}

/// `first_index` names a position of `x` in `s`.
pub proof fn lemma_first_index_in_range(s: Seq<FocusId>, x: FocusId)
    ensures
        first_index(s, x) matches Some(i) ==> 0 <= i < s.len() && s[i] == x,
{
    if s.contains(x) {
        let j = choose|j: int| 0 <= j < s.len() && s[j] == x;
        lemma_first_occurrence_exists(s, x, j);
    }
}

/// An occurrence at `j` means there is a first occurrence, at or before `j`.
proof fn lemma_first_occurrence_exists(s: Seq<FocusId>, x: FocusId, j: int)
    requires
        0 <= j < s.len(),
        s[j] == x,
    ensures
        first_index(s, x) matches Some(i) && 0 <= i <= j && s[i] == x,
    decreases j,
{
    if exists|k: int| 0 <= k < j && s[k] == x {
        let k = choose|k: int| 0 <= k < j && s[k] == x;
        lemma_first_occurrence_exists(s, x, k);
    } else {
        lemma_first_index(s, x, j);
    }
}

/// A step of `cycle_index` from an index in range stays in range.
pub proof fn lemma_cycle_in_range(current: Option<int>, forward: bool, len: int)
    requires
        len > 0,
        current matches Some(i) ==> 0 <= i < len,
    ensures
        0 <= cycle_index(current, forward, len) < len,
{
    if let Some(i) = current {
        assert(0 <= (i + 1) % len < len) by (nonlinear_arith)
            requires
                len > 0,
                0 <= i < len,
        ;
        assert(0 <= (i + len - 1) % len < len) by (nonlinear_arith)
            requires
                len > 0,
                0 <= i < len,
        ;
    }
}

/// The first index of `x` in `s`, computed.
fn position_of(s: &Vec<FocusId>, x: FocusId) -> (r: Option<usize>)
    ensures
        r matches Some(i) ==> i < s@.len() && first_index(s@, x) == Some(i as int),
        r is None ==> first_index(s@, x) is None,
{
    let mut i: usize = 0;
    while i < s.len()
        invariant
            0 <= i <= s.len(),
            forall|k: int| 0 <= k < i ==> s@[k] != x,
        decreases s.len() - i,
    {
        if s[i] == x {
            proof {
                lemma_first_index(s@, x, i as int);
            }
            return Some(i);
        }
        i += 1;
    }
    assert(!s@.contains(x));
    None
}

/// Whether `x` occurs in `s`, computed.
fn contains_id(s: &Vec<FocusId>, x: FocusId) -> (b: bool)
    ensures
        b == s@.contains(x),
{
    let mut i: usize = 0;
    while i < s.len()
        invariant
            0 <= i <= s.len(),
            forall|k: int| 0 <= k < i ==> s@[k] != x,
        decreases s.len() - i,
    {
        if s[i] == x {
            return true;
        }
        i += 1;
    }
    false
}

/// `cycle_index`, computed.
fn cycle_exec(current: Option<usize>, forward: bool, len: usize) -> (r: usize)
    requires
        len > 0,
        current matches Some(i) ==> i < len,
    ensures
        r as int == cycle_index(
            match current {
                Some(i) => Some(i as int),
                None => None,
            },
            forward,
            len as int,
        ),
        r < len,
{
    match current {
        None => if forward {
            0
        } else {
            len - 1
        },
        Some(i) => if forward {
            (i + 1) % len
        } else if i == 0 {
            assert((0 + len - 1) % (len as int) == len - 1) by (nonlinear_arith)
                requires
                    len > 0,
            ;
            len - 1
        } else {
            assert((i + len - 1) % (len as int) == i - 1) by (nonlinear_arith)
                requires
                    0 < i < len,
            ;
            i - 1
        },
    }
}

// ── The tree's mathematical content ─────────────────────────────────────

impl FocusTree {
    pub closed spec fn spec_len(&self) -> int {
        self.nodes@.len() as int
    }

    pub closed spec fn spec_parent(&self, id: int) -> Option<FocusId> {
        self.nodes@[id].parent
    }

    pub closed spec fn spec_children(&self, id: int) -> Seq<FocusId> {
        self.nodes@[id].children@
    }

    pub closed spec fn spec_role(&self, id: int) -> FocusRole {
        self.nodes@[id].role
    }

    pub closed spec fn spec_enabled(&self, id: int) -> bool {
        self.nodes@[id].enabled
    }

    /// Node 0 is the root and the only node without a parent; every parent
    /// precedes its children, a node's children name it as parent, and every
    /// node is among its parent's children (see `linked`).
    pub open spec fn wf(&self) -> bool {
        &&& self.linked()
        &&& self.spec_len() <= usize::MAX
        &&& forall|i: int| 0 <= i < self.spec_len() ==> (#[trigger] self.spec_parent(i) is None <==> i == 0)
        &&& forall|i: int|
            0 <= i < self.spec_len() && #[trigger] self.spec_parent(i) is Some ==> self.spec_parent(i)->0 < i
        &&& forall|i: int, j: int|
            0 <= i < self.spec_len() && 0 <= j < self.spec_children(i).len() ==> {
                let c = #[trigger] self.spec_children(i)[j];
                &&& i < c < self.spec_len()
                &&& self.spec_parent(c as int) == Some(i as FocusId)
            }
    }

    /// A state whose ids all name nodes of this tree.
    pub open spec fn valid_state(&self, st: FocusStateView) -> bool {
        &&& st.focused matches Some(f) ==> f < self.spec_len()
        &&& forall|i: int|
            0 <= i < st.modal_stack.len() ==> {
                let e = #[trigger] st.modal_stack[i];
                &&& e.scope < self.spec_len()
                &&& e.restore_to matches Some(r) ==> r < self.spec_len()
            }
    }

    /// Every node but the root is listed among its parent's children, and
    /// each children list is in increasing order, as `push` builds them.
    pub open spec fn linked(&self) -> bool {
        &&& forall|i: int|
            0 < i < self.spec_len() && #[trigger] self.spec_parent(i) is Some ==> self.spec_children(
                self.spec_parent(i)->0 as int,
            ).contains(i as FocusId)
        &&& forall|i: int, a: int, b: int|
            0 <= i < self.spec_len() && 0 <= a < b < self.spec_children(i).len() ==> #[trigger] self.spec_children(
                i,
            )[a] < #[trigger] self.spec_children(i)[b]
    }

    /// The focused id, if any, names a node of this tree.
    pub open spec fn focus_in_tree(&self, st: FocusStateView) -> bool {
        st.focused matches Some(f) ==> f < self.spec_len()
    }

    /// The root of the traversal domain (the innermost entered scope, or node
    /// 0 when none is entered) names a node of this tree.
    pub open spec fn domain_in_tree(&self, st: FocusStateView) -> bool {
        traversal_root_of(st) < self.spec_len()
    }

    /// `id` is `anc` or lies below it.
    pub open spec fn is_desc(&self, id: int, anc: int) -> bool
        decreases id,
    {
        if id == anc {
            true
        } else if !(0 <= id < self.spec_len()) {
            false
        } else {
            match self.spec_parent(id) {
                None => false,
                Some(p) => if p < id {
                    self.is_desc(p as int, anc)
                } else {
                    false
                },
            }
        }
    }

    /// The nearest ancestor of `id` (or `id` itself) with `role`.
    pub open spec fn nearest_spec(&self, id: int, role: FocusRole) -> Option<FocusId>
        decreases id,
    {
        if !(0 <= id < self.spec_len()) {
            None
        } else if self.spec_role(id) == role {
            Some(id as FocusId)
        } else {
            match self.spec_parent(id) {
                None => None,
                Some(p) => if p < id {
                    self.nearest_spec(p as int, role)
                } else {
                    None
                },
            }
        }
    }

    /// The Tab stops `id` contributes, in tree order. A `Stop` or `Group`
    /// contributes itself (when enabled) and is not descended into; a
    /// not-entered `ModalScope`, an `ActiveItemList` and an `ActiveItem`
    /// contribute nothing; anything else, and the root of the walk, contributes
    /// the stops of its children.
    pub open spec fn stops_from(&self, st: FocusStateView, id: int, is_root: bool) -> Seq<FocusId>
        decreases self.spec_len() - id, self.spec_children(id).len() + 1,
    {
        if !(0 <= id < self.spec_len()) {
            Seq::empty()
        } else {
            let role = self.spec_role(id);
            if !is_root && (role == FocusRole::Stop || role == FocusRole::Group) {
                if self.spec_enabled(id) {
                    seq![id as FocusId]
                } else {
                    Seq::empty()
                }
            } else if !is_root && role == FocusRole::ModalScope && !is_entered_spec(st, id as FocusId) {
                Seq::empty()
            } else if !is_root && (role == FocusRole::ActiveItemList || role == FocusRole::ActiveItem) {
                Seq::empty()
            } else {
                self.stops_children(st, id, self.spec_children(id).len() as int)
            }
        }
    }

    /// The stops contributed by the first `k` children of `id`.
    pub open spec fn stops_children(&self, st: FocusStateView, id: int, k: int) -> Seq<FocusId>
        decreases self.spec_len() - id, k,
    {
        if k <= 0 || k > self.spec_children(id).len() {
            Seq::empty()
        } else {
            let c = self.spec_children(id)[k - 1];
            let rest = self.stops_children(st, id, k - 1);
            if id < c < self.spec_len() {
                rest + self.stops_from(st, c as int, false)
            } else {
                rest
            }
        }
    }

    /// The Tab stops inside `root`, in tree order.
    pub open spec fn tab_stops_spec(&self, st: FocusStateView, root: int) -> Seq<FocusId> {
        self.stops_from(st, root, true)
    }

    /// The group members `id` contributes: an enabled `Stop` is a member, a
    /// disabled `Stop` or a nested `Group` contributes nothing, anything else
    /// contributes its children's members.
    pub open spec fn members_from(&self, id: int) -> Seq<FocusId>
        decreases self.spec_len() - id, self.spec_children(id).len() + 1,
    {
        if !(0 <= id < self.spec_len()) {
            Seq::empty()
        } else {
            let role = self.spec_role(id);
            if role == FocusRole::Stop && self.spec_enabled(id) {
                seq![id as FocusId]
            } else if role == FocusRole::Stop || role == FocusRole::Group {
                Seq::empty()
            } else {
                self.members_children(id, self.spec_children(id).len() as int)
            }
        }
    }

    /// The members contributed by the first `k` children of `id`.
    pub open spec fn members_children(&self, id: int, k: int) -> Seq<FocusId>
        decreases self.spec_len() - id, k,
    {
        if k <= 0 || k > self.spec_children(id).len() {
            Seq::empty()
        } else {
            let c = self.spec_children(id)[k - 1];
            let rest = self.members_children(id, k - 1);
            if id < c < self.spec_len() {
                rest + self.members_from(c as int)
            } else {
                rest
            }
        }
    }

    /// The members of a group, in tree order.
    pub open spec fn group_members_spec(&self, group: int) -> Seq<FocusId> {
        self.members_children(group, self.spec_children(group).len() as int)
    }

    /// The active-item list found below `id` by a depth-first walk that
    /// starts from `found`: an already-found list stops the walk, and a child
    /// that is itself a list ends it with that child.
    pub open spec fn find_list(&self, id: int, found: Option<FocusId>) -> Option<FocusId>
        decreases self.spec_len() - id, self.spec_children(id).len() + 1,
    {
        if found is Some || !(0 <= id < self.spec_len()) {
            found
        } else {
            self.find_list_children(id, 0, found)
        }
    }

    /// The walk of `find_list` over the children of `id` from index `j` on.
    pub open spec fn find_list_children(&self, id: int, j: int, found: Option<FocusId>) -> Option<FocusId>
        decreases self.spec_len() - id, self.spec_children(id).len() - j,
    {
        if j < 0 || j >= self.spec_children(id).len() {
            found
        } else {
            let c = self.spec_children(id)[j];
            if 0 <= c < self.spec_len() && self.spec_role(c as int) == FocusRole::ActiveItemList {
                Some(c)
            } else {
                let f2 = if id < c < self.spec_len() {
                    self.find_list(c as int, found)
                } else {
                    found
                };
                self.find_list_children(id, j + 1, f2)
            }
        }
    }

    /// The enabled `ActiveItem` children among the first `k` children of `list`.
    pub open spec fn active_items_upto(&self, list: int, k: int) -> Seq<FocusId>
        decreases k,
    {
        if k <= 0 || k > self.spec_children(list).len() {
            Seq::empty()
        } else {
            let c = self.spec_children(list)[k - 1];
            let rest = self.active_items_upto(list, k - 1);
            if 0 <= c < self.spec_len() && self.spec_role(c as int) == FocusRole::ActiveItem
                && self.spec_enabled(c as int) {
                rest.push(c)
            } else {
                rest
            }
        }
    }

    /// The enabled `ActiveItem` children of `list`.
    pub open spec fn active_items_spec(&self, list: int) -> Seq<FocusId> {
        self.active_items_upto(list, self.spec_children(list).len() as int)
    }

    /// Landing on a stop: a `Group` resolves to its remembered member when
    /// that is still one of its members, else its first member, else itself.
    pub open spec fn resolve_stop_spec(&self, st: FocusStateView, stop: FocusId) -> FocusId {
        if self.spec_role(stop as int) != FocusRole::Group {
            stop
        } else {
            let members = self.group_members_spec(stop as int);
            if st.group_memory.contains_key(stop) && members.contains(st.group_memory[stop]) {
                st.group_memory[stop]
            } else if members.len() > 0 {
                members[0]
            } else {
                stop
            }
        }
    }

    /// Which entry of `stops` the focused node belongs to: itself, or its
    /// nearest enclosing group.
    pub open spec fn stop_index_spec(&self, stops: Seq<FocusId>, focused: FocusId) -> Option<int> {
        match first_index(stops, focused) {
            Some(i) => Some(i),
            None => match self.nearest_spec(focused as int, FocusRole::Group) {
                None => None,
                Some(g) => first_index(stops, g),
            },
        }
    }

    /// The first Tab stop of the current domain, resolved.
    pub open spec fn initial_focus_spec(&self, st: FocusStateView) -> Option<FocusId> {
        let stops = self.tab_stops_spec(st, traversal_root_of(st) as int);
        if stops.len() == 0 {
            None
        } else {
            Some(self.resolve_stop_spec(st, stops[0]))
        }
    }

    /// The focus after Tab (`Forward`) or Shift+Tab (`Backward`): the
    /// neighbouring stop of the current one in the domain's stop list,
    /// wrapping at both ends, resolved; `None` when the domain has no stop.
    pub open spec fn tab_spec(&self, st: FocusStateView, dir: TabDirection) -> Option<FocusId> {
        let stops = self.tab_stops_spec(st, traversal_root_of(st) as int);
        if stops.len() == 0 {
            None
        } else {
            let current = match st.focused {
                None => None,
                Some(f) => self.stop_index_spec(stops, f),
            };
            let next = cycle_index(current, dir == TabDirection::Forward, stops.len() as int);
            Some(self.resolve_stop_spec(st, stops[next]))
        }
    }

    /// Arrow-key semantics: if the focused node owns an active-item list the
    /// arrow moves that list's active item; otherwise, inside a group, it
    /// moves focus among the group's members; anything else is not handled.
    pub open spec fn arrow_spec(&self, st: FocusStateView, arrow: Arrow) -> ArrowOutcome {
        match st.focused {
            None => ArrowOutcome::NotHandled,
            Some(f) => match self.find_list(f as int, None) {
                Some(list) => {
                    let items = self.active_items_spec(list as int);
                    if items.len() == 0 {
                        ArrowOutcome::NotHandled
                    } else {
                        let current = if st.active_item.contains_key(list) {
                            first_index(items, st.active_item[list])
                        } else {
                            None
                        };
                        let next = cycle_index(current, arrow == Arrow::Next, items.len() as int);
                        ArrowOutcome::MovedActiveItem { list, item: items[next] }
                    }
                },
                None => match self.nearest_spec(f as int, FocusRole::Group) {
                    None => ArrowOutcome::NotHandled,
                    Some(g) => {
                        let members = self.group_members_spec(g as int);
                        if members.len() == 0 {
                            ArrowOutcome::NotHandled
                        } else {
                            let next = cycle_index(first_index(members, f), arrow == Arrow::Next, members.len() as int);
                            ArrowOutcome::MovedFocus(members[next])
                        }
                    },
                },
            },
        }
    }

    /// The first element of `s` that is not inside `subtree`.
    pub open spec fn first_survivor(&self, s: Seq<FocusId>, subtree: FocusId) -> Option<FocusId>
        decreases s.len(),
    {
        if s.len() == 0 {
            None
        } else if !self.is_desc(s[0] as int, subtree as int) {
            Some(s[0])
        } else {
            self.first_survivor(s.drop_first(), subtree)
        }
    }

    /// Where focus must go when `subtree` is about to be removed: unchanged
    /// when focus lies outside it; the entered scope's restore target when the
    /// removed subtree holds that scope; else the first surviving stop of the
    /// domain, resolved.
    pub open spec fn focus_after_removing_spec(&self, st: FocusStateView, subtree: FocusId) -> Option<FocusId> {
        match st.focused {
            None => None,
            Some(f) => if !self.is_desc(f as int, subtree as int) {
                Some(f)
            } else if st.modal_stack.len() > 0 && self.is_desc(st.modal_stack.last().scope as int, subtree as int) {
                st.modal_stack.last().restore_to
            } else {
                match self.first_survivor(self.tab_stops_spec(st, traversal_root_of(st) as int), subtree) {
                    None => None,
                    Some(s) => Some(self.resolve_stop_spec(st, s)),
                }
            },
        }
    }

    /// The state after focusing `id`: the focused id is replaced, and the
    /// nearest enclosing group (if any) remembers `id`.
    pub open spec fn set_focus_spec(&self, st: FocusStateView, id: Option<FocusId>) -> FocusStateView {
        let gm = match id {
            None => st.group_memory,
            Some(i) => match self.nearest_spec(i as int, FocusRole::Group) {
                None => st.group_memory,
                Some(g) => st.group_memory.insert(g, i),
            },
        };
        FocusStateView { focused: id, group_memory: gm, ..st }
    }

    /// The state after entering `scope`, and whether it was entered.
    pub open spec fn enter_modal_spec(&self, st: FocusStateView, scope: FocusId) -> (FocusStateView, bool) {
        if self.spec_role(scope as int) != FocusRole::ModalScope {
            (st, false)
        } else {
            let pushed = with_modal_stack(
                st,
                st.modal_stack.push(ModalEntry { scope, restore_to: st.focused }),
            );
            (self.set_focus_spec(pushed, self.initial_focus_spec(pushed)), true)
        }
    }

    /// The state after leaving the innermost scope, and the restored focus.
    pub open spec fn exit_modal_spec(&self, st: FocusStateView) -> (FocusStateView, Option<FocusId>) {
        if st.modal_stack.len() == 0 {
            (st, None)
        } else {
            let entry = st.modal_stack.last();
            let popped = with_modal_stack(st, st.modal_stack.drop_last());
            (self.set_focus_spec(popped, entry.restore_to), entry.restore_to)
        }
    }

    /// The state after applying an arrow outcome.
    pub open spec fn apply_arrow_spec(&self, st: FocusStateView, outcome: ArrowOutcome) -> FocusStateView {
        match outcome {
            ArrowOutcome::MovedFocus(id) => self.set_focus_spec(st, Some(id)),
            ArrowOutcome::MovedActiveItem { list, item } => FocusStateView {
                active_item: st.active_item.insert(list, item),
                ..st
            },
            ArrowOutcome::NotHandled => st,
        }
    }
}



// ── Structural facts about the specifications ───────────────────────────

impl FocusTree {
    /// A descendant never has a smaller id than its ancestor.
    pub proof fn lemma_desc_ge(&self, x: int, a: int)
        requires
            self.is_desc(x, a),
        ensures
            x >= a,
        decreases x,
    {
        if x != a {
            let p = self.spec_parent(x)->0;
            self.lemma_desc_ge(p as int, a);
        }
    }

    /// Descent is transitive.
    pub proof fn lemma_desc_trans(&self, x: int, a: int, b: int)
        requires
            self.is_desc(x, a),
            self.is_desc(a, b),
        ensures
            self.is_desc(x, b),
        decreases x,
    {
        if x != a {
            let p = self.spec_parent(x)->0;
            self.lemma_desc_trans(p as int, a, b);
        }
    }

    /// A child lies below its parent.
    pub proof fn lemma_child_desc(&self, id: int, j: int)
        requires
            self.wf(),
            0 <= id < self.spec_len(),
            0 <= j < self.spec_children(id).len(),
        ensures
            self.is_desc(self.spec_children(id)[j] as int, id),
            self.spec_children(id)[j] > id,
    {
        let c = self.spec_children(id)[j];
        assert(id < c < self.spec_len());
        assert(self.spec_parent(c as int) == Some(id as FocusId));
        assert(self.is_desc(id, id));
    }

    /// Every stop `id` contributes is an enabled `Stop` or `Group` node at or
    /// below `id`, and strictly below it when `id` is the root of the walk.
    pub proof fn lemma_stops_from(&self, st: FocusStateView, id: int, is_root: bool)
        requires
            self.wf(),
            0 <= id < self.spec_len(),
        ensures
            forall|k: int|
                0 <= k < self.stops_from(st, id, is_root).len() ==> {
                    let e = #[trigger] self.stops_from(st, id, is_root)[k];
                    &&& e < self.spec_len()
                    &&& self.is_desc(e as int, id)
                    &&& (is_root ==> e > id)
                    &&& (self.spec_role(e as int) == FocusRole::Stop || self.spec_role(e as int) == FocusRole::Group)
                    &&& self.spec_enabled(e as int)
                },
        decreases self.spec_len() - id, self.spec_children(id).len() + 1,
    {
        let role = self.spec_role(id);
        if !is_root && (role == FocusRole::Stop || role == FocusRole::Group) {
            assert(self.is_desc(id, id));
        } else if !is_root && role == FocusRole::ModalScope && !is_entered_spec(st, id as FocusId) {
        } else if !is_root && (role == FocusRole::ActiveItemList || role == FocusRole::ActiveItem) {
        } else {
            self.lemma_stops_children(st, id, self.spec_children(id).len() as int);
        }
    }

    /// Every stop the first `k` children of `id` contribute lies strictly
    /// below `id` and is an enabled `Stop` or `Group`.
    pub proof fn lemma_stops_children(&self, st: FocusStateView, id: int, k: int)
        requires
            self.wf(),
            0 <= id < self.spec_len(),
            0 <= k <= self.spec_children(id).len(),
        ensures
            forall|m: int|
                0 <= m < self.stops_children(st, id, k).len() ==> {
                    let e = #[trigger] self.stops_children(st, id, k)[m];
                    &&& e < self.spec_len()
                    &&& self.is_desc(e as int, id)
                    &&& e > id
                    &&& (self.spec_role(e as int) == FocusRole::Stop || self.spec_role(e as int) == FocusRole::Group)
                    &&& self.spec_enabled(e as int)
                },
        decreases self.spec_len() - id, k,
    {
        if k > 0 {
            let c = self.spec_children(id)[k - 1];
            self.lemma_child_desc(id, k - 1);
            self.lemma_stops_children(st, id, k - 1);
            self.lemma_stops_from(st, c as int, false);
            let rest = self.stops_children(st, id, k - 1);
            let tail = self.stops_from(st, c as int, false);
            assert forall|m: int| 0 <= m < self.stops_children(st, id, k).len() implies {
                let e = #[trigger] self.stops_children(st, id, k)[m];
                &&& e < self.spec_len()
                &&& self.is_desc(e as int, id)
                &&& e > id
                &&& (self.spec_role(e as int) == FocusRole::Stop || self.spec_role(e as int) == FocusRole::Group)
                &&& self.spec_enabled(e as int)
            } by {
                if m >= rest.len() {
                    let e = tail[m - rest.len()];
                    assert(self.stops_children(st, id, k)[m] == e);
                    self.lemma_desc_trans(e as int, c as int, id);
                    self.lemma_desc_ge(e as int, c as int);
                } else {
                    assert(self.stops_children(st, id, k)[m] == rest[m]);
                }
            }
        }
    }

    /// Every member `id` contributes is an enabled `Stop` at or below `id`.
    pub proof fn lemma_members_from(&self, id: int)
        requires
            self.wf(),
            0 <= id < self.spec_len(),
        ensures
            forall|k: int|
                0 <= k < self.members_from(id).len() ==> {
                    let e = #[trigger] self.members_from(id)[k];
                    &&& e < self.spec_len()
                    &&& self.is_desc(e as int, id)
                    &&& self.spec_role(e as int) == FocusRole::Stop
                    &&& self.spec_enabled(e as int)
                },
        decreases self.spec_len() - id, self.spec_children(id).len() + 1,
    {
        let role = self.spec_role(id);
        if role == FocusRole::Stop && self.spec_enabled(id) {
            assert(self.is_desc(id, id));
        } else if role == FocusRole::Stop || role == FocusRole::Group {
        } else {
            self.lemma_members_children(id, self.spec_children(id).len() as int);
        }
    }

    /// Every member the first `k` children of `id` contribute is an enabled
    /// `Stop` strictly below `id`.
    pub proof fn lemma_members_children(&self, id: int, k: int)
        requires
            self.wf(),
            0 <= id < self.spec_len(),
            0 <= k <= self.spec_children(id).len(),
        ensures
            forall|m: int|
                0 <= m < self.members_children(id, k).len() ==> {
                    let e = #[trigger] self.members_children(id, k)[m];
                    &&& e < self.spec_len()
                    &&& self.is_desc(e as int, id)
                    &&& e > id
                    &&& self.spec_role(e as int) == FocusRole::Stop
                    &&& self.spec_enabled(e as int)
                },
        decreases self.spec_len() - id, k,
    {
        if k > 0 {
            let c = self.spec_children(id)[k - 1];
            self.lemma_child_desc(id, k - 1);
            self.lemma_members_children(id, k - 1);
            self.lemma_members_from(c as int);
            let rest = self.members_children(id, k - 1);
            let tail = self.members_from(c as int);
            assert forall|m: int| 0 <= m < self.members_children(id, k).len() implies {
                let e = #[trigger] self.members_children(id, k)[m];
                &&& e < self.spec_len()
                &&& self.is_desc(e as int, id)
                &&& e > id
                &&& self.spec_role(e as int) == FocusRole::Stop
                &&& self.spec_enabled(e as int)
            } by {
                if m >= rest.len() {
                    let e = tail[m - rest.len()];
                    assert(self.members_children(id, k)[m] == e);
                    self.lemma_desc_trans(e as int, c as int, id);
                    self.lemma_desc_ge(e as int, c as int);
                } else {
                    assert(self.members_children(id, k)[m] == rest[m]);
                }
            }
        }
    }

    /// A resolved stop is the stop itself or one of its group's members, so
    /// it lies at or below the stop and names a node of the tree.
    pub proof fn lemma_resolve_stop(&self, st: FocusStateView, stop: FocusId)
        requires
            self.wf(),
            stop < self.spec_len(),
        ensures
            self.resolve_stop_spec(st, stop) < self.spec_len(),
            self.is_desc(self.resolve_stop_spec(st, stop) as int, stop as int),
    {
        assert(self.is_desc(stop as int, stop as int));
        if self.spec_role(stop as int) == FocusRole::Group {
            let members = self.group_members_spec(stop as int);
            self.lemma_members_children(stop as int, self.spec_children(stop as int).len() as int);
            if st.group_memory.contains_key(stop) && members.contains(st.group_memory[stop]) {
                let i = choose|i: int| 0 <= i < members.len() && members[i] == st.group_memory[stop];
                assert(members[i] == st.group_memory[stop]);
            } else if members.len() > 0 {
                assert(members[0] == members[0]);
            }
        }
    }

    /// Setting focus to a node of the tree keeps the state's ids in the tree.
    pub proof fn lemma_set_focus_valid(&self, st: FocusStateView, id: Option<FocusId>)
        requires
            self.valid_state(st),
            id matches Some(i) ==> i < self.spec_len(),
        ensures
            self.valid_state(self.set_focus_spec(st, id)),
    {
        let s2 = self.set_focus_spec(st, id);
        assert(s2.modal_stack == st.modal_stack);
    }
}

// ── The tree's operations ───────────────────────────────────────────────

impl FocusTree {
    pub fn new() -> (t: Self)
        ensures
            t.wf(),
            t.spec_len() == 0,
    {
        FocusTree { nodes: Vec::new() }
    }

    /// Push a node and return its id. The first pushed node is the root and
    /// has no parent; every later node names an existing parent.
    pub fn push(&mut self, parent: Option<FocusId>, role: FocusRole, enabled: bool) -> (id: FocusId)
        requires
            old(self).wf(),
            parent is None <==> old(self).spec_len() == 0,
            parent matches Some(p) ==> p < old(self).spec_len(),
            old(self).spec_len() < usize::MAX,
        ensures
            final(self).wf(),
            id == old(self).spec_len(),
            final(self).spec_len() == old(self).spec_len() + 1,
            final(self).spec_parent(id as int) == parent,
            final(self).spec_role(id as int) == role,
            final(self).spec_enabled(id as int) == enabled,
            final(self).spec_children(id as int) == Seq::<FocusId>::empty(),
            forall|i: int|
                0 <= i < old(self).spec_len() ==> {
                    &&& #[trigger] final(self).spec_parent(i) == old(self).spec_parent(i)
                    &&& final(self).spec_role(i) == old(self).spec_role(i)
                    &&& final(self).spec_enabled(i) == old(self).spec_enabled(i)
                    &&& final(self).spec_children(i) == (if parent == Some(i as FocusId) {
                        old(self).spec_children(i).push(id)
                    } else {
                        old(self).spec_children(i)
                    })
                },
    {
        let id = self.nodes.len();
        self.nodes.push(FocusNode { parent, children: Vec::new(), role, enabled });
        if let Some(p) = parent {
            let mut node = self.nodes[p].clone_node();
            node.children.push(id);
            self.nodes.set(p, node);
        }
        proof {
            assert forall|i: int| 0 <= i < self.spec_len() implies (#[trigger] self.spec_parent(i) is None <==> i == 0) by {
                if i < id {
                    assert(self.spec_parent(i) == old(self).spec_parent(i));
                }
            }
            assert forall|i: int|
                0 <= i < self.spec_len() && #[trigger] self.spec_parent(i) is Some implies self.spec_parent(i)->0 < i by {
                if i < id {
                    assert(self.spec_parent(i) == old(self).spec_parent(i));
                }
            }
            assert forall|i: int, j: int|
                0 <= i < self.spec_len() && 0 <= j < self.spec_children(i).len() implies {
                    let c = #[trigger] self.spec_children(i)[j];
                    &&& i < c < self.spec_len()
                    &&& self.spec_parent(c as int) == Some(i as FocusId)
                } by {
                if parent == Some(i as FocusId) && j == self.spec_children(i).len() - 1 {
                } else {
                    assert(self.spec_children(i)[j] == old(self).spec_children(i)[j]);
                    let c = self.spec_children(i)[j];
                    assert(self.spec_parent(c as int) == old(self).spec_parent(c as int));
                }
            }
            {
                assert forall|i: int|
                    0 < i < self.spec_len() && #[trigger] self.spec_parent(i) is Some implies self.spec_children(
                    self.spec_parent(i)->0 as int,
                ).contains(i as FocusId) by {
                    let q = self.spec_parent(i)->0 as int;
                    if i < id {
                        assert(self.spec_parent(i) == old(self).spec_parent(i));
                        assert(old(self).spec_children(q).contains(i as FocusId));
                        let j = choose|j: int| 0 <= j < old(self).spec_children(q).len() && old(self).spec_children(q)[j] == i as FocusId;
                        assert(self.spec_children(q)[j] == i as FocusId);
                    } else {
                        assert(self.spec_children(q)[self.spec_children(q).len() - 1] == id);
                    }
                }
                assert forall|i: int, a: int, b: int|
                    0 <= i < self.spec_len() && 0 <= a < b < self.spec_children(i).len() implies #[trigger] self.spec_children(
                    i,
                )[a] < #[trigger] self.spec_children(i)[b] by {
                    if i < id {
                        if parent == Some(i as FocusId) && b == self.spec_children(i).len() - 1 {
                            assert(self.spec_children(i)[a] == old(self).spec_children(i)[a]);
                            assert(old(self).spec_children(i)[a] < id);
                        } else {
                            assert(self.spec_children(i)[a] == old(self).spec_children(i)[a]);
                            assert(self.spec_children(i)[b] == old(self).spec_children(i)[b]);
                        }
                    }
                }
            }
        }
        id
    }

    pub fn len(&self) -> (n: usize)
        ensures
            n == self.spec_len(),
    {
        self.nodes.len()
    }

    pub fn is_empty(&self) -> (b: bool)
        ensures
            b == (self.spec_len() == 0),
    {
        self.nodes.len() == 0
    }

    pub fn role(&self, id: FocusId) -> (r: FocusRole)
        requires
            id < self.spec_len(),
        ensures
            r == self.spec_role(id as int),
    {
        self.nodes[id].role
    }

    pub fn parent(&self, id: FocusId) -> (p: Option<FocusId>)
        requires
            id < self.spec_len(),
        ensures
            p == self.spec_parent(id as int),
    {
        self.nodes[id].parent
    }

    // ── Traversal domain ─────────────────────────────────────────────────

    /// The subtree traversal is confined to: the innermost entered modal
    /// scope, or the tree root.
    pub fn traversal_root(&self, state: &FocusState) -> (r: FocusId)
        ensures
            r == traversal_root_of(state@),
    {
        let n = state.modal_stack.len();
        if n == 0 {
            0
        } else {
            state.modal_stack[n - 1].scope
        }
    }

    /// The Tab stops inside `root`, in tree order.
    pub fn tab_stops(&self, state: &FocusState, root: FocusId) -> (out: Vec<FocusId>)
        requires
            self.wf(),
            root < self.spec_len(),
        ensures
            out@ == self.tab_stops_spec(state@, root as int),
    {
        let mut out = Vec::new();
        self.collect_stops(state, root, true, &mut out);
        assert(out@ =~= self.tab_stops_spec(state@, root as int));
        out
    }

    fn collect_stops(&self, state: &FocusState, id: FocusId, is_root: bool, out: &mut Vec<FocusId>)
        requires
            self.wf(),
            id < self.spec_len(),
        ensures
            final(out)@ == old(out)@ + self.stops_from(state@, id as int, is_root),
        decreases self.spec_len() - id,
    {
        let ghost init = out@;
        let node = &self.nodes[id];
        if !is_root {
            match node.role {
                FocusRole::Stop | FocusRole::Group => {
                    if node.enabled {
                        out.push(id);
                    }
                    assert(out@ =~= init + self.stops_from(state@, id as int, is_root));
                    return;
                },
                FocusRole::ModalScope => {
                    if !state.is_entered(id) {
                        assert(out@ =~= init + self.stops_from(state@, id as int, is_root));
                        return;
                    }
                },
                FocusRole::ActiveItemList | FocusRole::ActiveItem => {
                    assert(out@ =~= init + self.stops_from(state@, id as int, is_root));
                    return;
                },
                FocusRole::Container => {},
            }
        }
        let mut j: usize = 0;
        assert(out@ =~= init + self.stops_children(state@, id as int, 0));
        while j < node.children.len()
            invariant
                self.wf(),
                id < self.spec_len(),
                *node == self.nodes@[id as int],
                0 <= j <= node.children@.len(),
                out@ == init + self.stops_children(state@, id as int, j as int),
            decreases node.children@.len() - j,
        {
            let child = node.children[j];
            assert(self.spec_children(id as int)[j as int] == child);
            self.collect_stops(state, child, false, out);
            j += 1;
            assert(out@ =~= init + self.stops_children(state@, id as int, j as int));
        }
    }

    /// The members of a group, in tree order. Members are the enabled `Stop`
    /// descendants; nested groups are not flattened.
    pub fn group_members(&self, group: FocusId) -> (out: Vec<FocusId>)
        requires
            self.wf(),
            group < self.spec_len(),
        ensures
            out@ == self.group_members_spec(group as int),
    {
        let mut out = Vec::new();
        let node = &self.nodes[group];
        let mut j: usize = 0;
        assert(out@ =~= self.members_children(group as int, 0));
        while j < node.children.len()
            invariant
                self.wf(),
                group < self.spec_len(),
                *node == self.nodes@[group as int],
                0 <= j <= node.children@.len(),
                out@ == self.members_children(group as int, j as int),
            decreases node.children@.len() - j,
        {
            let child = node.children[j];
            assert(self.spec_children(group as int)[j as int] == child);
            let ghost before = out@;
            self.collect_group_members(child, &mut out);
            j += 1;
            assert(out@ =~= self.members_children(group as int, j as int));
        }
        out
    }

    fn collect_group_members(&self, id: FocusId, out: &mut Vec<FocusId>)
        requires
            self.wf(),
            id < self.spec_len(),
        ensures
            final(out)@ == old(out)@ + self.members_from(id as int),
        decreases self.spec_len() - id,
    {
        let ghost init = out@;
        let node = &self.nodes[id];
        match node.role {
            FocusRole::Stop if node.enabled => {
                out.push(id);
                assert(out@ =~= init + self.members_from(id as int));
            },
            FocusRole::Stop | FocusRole::Group => {
                assert(out@ =~= init + self.members_from(id as int));
            },
            _ => {
                let mut j: usize = 0;
                assert(out@ =~= init + self.members_children(id as int, 0));
                while j < node.children.len()
                    invariant
                        self.wf(),
                        id < self.spec_len(),
                        *node == self.nodes@[id as int],
                        0 <= j <= node.children@.len(),
                        out@ == init + self.members_children(id as int, j as int),
                    decreases node.children@.len() - j,
                {
                    let child = node.children[j];
                    assert(self.spec_children(id as int)[j as int] == child);
                    self.collect_group_members(child, out);
                    j += 1;
                    assert(out@ =~= init + self.members_children(id as int, j as int));
                }
            },
        }
    }

    /// The nearest ancestor (or self) with the given role.
    fn nearest(&self, id: FocusId, role: FocusRole) -> (r: Option<FocusId>)
        requires
            self.wf(),
            id < self.spec_len(),
        ensures
            r == self.nearest_spec(id as int, role),
            r matches Some(x) ==> x < self.spec_len(),
    {
        let mut cur = Some(id);
        while cur.is_some()
            invariant
                self.wf(),
                cur matches Some(c) ==> c < self.spec_len()
                    && self.nearest_spec(c as int, role) == self.nearest_spec(id as int, role),
                cur is None ==> self.nearest_spec(id as int, role) is None,
            decreases match cur {
                Some(c) => c as int + 1,
                None => 0,
            },
        {
            let c = cur.unwrap();
            if self.nodes[c].role == role {
                return Some(c);
            }
            cur = self.nodes[c].parent;
        }
        None
    }

    fn is_descendant_of(&self, id: FocusId, ancestor: FocusId) -> (b: bool)
        requires
            self.wf(),
        ensures
            b == self.is_desc(id as int, ancestor as int),
    {
        let mut cur = Some(id);
        while cur.is_some()
            invariant
                self.wf(),
                cur matches Some(c) ==> self.is_desc(c as int, ancestor as int) == self.is_desc(id as int, ancestor as int),
                cur is None ==> !self.is_desc(id as int, ancestor as int),
            decreases match cur {
                Some(c) => c as int + 1,
                None => 0,
            },
        {
            let c = cur.unwrap();
            if c == ancestor {
                return true;
            }
            if c >= self.nodes.len() {
                return false;
            }
            cur = self.nodes[c].parent;
        }
        false
    }

    /// The list whose active item the focused node's arrows would move, if
    /// any: an `ActiveItemList` below the focused node.
    fn owned_active_list(&self, focused: FocusId) -> (r: Option<FocusId>)
        requires
            self.wf(),
            focused < self.spec_len(),
        ensures
            r == self.find_list(focused as int, None),
            r matches Some(x) ==> x < self.spec_len(),
    {
        let mut found = None;
        self.find_active_list(focused, &mut found);
        found
    }

    fn find_active_list(&self, id: FocusId, found: &mut Option<FocusId>)
        requires
            self.wf(),
            id < self.spec_len(),
            *old(found) matches Some(x) ==> x < self.spec_len(),
        ensures
            *final(found) == self.find_list(id as int, *old(found)),
            *final(found) matches Some(x) ==> x < self.spec_len(),
        decreases self.spec_len() - id, 1int,
    {
        if found.is_some() {
            return;
        }
        let node = &self.nodes[id];
        let mut j: usize = 0;
        while j < node.children.len()
            invariant
                self.wf(),
                id < self.spec_len(),
                *node == self.nodes@[id as int],
                0 <= j <= node.children@.len(),
                *found matches Some(x) ==> x < self.spec_len(),
                self.find_list(id as int, *old(found)) == self.find_list_children(id as int, j as int, *found),
            decreases node.children@.len() - j,
        {
            let child = node.children[j];
            assert(self.spec_children(id as int)[j as int] == child);
            if self.nodes[child].role == FocusRole::ActiveItemList {
                *found = Some(child);
                return;
            }
            self.find_active_list(child, found);
            j += 1;
        }
    }

    fn active_items(&self, list: FocusId) -> (out: Vec<FocusId>)
        requires
            self.wf(),
            list < self.spec_len(),
        ensures
            out@ == self.active_items_spec(list as int),
    {
        let node = &self.nodes[list];
        let mut out = Vec::new();
        let mut j: usize = 0;
        while j < node.children.len()
            invariant
                self.wf(),
                list < self.spec_len(),
                *node == self.nodes@[list as int],
                0 <= j <= node.children@.len(),
                out@ == self.active_items_upto(list as int, j as int),
            decreases node.children@.len() - j,
        {
            let c = node.children[j];
            assert(self.spec_children(list as int)[j as int] == c);
            if self.nodes[c].role == FocusRole::ActiveItem && self.nodes[c].enabled {
                out.push(c);
            }
            j += 1;
        }
        out
    }
}


impl FocusTree {
    // ── Focus movement ───────────────────────────────────────────────────

    /// The initial focus inside the current traversal domain: the first Tab
    /// stop, resolved through group memory. `None` when nothing is focusable.
    pub fn initial_focus(&self, state: &FocusState) -> (r: Option<FocusId>)
        requires
            self.wf(),
            self.domain_in_tree(state@),
        ensures
            r == self.initial_focus_spec(state@),
            r matches Some(x) ==> x < self.spec_len(),
    {
        let root = self.traversal_root(state);
        let stops = self.tab_stops(state, root);
        proof {
            self.lemma_stops_from(state@, root as int, true);
        }
        if stops.len() == 0 {
            None
        } else {
            let s0 = stops[0];
            assert(stops@[0] == s0);
            Some(self.resolve_stop(state, s0))
        }
    }

    /// Move by Tab / Shift+Tab. Returns the new focus, or `None` when the
    /// domain has no stop at all. Wrap-around is at the ends of the stop list.
    pub fn tab(&self, state: &FocusState, dir: TabDirection) -> (r: Option<FocusId>)
        requires
            self.wf(),
            self.domain_in_tree(state@),
            self.focus_in_tree(state@),
        ensures
            r == self.tab_spec(state@, dir),
            r matches Some(x) ==> x < self.spec_len(),
    {
        let root = self.traversal_root(state);
        let stops = self.tab_stops(state, root);
        proof {
            self.lemma_stops_from(state@, root as int, true);
        }
        if stops.len() == 0 {
            return None;
        }
        let current = match state.focused {
            Some(f) => self.stop_index_of(&stops, f),
            None => None,
        };
        let next_index = cycle_exec(current, dir == TabDirection::Forward, stops.len());
        let s = stops[next_index];
        assert(stops@[next_index as int] == s);
        Some(self.resolve_stop(state, s))
    }

    /// Which entry of `stops` the focused node belongs to: itself if it is a
    /// stop, or its enclosing group if it is a group member.
    fn stop_index_of(&self, stops: &Vec<FocusId>, focused: FocusId) -> (r: Option<usize>)
        requires
            self.wf(),
            focused < self.spec_len(),
        ensures
            r matches Some(i) ==> i < stops@.len() && self.stop_index_spec(stops@, focused) == Some(i as int),
            r is None ==> self.stop_index_spec(stops@, focused) is None,
    {
        if let Some(i) = position_of(stops, focused) {
            return Some(i);
        }
        match self.nearest(focused, FocusRole::Group) {
            None => None,
            Some(group) => position_of(stops, group),
        }
    }

    /// Landing on a stop: a `Group` resolves to its remembered member (or its
    /// first), anything else is itself.
    fn resolve_stop(&self, state: &FocusState, stop: FocusId) -> (r: FocusId)
        requires
            self.wf(),
            stop < self.spec_len(),
        ensures
            r == self.resolve_stop_spec(state@, stop),
            r < self.spec_len(),
    {
        proof {
            self.lemma_resolve_stop(state@, stop);
        }
        if self.nodes[stop].role != FocusRole::Group {
            return stop;
        }
        let members = self.group_members(stop);
        match state.group_memory.get(&stop) {
            Some(remembered) => {
                if contains_id(&members, *remembered) {
                    return *remembered;
                }
            },
            None => {},
        }
        if members.len() > 0 {
            members[0]
        } else {
            stop
        }
    }

    /// Arrow-key semantics: an owned active-item list takes the arrow without
    /// moving focus; otherwise a group moves focus among its members;
    /// anything else is `NotHandled`.
    pub fn arrow(&self, state: &FocusState, arrow: Arrow) -> (r: ArrowOutcome)
        requires
            self.wf(),
            self.focus_in_tree(state@),
        ensures
            r == self.arrow_spec(state@, arrow),
    {
        let focused = match state.focused {
            None => return ArrowOutcome::NotHandled,
            Some(f) => f,
        };
        if let Some(list) = self.owned_active_list(focused) {
            let items = self.active_items(list);
            if items.len() == 0 {
                return ArrowOutcome::NotHandled;
            }
            let current = match state.active_item.get(&list) {
                Some(a) => position_of(&items, *a),
                None => None,
            };
            let next = cycle_exec(current, arrow == Arrow::Next, items.len());
            let item = items[next];
            assert(items@[next as int] == item);
            return ArrowOutcome::MovedActiveItem { list, item };
        }
        if let Some(group) = self.nearest(focused, FocusRole::Group) {
            let members = self.group_members(group);
            if members.len() == 0 {
                return ArrowOutcome::NotHandled;
            }
            let current = position_of(&members, focused);
            let next = cycle_exec(current, arrow == Arrow::Next, members.len());
            let m = members[next];
            assert(members@[next as int] == m);
            return ArrowOutcome::MovedFocus(m);
        }
        ArrowOutcome::NotHandled
    }

    // ── Modal scopes ─────────────────────────────────────────────────────

    /// The scope that would consume an Esc, if any: the innermost entered one.
    pub fn esc_target(&self, state: &FocusState) -> (r: Option<FocusId>)
        ensures
            r == (if state@.modal_stack.len() == 0 {
                None
            } else {
                Some(state@.modal_stack.last().scope)
            }),
    {
        let n = state.modal_stack.len();
        if n == 0 {
            None
        } else {
            Some(state.modal_stack[n - 1].scope)
        }
    }

    /// Where focus must go when `subtree` is about to be removed, computed
    /// before the removal.
    #[verifier::loop_isolation(false)]
    pub fn focus_after_removing(&self, state: &FocusState, subtree: FocusId) -> (r: Option<FocusId>)
        requires
            self.wf(),
            self.domain_in_tree(state@),
            self.focus_in_tree(state@),
        ensures
            r == self.focus_after_removing_spec(state@, subtree),
    {
        let focused = match state.focused {
            None => return None,
            Some(f) => f,
        };
        if !self.is_descendant_of(focused, subtree) {
            return Some(focused);
        }
        let n = state.modal_stack.len();
        if n > 0 {
            let entry = state.modal_stack[n - 1];
            if self.is_descendant_of(entry.scope, subtree) {
                return entry.restore_to;
            }
        }
        let root = self.traversal_root(state);
        let stops = self.tab_stops(state, root);
        proof {
            self.lemma_stops_from(state@, root as int, true);
        }
        let mut i: usize = 0;
        assert(stops@.subrange(0, stops@.len() as int) =~= stops@);
        while i < stops.len()
            invariant
                self.wf(),
                0 <= i <= stops@.len(),
                self.first_survivor(stops@, subtree) == self.first_survivor(
                    stops@.subrange(i as int, stops@.len() as int),
                    subtree,
                ),
                forall|k: int| 0 <= k < stops@.len() ==> #[trigger] stops@[k] < self.spec_len(),
            decreases stops@.len() - i,
        {
            let s = stops[i];
            let ghost rest = stops@.subrange(i as int, stops@.len() as int);
            assert(rest[0] == s);
            assert(rest.drop_first() =~= stops@.subrange(i as int + 1, stops@.len() as int));
            if !self.is_descendant_of(s, subtree) {
                assert(self.first_survivor(rest, subtree) == Some(s));
                assert(traversal_root_of(state@) == root);
                return Some(self.resolve_stop(state, s));
            }
            i += 1;
        }
        None
    }
}

impl Default for FocusState {
    fn default() -> (s: Self)
        ensures
            s@.focused is None,
            s@.group_memory == Map::<FocusId, FocusId>::empty(),
            s@.active_item == Map::<FocusId, FocusId>::empty(),
            s@.modal_stack == Seq::<ModalEntry>::empty(),
    {
        FocusState {
            focused: None,
            group_memory: BTreeMap::new(),
            active_item: BTreeMap::new(),
            modal_stack: Vec::new(),
        }
    }
}

impl FocusState {
    pub fn focused(&self) -> (r: Option<FocusId>)
        ensures
            r == self@.focused,
    {
        self.focused
    }

    pub fn active_item_of(&self, list: FocusId) -> (r: Option<FocusId>)
        ensures
            r == (if self@.active_item.contains_key(list) {
                Some(self@.active_item[list])
            } else {
                None
            }),
    {
        match self.active_item.get(&list) {
            Some(v) => Some(*v),
            None => None,
        }
    }

    pub fn remembered_member_of(&self, group: FocusId) -> (r: Option<FocusId>)
        ensures
            r == (if self@.group_memory.contains_key(group) {
                Some(self@.group_memory[group])
            } else {
                None
            }),
    {
        match self.group_memory.get(&group) {
            Some(v) => Some(*v),
            None => None,
        }
    }

    pub fn modal_depth(&self) -> (r: usize)
        ensures
            r == self@.modal_stack.len(),
    {
        self.modal_stack.len()
    }

    /// Set focus and update the group memory derived from it, together.
    pub fn set_focus(&mut self, tree: &FocusTree, id: Option<FocusId>)
        requires
            tree.wf(),
            id matches Some(i) ==> i < tree.spec_len(),
        ensures
            final(self)@ == tree.set_focus_spec(old(self)@, id),
    {
        self.focused = id;
        if let Some(id) = id {
            if let Some(group) = tree.nearest(id, FocusRole::Group) {
                self.group_memory.insert(group, id);
            }
        }
    }

    pub fn set_active_item(&mut self, list: FocusId, item: FocusId)
        ensures
            final(self)@ == (FocusStateView { active_item: old(self)@.active_item.insert(list, item), ..old(self)@ }),
    {
        self.active_item.insert(list, item);
    }

    /// Enter a modal scope, capturing the focus to restore on exit. Returns
    /// false, and changes nothing, when `scope` is not annotated as one.
    pub fn enter_modal(&mut self, tree: &FocusTree, scope: FocusId) -> (entered: bool)
        requires
            tree.wf(),
            scope < tree.spec_len(),
        ensures
            (final(self)@, entered) == tree.enter_modal_spec(old(self)@, scope),
            tree.valid_state(old(self)@) ==> tree.valid_state(final(self)@),
    {
        if tree.role(scope) != FocusRole::ModalScope {
            return false;
        }
        let ghost before = self@;
        self.modal_stack.push(ModalEntry { scope, restore_to: self.focused });
        assert(self@ == with_modal_stack(before, before.modal_stack.push(ModalEntry { scope, restore_to: before.focused })));
        assert(traversal_root_of(self@) == scope);
        let entering = tree.initial_focus(self);
        proof {
            if tree.valid_state(before) {
                assert(tree.valid_state(self@)) by {
                    assert forall|i: int| 0 <= i < self@.modal_stack.len() implies {
                        let e = #[trigger] self@.modal_stack[i];
                        &&& e.scope < tree.spec_len()
                        &&& e.restore_to matches Some(r) ==> r < tree.spec_len()
                    } by {
                        if i < before.modal_stack.len() {
                            assert(self@.modal_stack[i] == before.modal_stack[i]);
                        }
                    }
                }
                tree.lemma_set_focus_valid(self@, entering);
            }
        }
        self.set_focus(tree, entering);
        true
    }

    /// Leave the innermost modal scope, restoring the focus captured at entry.
    pub fn exit_modal(&mut self, tree: &FocusTree) -> (r: Option<FocusId>)
        requires
            tree.wf(),
            old(self)@.modal_stack.len() > 0 ==> (old(self)@.modal_stack.last().restore_to matches Some(r) ==> r
                < tree.spec_len()),
        ensures
            (final(self)@, r) == tree.exit_modal_spec(old(self)@),
            tree.valid_state(old(self)@) ==> tree.valid_state(final(self)@),
    {
        let ghost before = self@;
        let entry = match self.modal_stack.pop() {
            None => return None,
            Some(e) => e,
        };
        assert(self@ == with_modal_stack(before, before.modal_stack.drop_last()));
        assert(entry == before.modal_stack[before.modal_stack.len() - 1]);
        proof {
            if tree.valid_state(before) {
                assert(tree.valid_state(self@)) by {
                    assert forall|i: int| 0 <= i < self@.modal_stack.len() implies {
                        let e = #[trigger] self@.modal_stack[i];
                        &&& e.scope < tree.spec_len()
                        &&& e.restore_to matches Some(r) ==> r < tree.spec_len()
                    } by {
                        assert(self@.modal_stack[i] == before.modal_stack[i]);
                    }
                }
                tree.lemma_set_focus_valid(self@, entry.restore_to);
            }
        }
        self.set_focus(tree, entry.restore_to);
        entry.restore_to
    }

    /// Apply an arrow outcome.
    pub fn apply_arrow(&mut self, tree: &FocusTree, outcome: ArrowOutcome)
        requires
            tree.wf(),
            outcome matches ArrowOutcome::MovedFocus(id) ==> id < tree.spec_len(),
        ensures
            final(self)@ == tree.apply_arrow_spec(old(self)@, outcome),
    {
        match outcome {
            ArrowOutcome::MovedFocus(id) => self.set_focus(tree, Some(id)),
            ArrowOutcome::MovedActiveItem { list, item } => self.set_active_item(list, item),
            ArrowOutcome::NotHandled => {},
        }
    }
}

impl FocusNode {
    fn clone_node(&self) -> (r: FocusNode)
        ensures
            r.parent == self.parent,
            r.children@ == self.children@,
            r.role == self.role,
            r.enabled == self.enabled,
    {
        FocusNode {
            parent: self.parent,
            children: self.children.clone(),
            role: self.role,
            enabled: self.enabled,
        }
    }
}

impl FocusState {
    fn is_entered(&self, scope: FocusId) -> (b: bool)
        ensures
            b == is_entered_spec(self@, scope),
    {
        let mut i: usize = 0;
        while i < self.modal_stack.len()
            invariant
                0 <= i <= self.modal_stack@.len(),
                forall|k: int| 0 <= k < i ==> self.modal_stack@[k].scope != scope,
            decreases self.modal_stack@.len() - i,
        {
            if self.modal_stack[i].scope == scope {
                assert(self@.modal_stack[i as int].scope == scope);
                return true;
            }
            i += 1;
        }
        false
    }
}

} // verus!
