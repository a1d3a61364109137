//! Properties of the focus traversal core that span several operations.
use crate::focus_core::{
    cycle_index, first_index, lemma_cycle_in_range, lemma_first_index_in_range, traversal_root_of, with_modal_stack, Arrow, ArrowOutcome, FocusId, FocusRole,
    FocusStateView, FocusTree, ModalEntry, TabDirection,
};
use crate::focus_members::{law_a_members_nearest_group_is_its_group, lemma_stops_follow_the_stack};
use vstd::prelude::*;

verus! {

/// Every Tab stop of a domain is an enabled `Stop` or `Group` strictly inside
/// the domain's root: members of a group, active items, disabled stops and
/// the root itself are never stops.
pub proof fn law_tab_stops_are_enabled_stops_or_groups_inside_root(
    tree: FocusTree,
    st: FocusStateView,
    root: FocusId,
)
    requires
        tree.wf(),
        root < tree.spec_len(),
    ensures
        forall|k: int|
            0 <= k < tree.tab_stops_spec(st, root as int).len() ==> {
                let s = #[trigger] tree.tab_stops_spec(st, root as int)[k];
                &&& tree.is_desc(s as int, root as int)
                &&& s != root
                &&& (tree.spec_role(s as int) == FocusRole::Stop || tree.spec_role(s as int) == FocusRole::Group)
                &&& tree.spec_enabled(s as int)
            },
{
    tree.lemma_stops_from(st, root as int, true);
}

/// Tab never leaves the traversal domain: its result lies strictly inside the
/// innermost entered modal scope, or inside the tree root when none is
/// entered.
pub proof fn law_tab_stays_inside_the_domain(tree: FocusTree, st: FocusStateView, dir: TabDirection)
    requires
        tree.wf(),
        tree.valid_state(st),
        tree.spec_len() > 0,
    ensures
        tree.tab_spec(st, dir) matches Some(x) ==> {
            &&& tree.is_desc(x as int, traversal_root_of(st) as int)
            &&& x != traversal_root_of(st)
        },
        tree.initial_focus_spec(st) matches Some(x) ==> {
            &&& tree.is_desc(x as int, traversal_root_of(st) as int)
            &&& x != traversal_root_of(st)
        },
{
    let root = traversal_root_of(st);
    if st.modal_stack.len() > 0 {
        assert(st.modal_stack[st.modal_stack.len() - 1] == st.modal_stack.last());
    }
    let stops = tree.tab_stops_spec(st, root as int);
    if stops.len() > 0 {
        let current = match st.focused {
            None => None,
            Some(f) => tree.stop_index_spec(stops, f),
        };
        if let Some(f) = st.focused {
            lemma_first_index_in_range(stops, f);
            if let Some(g) = tree.nearest_spec(f as int, FocusRole::Group) {
                lemma_first_index_in_range(stops, g);
            }
        }
        lemma_cycle_in_range(current, dir == TabDirection::Forward, stops.len() as int);
        let next = cycle_index(current, dir == TabDirection::Forward, stops.len() as int);
        lemma_resolved_stop_inside_root(tree, st, root, next);
        lemma_resolved_stop_inside_root(tree, st, root, 0);
    }
}

/// The resolution of the `k`-th stop of a domain lies strictly inside the
/// domain's root.
proof fn lemma_resolved_stop_inside_root(tree: FocusTree, st: FocusStateView, root: FocusId, k: int)
    requires
        tree.wf(),
        root < tree.spec_len(),
        0 <= k < tree.tab_stops_spec(st, root as int).len(),
    ensures
        ({
            let x = tree.resolve_stop_spec(st, tree.tab_stops_spec(st, root as int)[k]);
            &&& tree.is_desc(x as int, root as int)
            &&& x != root
            &&& x < tree.spec_len()
        }),
{
    tree.lemma_stops_from(st, root as int, true);
    let s = tree.tab_stops_spec(st, root as int)[k];
    tree.lemma_resolve_stop(st, s);
    let x = tree.resolve_stop_spec(st, s);
    tree.lemma_desc_trans(x as int, s as int, root as int);
    tree.lemma_desc_ge(x as int, s as int);
}

/// Entering a modal scope confines Tab to it: after a successful entry,
/// every Tab and Shift+Tab result lies strictly inside the entered scope.
pub proof fn law_entered_scope_confines_tab(
    tree: FocusTree,
    st: FocusStateView,
    scope: FocusId,
    dir: TabDirection,
)
    requires
        tree.wf(),
        tree.valid_state(st),
        scope < tree.spec_len(),
        tree.enter_modal_spec(st, scope).1,
    ensures
        tree.tab_spec(tree.enter_modal_spec(st, scope).0, dir) matches Some(x) ==> {
            &&& tree.is_desc(x as int, scope as int)
            &&& x != scope
        },
{
    let pushed = with_modal_stack(st, st.modal_stack.push(ModalEntry { scope, restore_to: st.focused }));
    assert(tree.valid_state(pushed)) by {
        assert forall|i: int| 0 <= i < pushed.modal_stack.len() implies {
            let e = #[trigger] pushed.modal_stack[i];
            &&& e.scope < tree.spec_len()
            &&& e.restore_to matches Some(r) ==> r < tree.spec_len()
        } by {
            if i < st.modal_stack.len() {
                assert(pushed.modal_stack[i] == st.modal_stack[i]);
            }
        }
    }
    law_tab_stays_inside_the_domain(tree, pushed, TabDirection::Forward);
    let entering = tree.initial_focus_spec(pushed);
    if entering is Some {
        tree.lemma_desc_ge(entering->0 as int, scope as int);
        assert(entering->0 < tree.spec_len()) by {
            tree.lemma_stops_from(pushed, scope as int, true);
            let stops = tree.tab_stops_spec(pushed, scope as int);
            tree.lemma_resolve_stop(pushed, stops[0]);
        }
    }
    tree.lemma_set_focus_valid(pushed, entering);
    let s1 = tree.set_focus_spec(pushed, entering);
    assert(traversal_root_of(s1) == scope);
    law_tab_stays_inside_the_domain(tree, s1, dir);
}

/// Leaving a modal scope restores the focus captured when it was entered,
/// and the modal stack is back to what it was before the entry.
pub proof fn law_exit_undoes_enter(tree: FocusTree, st: FocusStateView, scope: FocusId)
    requires
        tree.wf(),
        tree.valid_state(st),
        scope < tree.spec_len(),
        tree.spec_role(scope as int) == FocusRole::ModalScope,
    ensures
        tree.enter_modal_spec(st, scope).1,
        tree.exit_modal_spec(tree.enter_modal_spec(st, scope).0).1 == st.focused,
        tree.exit_modal_spec(tree.enter_modal_spec(st, scope).0).0.focused == st.focused,
        tree.exit_modal_spec(tree.enter_modal_spec(st, scope).0).0.modal_stack == st.modal_stack,
{
    let s1 = tree.enter_modal_spec(st, scope).0;
    assert(s1.modal_stack == st.modal_stack.push(ModalEntry { scope, restore_to: st.focused }));
    assert(s1.modal_stack.drop_last() =~= st.modal_stack);
}

/// A node that is not annotated as a modal scope cannot be entered as one:
/// the entry is refused and the state is unchanged.
pub proof fn law_only_a_scope_can_be_entered(tree: FocusTree, st: FocusStateView, scope: FocusId)
    requires
        tree.spec_role(scope as int) != FocusRole::ModalScope,
    ensures
        tree.enter_modal_spec(st, scope) == (st, false),
{
}

/// A group remembers the member that was focused last: after focusing a
/// member of a group, landing on that group resolves to the same member.
pub proof fn law_group_remembers_focused_member(
    tree: FocusTree,
    st: FocusStateView,
    group: FocusId,
    member: FocusId,
)
    requires
        tree.wf(),
        group < tree.spec_len(),
        member < tree.spec_len(),
        tree.spec_role(group as int) == FocusRole::Group,
        tree.nearest_spec(member as int, FocusRole::Group) == Some(group),
        tree.group_members_spec(group as int).contains(member),
    ensures
        tree.set_focus_spec(st, Some(member)).group_memory[group] == member,
        tree.resolve_stop_spec(tree.set_focus_spec(st, Some(member)), group) == member,
{
}

/// With nothing focused, Tab lands on the initial focus of the domain.
pub proof fn law_first_tab_is_initial_focus(tree: FocusTree, st: FocusStateView)
    requires
        st.focused is None,
    ensures
        tree.tab_spec(st, TabDirection::Forward) == tree.initial_focus_spec(st),
{
}

/// Tab wraps: forward from the last stop lands on the first stop, and
/// backward from the first stop lands on the last, both resolved.
pub proof fn law_tab_wraps_at_both_ends(tree: FocusTree, st: FocusStateView)
    requires
        st.focused is Some,
        tree.tab_stops_spec(st, traversal_root_of(st) as int).len() > 0,
    ensures
        ({
            let stops = tree.tab_stops_spec(st, traversal_root_of(st) as int);
            &&& tree.stop_index_spec(stops, st.focused->0) == Some(stops.len() - 1)
                ==> tree.tab_spec(st, TabDirection::Forward) == Some(tree.resolve_stop_spec(st, stops[0]))
            &&& tree.stop_index_spec(stops, st.focused->0) == Some(0int)
                ==> tree.tab_spec(st, TabDirection::Backward) == Some(
                tree.resolve_stop_spec(st, stops[stops.len() - 1]),
            )
        }),
{
    let stops = tree.tab_stops_spec(st, traversal_root_of(st) as int);
    let n = stops.len() as int;
    assert((n - 1 + 1) % n == 0) by (nonlinear_arith)
        requires
            n > 0,
    ;
    assert((0 + n - 1) % n == n - 1) by (nonlinear_arith)
        requires
            n > 0,
    ;
}

/// Arrow keys never move focus out of the focused node's group: a focus
/// move lands on a member of the nearest enclosing group, and an
/// active-item move lands on an enabled item of the list and leaves focus
/// where it was.
pub proof fn law_arrow_moves_stay_in_their_container(tree: FocusTree, st: FocusStateView, arrow: Arrow)
    requires
        tree.wf(),
        tree.valid_state(st),
    ensures
        tree.arrow_spec(st, arrow) matches ArrowOutcome::MovedFocus(m) ==> {
            &&& st.focused is Some
            &&& tree.nearest_spec(st.focused->0 as int, FocusRole::Group) matches Some(g)
            &&& tree.group_members_spec(g as int).contains(m)
        },
        tree.arrow_spec(st, arrow) matches ArrowOutcome::MovedActiveItem { list, item } ==> {
            &&& tree.active_items_spec(list as int).contains(item)
            &&& tree.apply_arrow_spec(st, tree.arrow_spec(st, arrow)).focused == st.focused
            &&& tree.apply_arrow_spec(st, tree.arrow_spec(st, arrow)).active_item[list] == item
        },
{
    if let Some(f) = st.focused {
        if let Some(list) = tree.find_list(f as int, None) {
            let items = tree.active_items_spec(list as int);
            if items.len() > 0 {
                let current = if st.active_item.contains_key(list) {
                    first_index(items, st.active_item[list])
                } else {
                    None
                };
                if st.active_item.contains_key(list) {
                    lemma_first_index_in_range(items, st.active_item[list]);
                }
                lemma_cycle_in_range(current, arrow == Arrow::Next, items.len() as int);
                let next = cycle_index(current, arrow == Arrow::Next, items.len() as int);
                assert(items.contains(items[next]));
            }
        } else if let Some(g) = tree.nearest_spec(f as int, FocusRole::Group) {
            let members = tree.group_members_spec(g as int);
            if members.len() > 0 {
                let current = first_index(members, f);
                lemma_first_index_in_range(members, f);
                lemma_cycle_in_range(current, arrow == Arrow::Next, members.len() as int);
                let next = cycle_index(current, arrow == Arrow::Next, members.len() as int);
                assert(members.contains(members[next]));
            }
        }
    }
}

/// Removing a subtree that does not hold the focus leaves focus where it
/// is; removing one that does moves focus to the first surviving stop of the
/// domain (restoring instead when the removal takes the entered scope), so
/// the new focus is outside the removed subtree unless it is a member of a
/// surviving group.
pub proof fn law_removal_moves_focus_out_of_the_removed_subtree(
    tree: FocusTree,
    st: FocusStateView,
    subtree: FocusId,
)
    requires
        tree.wf(),
        tree.valid_state(st),
        tree.spec_len() > 0,
    ensures
        st.focused is Some && !tree.is_desc(st.focused->0 as int, subtree as int)
            ==> tree.focus_after_removing_spec(st, subtree) == st.focused,
        ({
            let entered_removed = st.modal_stack.len() > 0 && tree.is_desc(
                st.modal_stack.last().scope as int,
                subtree as int,
            );
            let r = tree.focus_after_removing_spec(st, subtree);
            r is Some && !entered_removed ==> {
                let x = r->0;
                ||| !tree.is_desc(x as int, subtree as int)
                ||| exists|g: FocusId|
                    {
                        &&& !tree.is_desc(g as int, subtree as int)
                        &&& tree.spec_role(g as int) == FocusRole::Group
                        &&& #[trigger] tree.group_members_spec(g as int).contains(x)
                    }
            }
        }),
{
    let root = traversal_root_of(st);
    if st.modal_stack.len() > 0 {
        assert(st.modal_stack[st.modal_stack.len() - 1] == st.modal_stack.last());
    }
    let stops = tree.tab_stops_spec(st, root as int);
    lemma_first_survivor(tree, stops, subtree);
    match tree.first_survivor(stops, subtree) {
        None => {},
        Some(s) => {
            let x = tree.resolve_stop_spec(st, s);
            if tree.spec_role(s as int) == FocusRole::Group {
                let members = tree.group_members_spec(s as int);
                if st.group_memory.contains_key(s) && members.contains(st.group_memory[s]) {
                } else if members.len() > 0 {
                    assert(members.contains(members[0]));
                }
            }
        },
    }
}

/// The first survivor of a sequence is an element of it outside the subtree.
proof fn lemma_first_survivor(tree: FocusTree, s: Seq<FocusId>, subtree: FocusId)
    ensures
        tree.first_survivor(s, subtree) matches Some(x) ==> s.contains(x) && !tree.is_desc(
            x as int,
            subtree as int,
        ),
    decreases s.len(),
{
    if s.len() > 0 {
        if !tree.is_desc(s[0] as int, subtree as int) {
            assert(s[0] == s[0]);
        } else {
            lemma_first_survivor(tree, s.drop_first(), subtree);
            if let Some(x) = tree.first_survivor(s.drop_first(), subtree) {
                let i = choose|i: int| 0 <= i < s.drop_first().len() && s.drop_first()[i] == x;
                assert(s[i + 1] == x);
            }
        }
    }
}

/// The Esc target is the traversal root whenever a scope is entered.
pub proof fn law_esc_target_is_the_confining_scope(st: FocusStateView)
    requires
        st.modal_stack.len() > 0,
    ensures
        traversal_root_of(st) == st.modal_stack.last().scope,
{
}

/// Entering a modal scope pushes one entry for it, confines traversal to it
/// (it is the traversal root and the Esc target), and focuses the initial
/// focus of the state it leaves: landing on that focus again lands on it.
pub proof fn law_entry_focuses_the_initial_focus(tree: FocusTree, st: FocusStateView, scope: FocusId)
    requires
        tree.wf(),
        scope < tree.spec_len(),
        tree.spec_role(scope as int) == FocusRole::ModalScope,
    ensures
        ({
            let s1 = tree.enter_modal_spec(st, scope).0;
            &&& tree.enter_modal_spec(st, scope).1
            &&& s1.modal_stack.len() == st.modal_stack.len() + 1
            &&& s1.modal_stack.last().scope == scope
            &&& traversal_root_of(s1) == scope
            &&& s1.focused == tree.initial_focus_spec(s1)
        }),
{
    let pushed = with_modal_stack(st, st.modal_stack.push(ModalEntry { scope, restore_to: st.focused }));
    let entering = tree.initial_focus_spec(pushed);
    let s1 = tree.set_focus_spec(pushed, entering);
    assert(s1 == tree.enter_modal_spec(st, scope).0);
    assert(traversal_root_of(pushed) == scope);
    assert(traversal_root_of(s1) == scope);
    lemma_stops_follow_the_stack(tree, s1, pushed, scope as int, true);
    let stops = tree.tab_stops_spec(pushed, scope as int);
    if stops.len() > 0 {
        tree.lemma_stops_from(pushed, scope as int, true);
        let s0 = stops[0];
        assert(s0 < tree.spec_len());
        if tree.spec_role(s0 as int) == FocusRole::Group {
            let members = tree.group_members_spec(s0 as int);
            let i = tree.resolve_stop_spec(pushed, s0);
            if members.contains(i) {
                law_a_members_nearest_group_is_its_group(tree, s0 as int, i);
                assert(s1.group_memory[s0] == i);
            } else {
                assert(i == s0) by {
                    if pushed.group_memory.contains_key(s0) && members.contains(pushed.group_memory[s0]) {
                    } else if members.len() > 0 {
                        assert(members.contains(members[0]));
                    }
                }
                assert(tree.nearest_spec(s0 as int, FocusRole::Group) == Some(s0));
                assert(s1.group_memory[s0] == s0);
                assert(members.len() == 0) by {
                    if members.len() > 0 {
                        assert(members.contains(members[0]));
                    }
                }
            }
        }
    }
}

/// Leaving a modal scope restores the focus captured when it was entered,
/// whatever moved focus in between (focus moves keep the modal stack), and
/// puts the modal stack back as it was before the entry.
pub proof fn law_exit_restores_the_focus_held_at_entry(
    tree: FocusTree,
    st: FocusStateView,
    scope: FocusId,
    later: FocusStateView,
)
    requires
        tree.spec_role(scope as int) == FocusRole::ModalScope,
        later.modal_stack == tree.enter_modal_spec(st, scope).0.modal_stack,
    ensures
        tree.exit_modal_spec(later).1 == st.focused,
        tree.exit_modal_spec(later).0.focused == st.focused,
        tree.exit_modal_spec(later).0.modal_stack == st.modal_stack,
{
    let s1 = tree.enter_modal_spec(st, scope).0;
    assert(s1.modal_stack == st.modal_stack.push(ModalEntry { scope, restore_to: st.focused }));
    assert(later.modal_stack.drop_last() =~= st.modal_stack);
}

/// Moving focus, by `set_focus` or an arrow outcome, leaves the modal stack
/// as it was.
pub proof fn law_focus_moves_keep_the_modal_stack(
    tree: FocusTree,
    st: FocusStateView,
    id: Option<FocusId>,
    outcome: ArrowOutcome,
)
    ensures
        tree.set_focus_spec(st, id).modal_stack == st.modal_stack,
        tree.apply_arrow_spec(st, outcome).modal_stack == st.modal_stack,
{
}

proof fn lemma_active_items_upto_members(tree: FocusTree, list: int, k: int, x: FocusId)
    requires
        0 <= k <= tree.spec_children(list).len(),
    ensures
        tree.active_items_upto(list, k).contains(x) <==> exists|j: int|
            0 <= j < k && #[trigger] tree.spec_children(list)[j] == x && x < tree.spec_len() && tree.spec_role(
                x as int,
            ) == FocusRole::ActiveItem && tree.spec_enabled(x as int),
    decreases k,
{
    if k > 0 {
        lemma_active_items_upto_members(tree, list, k - 1, x);
        let c = tree.spec_children(list)[k - 1];
        let rest = tree.active_items_upto(list, k - 1);
        if tree.active_items_upto(list, k).contains(x) {
            let i = choose|i: int| 0 <= i < tree.active_items_upto(list, k).len() && tree.active_items_upto(list, k)[i] == x;
            if i < rest.len() {
                assert(rest[i] == x);
            }
        }
        if exists|j: int|
            0 <= j < k && #[trigger] tree.spec_children(list)[j] == x && x < tree.spec_len() && tree.spec_role(
                x as int,
            ) == FocusRole::ActiveItem && tree.spec_enabled(x as int) {
            let j = choose|j: int|
                0 <= j < k && #[trigger] tree.spec_children(list)[j] == x && x < tree.spec_len() && tree.spec_role(
                    x as int,
                ) == FocusRole::ActiveItem && tree.spec_enabled(x as int);
            if j < k - 1 {
                let i = choose|i: int| 0 <= i < rest.len() && rest[i] == x;
                assert(tree.active_items_upto(list, k)[i] == x);
            } else {
                let t = tree.active_items_upto(list, k);
                assert(t[t.len() - 1] == x);
            }
        }
    }
}

/// The active items of a list are exactly its children that are enabled
/// `ActiveItem` nodes: a disabled item, or a child of another role, is never
/// one of them.
pub proof fn law_active_items_are_the_enabled_item_children(tree: FocusTree, list: int, x: FocusId)
    ensures
        tree.active_items_spec(list).contains(x) <==> {
            &&& tree.spec_children(list).contains(x)
            &&& x < tree.spec_len()
            &&& tree.spec_role(x as int) == FocusRole::ActiveItem
            &&& tree.spec_enabled(x as int)
        },
{
    lemma_active_items_upto_members(tree, list, tree.spec_children(list).len() as int, x);
    if tree.spec_children(list).contains(x) {
        let j = choose|j: int| 0 <= j < tree.spec_children(list).len() && tree.spec_children(list)[j] == x;
        assert(tree.spec_children(list)[j] == x);
    }
}

/// An arrow that moves an active item makes active an enabled `ActiveItem`
/// child of that list, and leaves focus where it was.
pub proof fn law_arrow_activates_only_enabled_items(tree: FocusTree, st: FocusStateView, arrow: Arrow)
    requires
        tree.wf(),
        tree.valid_state(st),
    ensures
        tree.arrow_spec(st, arrow) matches ArrowOutcome::MovedActiveItem { list, item } ==> {
            &&& tree.spec_children(list as int).contains(item)
            &&& item < tree.spec_len()
            &&& tree.spec_role(item as int) == FocusRole::ActiveItem
            &&& tree.spec_enabled(item as int)
            &&& tree.apply_arrow_spec(st, tree.arrow_spec(st, arrow)).focused == st.focused
        },
{
    law_arrow_moves_stay_in_their_container(tree, st, arrow);
    if let ArrowOutcome::MovedActiveItem { list, item } = tree.arrow_spec(st, arrow) {
        law_active_items_are_the_enabled_item_children(tree, list as int, item);
    }
}

/// One step through a cyclic list goes to the neighbouring entry in the
/// step's direction, wrapping past either end; with no current entry a
/// forward step starts at the first and a backward step at the last; and a
/// step back undoes a step forth.
pub proof fn law_cycle_steps_to_the_neighbour(i: int, len: int)
    requires
        0 <= i < len,
    ensures
        i + 1 < len ==> cycle_index(Some(i), true, len) == i + 1,
        i == len - 1 ==> cycle_index(Some(i), true, len) == 0,
        i > 0 ==> cycle_index(Some(i), false, len) == i - 1,
        i == 0 ==> cycle_index(Some(i), false, len) == len - 1,
        cycle_index(None, true, len) == 0,
        cycle_index(None, false, len) == len - 1,
        cycle_index(Some(cycle_index(Some(i), true, len)), false, len) == i,
        cycle_index(Some(cycle_index(Some(i), false, len)), true, len) == i,
{
    assert(i + 1 < len ==> (i + 1) % len == i + 1) by (nonlinear_arith)
        requires
            0 <= i < len,
    ;
    assert(i == len - 1 ==> (i + 1) % len == 0) by (nonlinear_arith)
        requires
            0 <= i < len,
    ;
    assert(i > 0 ==> (i + len - 1) % len == i - 1) by (nonlinear_arith)
        requires
            0 <= i < len,
    ;
    assert(i == 0 ==> (i + len - 1) % len == len - 1) by (nonlinear_arith)
        requires
            0 <= i < len,
    ;
    let f = cycle_index(Some(i), true, len);
    let b = cycle_index(Some(i), false, len);
    assert(0 <= f < len && 0 <= b < len);
    assert(f + 1 < len ==> (f + 1) % len == f + 1) by (nonlinear_arith)
        requires
            0 <= f < len,
    ;
    assert(f == len - 1 ==> (f + 1) % len == 0) by (nonlinear_arith)
        requires
            0 <= f < len,
    ;
    assert(f > 0 ==> (f + len - 1) % len == f - 1) by (nonlinear_arith)
        requires
            0 <= f < len,
    ;
    assert(f == 0 ==> (f + len - 1) % len == len - 1) by (nonlinear_arith)
        requires
            0 <= f < len,
    ;
    assert(b + 1 < len ==> (b + 1) % len == b + 1) by (nonlinear_arith)
        requires
            0 <= b < len,
    ;
    assert(b == len - 1 ==> (b + 1) % len == 0) by (nonlinear_arith)
        requires
            0 <= b < len,
    ;
}

} // verus!
