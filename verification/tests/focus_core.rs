use wasamo_runtime::focus_core::{
    Arrow, ArrowOutcome, FocusId, FocusRole, FocusState, FocusTree, TabDirection,
};

struct Fixture {
    tree: FocusTree,
    tabs: FocusId,
    all: FocusId,
    albums: FocusId,
    favorites: FocusId,
    view_toggle: FocusId,
    thumb0: FocusId,
    thumb1: FocusId,
    lightbox: FocusId,
    prev: FocusId,
    next: FocusId,
}

fn gallery() -> Fixture {
    let mut tree = FocusTree::new();
    let root = tree.push(None, FocusRole::Container, true);
    let toolbar = tree.push(Some(root), FocusRole::Container, true);
    let tabs = tree.push(Some(toolbar), FocusRole::Group, true);
    let all = tree.push(Some(tabs), FocusRole::Stop, true);
    let albums = tree.push(Some(tabs), FocusRole::Stop, true);
    let favorites = tree.push(Some(tabs), FocusRole::Stop, true);
    let view_toggle = tree.push(Some(toolbar), FocusRole::Stop, true);
    let grid = tree.push(Some(root), FocusRole::Container, true);
    let thumb0 = tree.push(Some(grid), FocusRole::Stop, true);
    let thumb1 = tree.push(Some(grid), FocusRole::Stop, true);
    let lightbox = tree.push(Some(root), FocusRole::ModalScope, true);
    let prev = tree.push(Some(lightbox), FocusRole::Stop, true);
    let next = tree.push(Some(lightbox), FocusRole::Stop, true);
    Fixture {
        tree,
        tabs,
        all,
        albums,
        favorites,
        view_toggle,
        thumb0,
        thumb1,
        lightbox,
        prev,
        next,
    }
}

#[test]
fn tab_treats_a_group_as_one_stop() {
    let f = gallery();
    let state = FocusState::default();
    assert_eq!(
        f.tree.tab_stops(&state, 0),
        vec![f.tabs, f.view_toggle, f.thumb0, f.thumb1],
        "a Group is one Tab stop and its members are not stops"
    );
}

#[test]
fn tab_from_inside_a_group_leaves_the_whole_group() {
    let f = gallery();
    let mut state = FocusState::default();
    state.set_focus(&f.tree, Some(f.albums));
    assert_eq!(
        f.tree.tab(&state, TabDirection::Forward),
        Some(f.view_toggle),
        "Tab from the middle member exits the group rather than stepping to its sibling"
    );
}

#[test]
fn a_group_remembers_the_member_that_was_focused() {
    let f = gallery();
    let mut state = FocusState::default();
    state.set_focus(&f.tree, Some(f.favorites));
    state.set_focus(&f.tree, f.tree.tab(&state, TabDirection::Forward));
    assert_eq!(state.focused(), Some(f.view_toggle));
    state.set_focus(&f.tree, f.tree.tab(&state, TabDirection::Backward));
    assert_eq!(
        state.focused(),
        Some(f.favorites),
        "re-entering the group lands on the remembered member, not the first"
    );
    assert_eq!(state.remembered_member_of(f.tabs), Some(f.favorites));
}

#[test]
fn a_group_never_entered_lands_on_its_first_member() {
    let f = gallery();
    let state = FocusState::default();
    assert_eq!(
        f.tree.initial_focus(&state),
        Some(f.all),
        "with no memory the group resolves to its first member"
    );
}

#[test]
fn arrows_move_within_the_group_and_wrap() {
    let f = gallery();
    let mut state = FocusState::default();
    state.set_focus(&f.tree, Some(f.all));
    for expected in [f.albums, f.favorites, f.all] {
        let outcome = f.tree.arrow(&state, Arrow::Next);
        assert_eq!(outcome, ArrowOutcome::MovedFocus(expected));
        state.apply_arrow(&f.tree, outcome);
    }
    let outcome = f.tree.arrow(&state, Arrow::Prev);
    assert_eq!(
        outcome,
        ArrowOutcome::MovedFocus(f.favorites),
        "Prev from the first member wraps to the last"
    );
}

#[test]
fn arrows_outside_a_group_are_not_handled() {
    let f = gallery();
    let mut state = FocusState::default();
    state.set_focus(&f.tree, Some(f.thumb0));
    assert_eq!(
        f.tree.arrow(&state, Arrow::Next),
        ArrowOutcome::NotHandled,
        "the core yields arrows it has no meaning for, so an app handler can take them"
    );
}

fn dropdown() -> (FocusTree, FocusId, FocusId, Vec<FocusId>) {
    let mut tree = FocusTree::new();
    let root = tree.push(None, FocusRole::Container, true);
    let combo = tree.push(Some(root), FocusRole::Stop, true);
    let list = tree.push(Some(combo), FocusRole::ActiveItemList, true);
    let items = (0..3)
        .map(|_| tree.push(Some(list), FocusRole::ActiveItem, true))
        .collect();
    let after = tree.push(Some(root), FocusRole::Stop, true);
    (tree, combo, list, {
        let _ = after;
        items
    })
}

#[test]
fn arrows_move_the_active_item_without_moving_focus() {
    let (tree, combo, list, items) = dropdown();
    let mut state = FocusState::default();
    state.set_focus(&tree, Some(combo));

    let outcome = tree.arrow(&state, Arrow::Next);
    assert_eq!(
        outcome,
        ArrowOutcome::MovedActiveItem {
            list,
            item: items[0]
        }
    );
    state.apply_arrow(&tree, outcome);
    assert_eq!(
        state.focused(),
        Some(combo),
        "focus stayed on the owner while the active item moved"
    );
    assert_eq!(state.active_item_of(list), Some(items[0]));

    let outcome = tree.arrow(&state, Arrow::Next);
    state.apply_arrow(&tree, outcome);
    assert_eq!(state.active_item_of(list), Some(items[1]));
    assert_eq!(state.focused(), Some(combo));
}

#[test]
fn active_items_are_not_tab_stops() {
    let (tree, combo, _list, _items) = dropdown();
    let state = FocusState::default();
    let stops = tree.tab_stops(&state, 0);
    assert_eq!(stops.len(), 2, "combo and the stop after it, and no items");
    assert_eq!(stops[0], combo);
}

#[test]
fn an_unentered_modal_scope_is_not_reachable_by_tab() {
    let f = gallery();
    let state = FocusState::default();
    let stops = f.tree.tab_stops(&state, 0);
    assert!(
        !stops.contains(&f.prev) && !stops.contains(&f.next),
        "a modal subtree that exists but was not entered contributes no stops"
    );
}

#[test]
fn entering_a_modal_scope_confines_tab_to_it() {
    let f = gallery();
    let mut state = FocusState::default();
    state.set_focus(&f.tree, Some(f.thumb1));
    state.enter_modal(&f.tree, f.lightbox);

    assert_eq!(
        state.focused(),
        Some(f.prev),
        "entry lands on the first stop"
    );
    assert_eq!(
        f.tree.tab_stops(&state, f.tree.traversal_root(&state)),
        vec![f.prev, f.next]
    );

    for expected in [f.next, f.prev, f.next] {
        state.set_focus(&f.tree, f.tree.tab(&state, TabDirection::Forward));
        assert_eq!(state.focused(), Some(expected));
    }
}

#[test]
fn leaving_a_modal_scope_restores_the_focus_captured_at_entry() {
    let f = gallery();
    let mut state = FocusState::default();
    state.set_focus(&f.tree, Some(f.thumb1));
    state.enter_modal(&f.tree, f.lightbox);
    state.set_focus(&f.tree, Some(f.next));

    assert_eq!(state.exit_modal(&f.tree), Some(f.thumb1));
    assert_eq!(state.focused(), Some(f.thumb1));
    assert_eq!(state.modal_depth(), 0);
}

#[test]
fn esc_targets_the_innermost_entered_scope_only() {
    let f = gallery();
    let mut state = FocusState::default();
    assert_eq!(
        f.tree.esc_target(&state),
        None,
        "with nothing entered the core claims no Esc"
    );
    state.enter_modal(&f.tree, f.lightbox);
    assert_eq!(f.tree.esc_target(&state), Some(f.lightbox));
}

#[test]
fn removing_the_focused_subtree_falls_to_the_next_surviving_stop() {
    let f = gallery();
    let mut state = FocusState::default();
    state.set_focus(&f.tree, Some(f.thumb0));
    let grid = f.tree.parent(f.thumb0).expect("thumb0 has a parent");
    assert_eq!(
        f.tree.focus_after_removing(&state, grid),
        Some(f.all),
        "the first surviving stop, resolved through the group"
    );
}

#[test]
fn removing_an_unrelated_subtree_leaves_focus_alone() {
    let f = gallery();
    let mut state = FocusState::default();
    state.set_focus(&f.tree, Some(f.thumb0));
    assert_eq!(
        f.tree.focus_after_removing(&state, f.lightbox),
        Some(f.thumb0)
    );
}

#[test]
fn removing_the_entered_scope_restores_rather_than_succeeds() {
    let f = gallery();
    let mut state = FocusState::default();
    state.set_focus(&f.tree, Some(f.thumb1));
    state.enter_modal(&f.tree, f.lightbox);
    assert_eq!(
        f.tree.focus_after_removing(&state, f.lightbox),
        Some(f.thumb1),
        "closing the lightbox by removing its subtree must restore, not fall through"
    );
}

#[test]
fn a_domain_with_no_stops_yields_no_focus() {
    let mut tree = FocusTree::new();
    let root = tree.push(None, FocusRole::Container, true);
    tree.push(Some(root), FocusRole::Container, true);
    let state = FocusState::default();
    assert_eq!(tree.tab(&state, TabDirection::Forward), None);
    assert_eq!(tree.initial_focus(&state), None);
}

#[test]
fn a_disabled_stop_is_skipped() {
    let mut tree = FocusTree::new();
    let root = tree.push(None, FocusRole::Container, true);
    let a = tree.push(Some(root), FocusRole::Stop, true);
    tree.push(Some(root), FocusRole::Stop, false);
    let c = tree.push(Some(root), FocusRole::Stop, true);
    let state = FocusState::default();
    assert_eq!(tree.tab_stops(&state, 0), vec![a, c]);
}

#[test]
fn an_empty_group_is_a_stop_that_resolves_to_itself() {
    let mut tree = FocusTree::new();
    let root = tree.push(None, FocusRole::Container, true);
    let g = tree.push(Some(root), FocusRole::Group, true);
    let state = FocusState::default();
    assert_eq!(
        tree.initial_focus(&state),
        Some(g),
        "a group with no members must not vanish from traversal"
    );
}

#[test]
fn a_node_that_is_not_a_scope_cannot_be_entered_as_one() {
    let f = gallery();
    let mut state = FocusState::default();
    state.set_focus(&f.tree, Some(f.thumb0));
    assert!(
        !state.enter_modal(&f.tree, f.thumb1),
        "only a node annotated as a scope may confine traversal"
    );
    assert_eq!(state.modal_depth(), 0, "the rejected entry changed nothing");
    assert_eq!(state.focused(), Some(f.thumb0));
}

#[test]
fn arrows_with_nothing_focused_are_not_handled() {
    let f = gallery();
    let state = FocusState::default();
    assert_eq!(f.tree.arrow(&state, Arrow::Next), ArrowOutcome::NotHandled);
}

#[test]
fn a_group_memory_pointing_at_a_gone_member_falls_back_to_the_first() {
    let f = gallery();
    let mut state = FocusState::default();
    state.set_focus(&f.tree, Some(f.favorites));
    assert_eq!(
        state.remembered_member_of(f.tabs),
        Some(f.favorites),
        "precondition: the memory names the id this test will make stale"
    );

    let mut rebuilt = FocusTree::new();
    let root = rebuilt.push(None, FocusRole::Container, true);
    let toolbar = rebuilt.push(Some(root), FocusRole::Container, true);
    let tabs = rebuilt.push(Some(toolbar), FocusRole::Group, true);
    let only_member = rebuilt.push(Some(tabs), FocusRole::Stop, true);
    rebuilt.push(Some(toolbar), FocusRole::Stop, true);
    let unrelated = rebuilt.push(Some(root), FocusRole::Stop, true);
    assert_eq!(tabs, f.tabs, "the group kept its id across the rebuild");
    assert_eq!(
        unrelated, f.favorites,
        "the remembered id now names a node outside the group"
    );

    assert_eq!(
        rebuilt.initial_focus(&state),
        Some(only_member),
        "a remembered id that is no longer a member of this group must not \
         be returned as focus"
    );
}

#[test]
fn tab_wraps_at_both_ends_of_the_stop_list() {
    let f = gallery();
    let mut state = FocusState::default();
    state.set_focus(&f.tree, Some(f.thumb1));
    assert_eq!(
        f.tree.tab(&state, TabDirection::Forward),
        Some(f.all),
        "forward from the last stop wraps to the first, resolved through the group"
    );
    state.set_focus(&f.tree, Some(f.all));
    assert_eq!(
        f.tree.tab(&state, TabDirection::Backward),
        Some(f.thumb1),
        "backward from the first stop wraps to the last"
    );
}


/// The gallery with one more stop, inside one more container, after it:
/// a state built against it holds ids the plain gallery does not have.
fn larger_gallery() -> (Fixture, FocusId) {
    let mut f = gallery();
    let extra_box = f.tree.push(Some(0), FocusRole::Container, true);
    let extra = f.tree.push(Some(extra_box), FocusRole::Stop, true);
    (f, extra)
}

#[test]
fn tab_and_removal_work_beside_a_stale_restore_target() {
    let (big, extra) = larger_gallery();
    let small = gallery();
    let mut state = FocusState::default();
    state.set_focus(&big.tree, Some(extra));
    assert!(state.enter_modal(&big.tree, big.lightbox));
    assert_eq!(state.focused(), Some(big.prev));
    assert_eq!(small.tree.tab(&state, TabDirection::Forward), Some(small.next));
    assert_eq!(small.tree.initial_focus(&state), Some(small.prev));
    assert_eq!(small.tree.focus_after_removing(&state, small.thumb0), Some(small.prev));
    assert_eq!(small.tree.focus_after_removing(&state, small.lightbox), Some(extra));
}

#[test]
fn entering_a_scope_records_a_stale_focus_as_its_restore_target() {
    let (big, extra) = larger_gallery();
    let small = gallery();
    let mut state = FocusState::default();
    state.set_focus(&big.tree, Some(extra));
    assert!(state.enter_modal(&small.tree, small.lightbox));
    assert_eq!(state.focused(), Some(small.prev));
    assert_eq!(state.modal_depth(), 1);
    assert_eq!(state.exit_modal(&big.tree), Some(extra));
    assert_eq!(state.modal_depth(), 0);
}

#[test]
fn leaving_a_scope_reads_only_the_innermost_entry() {
    let (big, extra) = larger_gallery();
    let small = gallery();
    let mut state = FocusState::default();
    state.set_focus(&big.tree, Some(extra));
    assert!(state.enter_modal(&big.tree, big.lightbox));
    assert!(state.enter_modal(&big.tree, big.lightbox));
    assert_eq!(state.modal_depth(), 2);
    assert_eq!(state.exit_modal(&small.tree), Some(small.prev));
    assert_eq!(state.focused(), Some(small.prev));
    assert_eq!(state.modal_depth(), 1);
}

#[test]
fn group_members_skip_disabled_stops_and_nested_groups() {
    let mut tree = FocusTree::new();
    let root = tree.push(None, FocusRole::Container, true);
    let group = tree.push(Some(root), FocusRole::Group, true);
    let a = tree.push(Some(group), FocusRole::Stop, true);
    let off = tree.push(Some(group), FocusRole::Stop, false);
    let inner = tree.push(Some(group), FocusRole::Group, true);
    let _hidden = tree.push(Some(inner), FocusRole::Stop, true);
    let wrap = tree.push(Some(group), FocusRole::Container, true);
    let b = tree.push(Some(wrap), FocusRole::Stop, true);
    let _ = off;
    assert_eq!(tree.group_members(group), vec![a, b]);
    let state = FocusState::default();
    assert_eq!(tree.tab_stops(&state, root), vec![group]);
    assert_eq!(tree.tab_stops(&state, wrap), vec![b]);
    assert_eq!(tree.tab_stops(&state, group), vec![a, inner, b]);
}

#[test]
fn entering_focuses_the_scopes_initial_focus_and_exit_restores_after_moves() {
    let f = gallery();
    let mut state = FocusState::default();
    state.set_focus(&f.tree, Some(f.thumb1));
    assert!(state.enter_modal(&f.tree, f.lightbox));
    assert_eq!(state.focused(), f.tree.initial_focus(&state));
    assert_eq!(state.focused(), Some(f.prev));
    assert_eq!(f.tree.esc_target(&state), Some(f.lightbox));
    assert_eq!(f.tree.traversal_root(&state), f.lightbox);
    state.set_focus(&f.tree, Some(f.next));
    state.set_focus(&f.tree, Some(f.prev));
    assert_eq!(state.exit_modal(&f.tree), Some(f.thumb1));
    assert_eq!(state.focused(), Some(f.thumb1));
    assert_eq!(state.modal_depth(), 0);
}
