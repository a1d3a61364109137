use std::collections::BTreeMap;
use wasamo_runtime::focus_spike::project;
use wasamo_runtime::focus::{tab_direction, FocusProjection, FocusSource, VK_TAB};
use wasamo_runtime::focus_core::{FocusRole, FocusState, TabDirection};

// An arbitrary non-Tab virtual-key code (VK_A), used only to show
// `tab_direction` yields `None` for a key that is not Tab.
const VK_A: u16 = 0x41;

#[test]
fn tab_without_shift_is_forward() {
    assert_eq!(tab_direction(VK_TAB, false), Some(TabDirection::Forward));
}

#[test]
fn tab_with_shift_is_backward() {
    assert_eq!(tab_direction(VK_TAB, true), Some(TabDirection::Backward));
}

#[test]
fn a_non_tab_key_is_not_traversals_regardless_of_shift() {
    assert_eq!(tab_direction(VK_A, false), None);
    assert_eq!(tab_direction(VK_A, true), None);
}

fn leaf(role: FocusRole, anchor: u64) -> FocusSource {
    FocusSource { role, enabled: true, anchor, children: Vec::new() }
}

fn sample() -> FocusSource {
    FocusSource {
        role: FocusRole::Container,
        enabled: true,
        anchor: 100,
        children: vec![
            FocusSource {
                role: FocusRole::Container,
                enabled: true,
                anchor: 200,
                children: vec![leaf(FocusRole::Stop, 210), leaf(FocusRole::Stop, 220)],
            },
            leaf(FocusRole::Stop, 300),
        ],
    }
}

#[test]
fn projection_ids_are_pre_order_with_their_paths_and_anchors() {
    let p = FocusProjection::project(&sample());
    assert_eq!(p.tree().len(), 5);
    assert_eq!(p.path(0), Some(&[][..]));
    assert_eq!(p.path(1), Some(&[0][..]));
    assert_eq!(p.path(2), Some(&[0, 0][..]));
    assert_eq!(p.path(3), Some(&[0, 1][..]));
    assert_eq!(p.path(4), Some(&[1][..]));
    assert_eq!(p.path(5), None);
    assert_eq!(p.anchors(), &[100, 200, 210, 220, 300][..]);
    assert_eq!(p.tree().parent(3), Some(1));
    assert_eq!(p.tree().parent(4), Some(0));
    assert_eq!(p.tree().role(2), FocusRole::Stop);
}

#[test]
fn projection_finds_ids_by_path_and_by_anchor() {
    let p = FocusProjection::project(&sample());
    assert_eq!(p.id_of_path(&[0, 1]), Some(3));
    assert_eq!(p.id_of_path(&[2]), None);
    assert_eq!(p.id_of_anchor(300), Some(4));
    assert_eq!(p.id_of_anchor(999), None);
}

#[test]
fn tab_over_a_projected_tree_visits_stops_in_pre_order() {
    let p = FocusProjection::project(&sample());
    let state = FocusState::default();
    assert_eq!(p.tree().tab(&state, TabDirection::Forward), Some(2));
    assert_eq!(p.tree().tab(&state, TabDirection::Backward), Some(4));
}

#[test]
fn spike_projection_applies_role_overrides_by_pre_order_index() {
    let mut overrides = BTreeMap::new();
    overrides.insert(1, FocusRole::Group);
    let p = project(&sample(), &overrides);
    assert_eq!(p.tree.role(1), FocusRole::Group);
    assert_eq!(p.tree.role(2), FocusRole::Stop);
    assert_eq!(p.widget(3), 220);
    assert_eq!(p.id_of(300), Some(4));
    assert_eq!(p.id_of(7), None);
}

#[test]
fn looking_up_a_nodes_widget_gives_back_the_node() {
    let p = project(&sample(), &BTreeMap::new());
    for id in 0..p.widgets.len() {
        assert_eq!(p.id_of(p.widget(id)), Some(id));
    }
}
