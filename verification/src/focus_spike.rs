//! A focus projection whose caller supplies the roles a widget tree cannot
//! express (groups, modal scopes, active-item lists), keyed by the
//! pre-order index of the widget they apply to.
use crate::focus::{flatten, project_with, tree_holds, FocusSource};
use crate::focus_core::{FocusId, FocusRole, FocusTree};
use std::collections::BTreeMap;
use vstd::prelude::*;

verus! {

/// `r` is the first index of `widget` in `ws`, or `None` when it is absent.
pub open spec fn is_first_anchor(ws: Seq<u64>, widget: u64, r: Option<FocusId>) -> bool {
    match r {
        Some(i) => i < ws.len() && ws[i as int] == widget && forall|j: int| 0 <= j < i ==> ws[j] != widget,
        None => forall|j: int| 0 <= j < ws.len() ==> ws[j] != widget,
    }
}

/// Looking a node's widget up again gives back that node, when no two nodes
/// came from the same widget (as for live widgets, whose anchors are their
/// distinct addresses).
pub proof fn law_id_of_inverts_widget(widgets: Seq<u64>, id: FocusId, r: Option<FocusId>)
    requires
        widgets.no_duplicates(),
        id < widgets.len(),
        is_first_anchor(widgets, widgets[id as int], r),
    ensures
        r == Some(id),
{
    match r {
        Some(i) => {
            assert(widgets[i as int] == widgets[id as int]);
        },
        None => {
            assert(widgets[id as int] != widgets[id as int]);
        },
    }
}

/// A projected tree plus the anchors of the widgets it came from:
/// `widgets[id]` is the widget that produced focus node `id`.
pub struct Projection {
    pub tree: FocusTree,
    pub widgets: Vec<u64>,
}

impl Projection {
    /// The widget that produced focus node `id`.
    pub fn widget(&self, id: FocusId) -> (w: u64)
        requires
            id < self.widgets@.len(),
        ensures
            w == self.widgets@[id as int],
    {
        self.widgets[id]
    }

    /// The focus id of a widget, by anchor: the first node it produced, or
    /// `None`.
    pub fn id_of(&self, widget: u64) -> (r: Option<FocusId>)
        ensures
            is_first_anchor(self.widgets@, widget, r),
    {
        let mut i: usize = 0;
        while i < self.widgets.len()
            invariant
                i <= self.widgets@.len(),
                forall|j: int| 0 <= j < i ==> self.widgets@[j] != widget,
            decreases self.widgets@.len() - i,
        {
            if self.widgets[i] == widget {
                return Some(i);
            }
            i += 1;
        }
        None
    }
}

/// Walk a widget tree in pre-order and build its focus tree, taking the
/// role of node `i` from `overrides` where it maps `i` and from the widget
/// otherwise.
pub fn project(root: &FocusSource, overrides: &BTreeMap<usize, FocusRole>) -> (p: Projection)
    requires
        flatten(*root, None, 0, Seq::empty(), overrides@).len() < usize::MAX,
    ensures
        ({
            let es = flatten(*root, None, 0, Seq::empty(), overrides@);
            &&& tree_holds(p.tree, es)
            &&& p.widgets@.len() == es.len()
            &&& forall|i: int| 0 <= i < es.len() ==> #[trigger] p.widgets@[i] == es[i].anchor
        }),
{
    let (tree, _paths, widgets) = project_with(root, overrides);
    Projection { tree, widgets }
}

} // verus!
