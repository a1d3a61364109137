//! The per-window side of focus: reading a live widget tree into the
//! annotated [`FocusTree`] that [`crate::focus_core`] traverses, and the key
//! that traversal takes.
//!
//! A widget tree is read through [`FocusSource`]: for each widget, its focus
//! role and enabled state, an anchor that identifies the widget (its
//! address) and its children. The projection walks it once in pre-order, so
//! a node's [`FocusId`] is its pre-order index, and records for every id the
//! path of child indices that leads to its widget and that widget's anchor.
use crate::focus_core::{FocusId, FocusRole, FocusTree, TabDirection};
use std::collections::BTreeMap;
use vstd::prelude::*;

verus! {

broadcast use vstd::std_specs::btree::group_btree_axioms, vstd::laws_cmp::group_laws_cmp;

/// The virtual-key code of the Tab key.
pub const VK_TAB: u16 = 9;

/// Which way Tab moves: `Some(Forward)` for Tab, `Some(Backward)` for
/// Shift+Tab, and `None` for any other key, which traversal does not take.
pub fn tab_direction(vk: u16, shift_down: bool) -> (r: Option<TabDirection>)
    ensures
        r == (if vk != VK_TAB {
            None
        } else if shift_down {
            Some(TabDirection::Backward)
        } else {
            Some(TabDirection::Forward)
        }),
{
    if vk != VK_TAB {
        return None;
    }
    Some(
        if shift_down {
            TabDirection::Backward
        } else {
            TabDirection::Forward
        },
    )
}

/// What the projection reads of one widget.
#[derive(Debug)]
pub struct FocusSource {
    pub role: FocusRole,
    pub enabled: bool,
    /// Identifies the widget across projections (its address); compared,
    /// never followed.
    pub anchor: u64,
    pub children: Vec<FocusSource>,
}

/// What the projection records for one focus node.
pub struct ProjEntry {
    pub parent: Option<FocusId>,
    pub role: FocusRole,
    pub enabled: bool,
    pub anchor: u64,
    pub path: Seq<usize>,
}

/// The role node `id` gets: the one `ov` assigns to it, else its widget's.
pub open spec fn role_of(n: FocusSource, id: int, ov: Map<usize, FocusRole>) -> FocusRole {
    if ov.contains_key(id as usize) {
        ov[id as usize]
    } else {
        n.role
    }
}

/// The entries of the subtree rooted at `n`, in pre-order, when `n` gets id
/// `base`, hangs under `parent` and is reached by `path`; `ov` overrides the
/// roles of the ids it maps.
pub open spec fn flatten(
    n: FocusSource,
    parent: Option<FocusId>,
    base: int,
    path: Seq<usize>,
    ov: Map<usize, FocusRole>,
) -> Seq<ProjEntry>
    decreases n, 1int, 0int,
{
    seq![ProjEntry { parent, role: role_of(n, base, ov), enabled: n.enabled, anchor: n.anchor, path }]
        + flatten_children(n, base, path, 0, base + 1, ov)
}

/// The entries of children `k..` of `n` (whose id is `id`), the first of them
/// getting id `next`.
pub open spec fn flatten_children(
    n: FocusSource,
    id: int,
    path: Seq<usize>,
    k: int,
    next: int,
    ov: Map<usize, FocusRole>,
) -> Seq<ProjEntry>
    decreases n, 0int, n.children@.len() - k,
{
    if k < 0 || k >= n.children@.len() {
        Seq::empty()
    } else {
        proof {
            assert(decreases_to!(n => n.children@[k]));
        }
        let c = flatten(n.children@[k], Some(id as FocusId), next, path.push(k as usize), ov);
        c + flatten_children(n, id, path, k + 1, next + c.len(), ov)
    }
}

/// The ids among the first `m` entries whose parent is `i`, ascending.
pub open spec fn child_ids(es: Seq<ProjEntry>, i: int, m: int) -> Seq<FocusId>
    decreases m,
{
    if m <= 0 {
        Seq::empty()
    } else if es[m - 1].parent == Some(i as FocusId) {
        child_ids(es, i, m - 1).push((m - 1) as FocusId)
    } else {
        child_ids(es, i, m - 1)
    }
}

/// The tree, paths and anchors hold exactly the entries `es`: node `i` has
/// the parent, role and enabled state of `es[i]`, its children are the ids
/// naming it as parent in ascending order, and `i` maps to `es[i]`'s path
/// and anchor.
pub open spec fn holds_entries(tree: FocusTree, paths: Seq<Seq<usize>>, anchors: Seq<u64>, es: Seq<ProjEntry>) -> bool {
    &&& tree_holds(tree, es)
    &&& paths.len() == es.len()
    &&& anchors.len() == es.len()
    &&& forall|i: int|
        #![trigger paths[i]]
        #![trigger anchors[i]]
        0 <= i < es.len() ==> {
            &&& paths[i] == es[i].path
            &&& anchors[i] == es[i].anchor
        }
}

/// The tree holds exactly the entries `es`: node `i` has the parent, role
/// and enabled state of `es[i]`, and its children are the ids naming it as
/// parent, in ascending order.
pub open spec fn tree_holds(tree: FocusTree, es: Seq<ProjEntry>) -> bool {
    &&& tree.wf()
    &&& tree.spec_len() == es.len()
    &&& forall|i: int|
        0 <= i < es.len() ==> {
            &&& #[trigger] tree.spec_parent(i) == es[i].parent
            &&& tree.spec_role(i) == es[i].role
            &&& tree.spec_enabled(i) == es[i].enabled
            &&& tree.spec_children(i) == child_ids(es, i, es.len() as int)
        }
}

proof fn lemma_child_ids_prefix(es: Seq<ProjEntry>, x: ProjEntry, i: int, m: int)
    requires
        0 <= m <= es.len(),
    ensures
        child_ids(es.push(x), i, m) == child_ids(es, i, m),
    decreases m,
{
    if m > 0 {
        lemma_child_ids_prefix(es, x, i, m - 1);
        assert(es.push(x)[m - 1] == es[m - 1]);
    }
}

proof fn lemma_child_ids_bounded(es: Seq<ProjEntry>, i: int, m: int)
    requires
        0 <= m <= es.len(),
        forall|j: int| 0 <= j < m ==> (#[trigger] es[j].parent) != Some(i as FocusId),
    ensures
        child_ids(es, i, m) == Seq::<FocusId>::empty(),
    decreases m,
{
    if m > 0 {
        lemma_child_ids_bounded(es, i, m - 1);
    }
}

/// The pre-order walk: push `node` under `parent`, then each child in turn,
/// recording paths and anchors by id.
fn walk(
    node: &FocusSource,
    parent: Option<FocusId>,
    path: &Vec<usize>,
    tree: &mut FocusTree,
    paths: &mut Vec<Vec<usize>>,
    anchors: &mut Vec<u64>,
    overrides: &BTreeMap<usize, FocusRole>,
    Ghost(prefix): Ghost<Seq<ProjEntry>>,
)
    requires
        holds_entries(*old(tree), old(paths)@.map_values(|p: Vec<usize>| p@), old(anchors)@, prefix),
        parent is None <==> prefix.len() == 0,
        parent matches Some(p) ==> p < prefix.len(),
        prefix.len() + flatten(*node, parent, prefix.len() as int, path@, overrides@).len() < usize::MAX,
        forall|j: int| 0 <= j < prefix.len() && parent is None ==> (#[trigger] prefix[j].parent) is None,
    ensures
        holds_entries(
            *final(tree),
            final(paths)@.map_values(|p: Vec<usize>| p@),
            final(anchors)@,
            prefix + flatten(*node, parent, prefix.len() as int, path@, overrides@),
        ),
    decreases node,
{
    let ghost base = prefix.len() as int;
    let ghost ov = overrides@;
    let ghost entry = ProjEntry {
        parent,
        role: role_of(*node, base, ov),
        enabled: node.enabled,
        anchor: node.anchor,
        path: path@,
    };
    let ghost whole = prefix + flatten(*node, parent, base, path@, ov);
    proof {
        assert(flatten(*node, parent, base, path@, ov).len() >= 1);
    }
    let index = paths.len();
    let role = match overrides.get(&index) {
        Some(r) => *r,
        None => node.role,
    };
    assert(index as int == base);
    assert(role == role_of(*node, base, ov));
    let id = tree.push(parent, role, node.enabled);
    paths.push(path.clone());
    anchors.push(node.anchor);
    let ghost acc0 = prefix.push(entry);
    proof {
        assert forall|i: int| 0 <= i < acc0.len() implies {
            &&& #[trigger] tree.spec_parent(i) == acc0[i].parent
            &&& tree.spec_role(i) == acc0[i].role
            &&& tree.spec_enabled(i) == acc0[i].enabled
            &&& tree.spec_children(i) == child_ids(acc0, i, acc0.len() as int)
            &&& paths@.map_values(|p: Vec<usize>| p@)[i] == acc0[i].path
            &&& anchors@[i] == acc0[i].anchor
        } by {
            if i < id {
                assert(old(paths)@.map_values(|p: Vec<usize>| p@)[i] == prefix[i].path);
                assert(old(anchors)@[i] == prefix[i].anchor);
                assert(old(tree).spec_parent(i) == prefix[i].parent);
            }
            lemma_child_ids_prefix(prefix, entry, i, prefix.len() as int);
            if i == id {
                assert forall|j: int| 0 <= j < acc0.len() implies (#[trigger] acc0[j].parent) != Some(i as FocusId) by {
                    if j < id {
                        assert(old(tree).spec_parent(j) == prefix[j].parent);
                        assert(tree.spec_parent(j) == old(tree).spec_parent(j));
                    }
                }
                lemma_child_ids_bounded(acc0, i, acc0.len() as int);
            }
        }
        let pv = paths@.map_values(|p: Vec<usize>| p@);
        assert forall|i: int| 0 <= i < acc0.len() implies {
            &&& #[trigger] pv[i] == acc0[i].path
            &&& anchors@[i] == acc0[i].anchor
        } by {
            assert(tree.spec_parent(i) == acc0[i].parent);
        }
        assert(holds_entries(*tree, pv, anchors@, acc0));
        assert(whole =~= acc0 + flatten_children(*node, base, path@, 0, base + 1, ov));
    }
    let ghost mut acc = acc0;
    let n = node.children.len();
    let mut k: usize = 0;
    while k < n
        invariant
            n == node.children@.len(),
            0 <= k <= n,
            id == base,
            base == prefix.len(),
            holds_entries(*tree, paths@.map_values(|p: Vec<usize>| p@), anchors@, acc),
            acc.len() > base,
            whole == acc + flatten_children(*node, base, path@, k as int, acc.len() as int, ov),
            ov == overrides@,
            whole.len() < usize::MAX,
        decreases n - k,
    {
        proof {
            assert(decreases_to!(node => node.children@[k as int]));
            assert(node.children@.len() == node.children.len());
        }
        let mut child_path = path.clone();
        child_path.push(k);
        let ghost c = flatten(node.children@[k as int], Some(id), acc.len() as int, child_path@, ov);
        proof {
            assert(path@.push(k as usize) =~= child_path@);
            assert(flatten_children(*node, base, path@, k as int, acc.len() as int, ov) =~= c + flatten_children(
                *node,
                base,
                path@,
                k + 1,
                (acc.len() + c.len()) as int,
                ov,
            ));
        }
        walk(&node.children[k], Some(id), &child_path, tree, paths, anchors, overrides, Ghost(acc));
        proof {
            acc = acc + c;
            assert(whole =~= acc + flatten_children(*node, base, path@, k + 1, acc.len() as int, ov));
        }
        k += 1;
    }
    proof {
        assert(whole =~= acc);
    }
}

/// Walk `root` in pre-order into a focus tree, with the path and anchor of
/// every id; `overrides` replaces the roles of the ids it maps.
pub(crate) fn project_with(root: &FocusSource, overrides: &BTreeMap<usize, FocusRole>) -> (r: (
    FocusTree,
    Vec<Vec<usize>>,
    Vec<u64>,
))
    requires
        flatten(*root, None, 0, Seq::empty(), overrides@).len() < usize::MAX,
    ensures
        holds_entries(r.0, r.1@.map_values(|p: Vec<usize>| p@), r.2@, flatten(*root, None, 0, Seq::empty(), overrides@)),
{
    let mut tree = FocusTree::new();
    let mut paths: Vec<Vec<usize>> = Vec::new();
    let mut anchors: Vec<u64> = Vec::new();
    let empty: Vec<usize> = Vec::new();
    proof {
        assert(paths@.map_values(|p: Vec<usize>| p@) =~= Seq::<Seq<usize>>::empty());
        assert(empty@ =~= Seq::<usize>::empty());
    }
    walk(root, None, &empty, &mut tree, &mut paths, &mut anchors, overrides, Ghost(Seq::empty()));
    proof {
        assert(Seq::<ProjEntry>::empty() + flatten(*root, None, 0, Seq::empty(), overrides@) =~= flatten(
            *root,
            None,
            0,
            Seq::empty(),
            overrides@,
        ));
    }
    (tree, paths, anchors)
}

/// A widget tree read as a focus tree, with the path and anchor that
/// produced each id.
pub struct FocusProjection {
    tree: FocusTree,
    paths: Vec<Vec<usize>>,
    anchors: Vec<u64>,
}

impl FocusProjection {
    /// The focus tree.
    pub closed spec fn spec_tree(&self) -> FocusTree {
        self.tree
    }

    /// `spec_paths()[id]`: the child indices from the root to the widget
    /// that produced focus node `id`.
    pub closed spec fn spec_paths(&self) -> Seq<Seq<usize>> {
        self.paths@.map_values(|p: Vec<usize>| p@)
    }

    /// `spec_anchors()[id]`: the anchor of the widget that produced `id`.
    pub closed spec fn spec_anchors(&self) -> Seq<u64> {
        self.anchors@
    }

    /// Walk `root` in pre-order and build the annotated tree: node `i` is
    /// the `i`-th widget of the walk, with its role, enabled state, parent
    /// (in the widget tree), path and anchor.
    pub fn project(root: &FocusSource) -> (p: Self)
        requires
            flatten(*root, None, 0, Seq::empty(), Map::empty()).len() < usize::MAX,
        ensures
            holds_entries(
                p.spec_tree(),
                p.spec_paths(),
                p.spec_anchors(),
                flatten(*root, None, 0, Seq::empty(), Map::empty()),
            ),
    {
        let no_overrides: BTreeMap<usize, FocusRole> = BTreeMap::new();
        let (tree, paths, anchors) = project_with(root, &no_overrides);
        FocusProjection { tree, paths, anchors }
    }

    /// The focus tree.
    pub fn tree(&self) -> (t: &FocusTree)
        ensures
            *t == self.spec_tree(),
    {
        &self.tree
    }

    /// The path that produced focus node `id`, or `None` when `id` names no
    /// node of this projection.
    pub fn path(&self, id: FocusId) -> (r: Option<&[usize]>)
        ensures
            match r {
                Some(s) => id < self.spec_paths().len() && s@ == self.spec_paths()[id as int],
                None => id >= self.spec_paths().len(),
            },
    {
        if id < self.paths.len() {
            Some(self.paths[id].as_slice())
        } else {
            None
        }
    }

    /// The id of the widget at `path`, or `None` when no node was built from
    /// it.
    pub fn id_of_path(&self, path: &[usize]) -> (r: Option<FocusId>)
        ensures
            match r {
                Some(i) => i < self.spec_paths().len() && self.spec_paths()[i as int] == path@ && forall|j: int|
                    0 <= j < i ==> self.spec_paths()[j] != path@,
                None => forall|j: int| 0 <= j < self.spec_paths().len() ==> self.spec_paths()[j] != path@,
            },
    {
        let mut i: usize = 0;
        while i < self.paths.len()
            invariant
                i <= self.paths@.len(),
                forall|j: int| 0 <= j < i ==> self.spec_paths()[j] != path@,
            decreases self.paths@.len() - i,
        {
            if slices_equal(self.paths[i].as_slice(), path) {
                return Some(i);
            }
            i += 1;
        }
        None
    }

    /// The anchors, indexed by focus id.
    pub fn anchors(&self) -> (a: &[u64])
        ensures
            a@ == self.spec_anchors(),
    {
        self.anchors.as_slice()
    }

    /// The id whose widget has anchor `node`, or `None` when this projection
    /// never reached such a widget.
    pub fn id_of_anchor(&self, node: u64) -> (r: Option<FocusId>)
        ensures
            match r {
                Some(i) => i < self.spec_anchors().len() && self.spec_anchors()[i as int] == node && forall|j: int|
                    0 <= j < i ==> self.spec_anchors()[j] != node,
                None => forall|j: int| 0 <= j < self.spec_anchors().len() ==> self.spec_anchors()[j] != node,
            },
    {
        let mut i: usize = 0;
        while i < self.anchors.len()
            invariant
                i <= self.anchors@.len(),
                forall|j: int| 0 <= j < i ==> self.spec_anchors()[j] != node,
            decreases self.anchors@.len() - i,
        {
            if self.anchors[i] == node {
                return Some(i);
            }
            i += 1;
        }
        None
    }
}

/// The widget reached from `n` by following the child indices `q`.
pub open spec fn source_at(n: FocusSource, q: Seq<usize>) -> Option<FocusSource>
    decreases q.len(),
{
    if q.len() == 0 {
        Some(n)
    } else if q[0] < n.children@.len() {
        source_at(n.children@[q[0] as int], q.drop_first())
    } else {
        None
    }
}

/// Every focus node is explained by its widget: the path recorded for id
/// `i` leads from the root to a widget, and that widget has the role,
/// enabled state and anchor the projection gave node `i`.
pub proof fn law_paths_lead_to_their_widgets(root: FocusSource, i: int)
    requires
        0 <= i < flatten(root, None, 0, Seq::empty(), Map::empty()).len(),
    ensures
        ({
            let e = flatten(root, None, 0, Seq::empty(), Map::empty())[i];
            source_at(root, e.path) matches Some(w) && w.role == e.role && w.enabled == e.enabled && w.anchor
                == e.anchor
        }),
{
    lemma_flatten_paths(root, None, 0, Seq::empty(), Map::empty(), i);
    let e = flatten(root, None, 0, Seq::empty(), Map::empty())[i];
    assert(e.path.subrange(0, 0) + e.path.skip(0) =~= e.path);
}

proof fn lemma_flatten_paths(
    n: FocusSource,
    parent: Option<FocusId>,
    base: int,
    path: Seq<usize>,
    ov: Map<usize, FocusRole>,
    i: int,
)
    requires
        0 <= i < flatten(n, parent, base, path, ov).len(),
        ov == Map::<usize, FocusRole>::empty(),
    ensures
        ({
            let e = flatten(n, parent, base, path, ov)[i];
            &&& e.path.len() >= path.len()
            &&& e.path.subrange(0, path.len() as int) == path
            &&& source_at(n, e.path.skip(path.len() as int)) matches Some(w) && w.role == e.role && w.enabled
                == e.enabled && w.anchor == e.anchor
        }),
    decreases n, 1int, 0int,
{
    let head = seq![ProjEntry { parent, role: role_of(n, base, ov), enabled: n.enabled, anchor: n.anchor, path }];
    let rest = flatten_children(n, base, path, 0, base + 1, ov);
    assert(flatten(n, parent, base, path, ov) == head + rest);
    if i == 0 {
        assert(path.skip(path.len() as int) =~= Seq::<usize>::empty());
        assert(path.subrange(0, path.len() as int) =~= path);
    } else {
        lemma_flatten_children_paths(n, base, path, 0, base + 1, ov, i - 1);
    }
}

proof fn lemma_flatten_children_paths(
    n: FocusSource,
    id: int,
    path: Seq<usize>,
    k: int,
    next: int,
    ov: Map<usize, FocusRole>,
    i: int,
)
    requires
        0 <= i < flatten_children(n, id, path, k, next, ov).len(),
        ov == Map::<usize, FocusRole>::empty(),
    ensures
        ({
            let e = flatten_children(n, id, path, k, next, ov)[i];
            &&& e.path.len() > path.len()
            &&& e.path.subrange(0, path.len() as int) == path
            &&& source_at(n, e.path.skip(path.len() as int)) matches Some(w) && w.role == e.role && w.enabled
                == e.enabled && w.anchor == e.anchor
        }),
    decreases n, 0int, n.children@.len() - k,
{
    assert(0 <= k < n.children@.len());
    assert(n.children@.len() == n.children.len());
    assert(decreases_to!(n => n.children@[k]));
    let child = n.children@[k];
    let cpath = path.push(k as usize);
    let c = flatten(child, Some(id as FocusId), next, cpath, ov);
    let rest = flatten_children(n, id, path, k + 1, next + c.len(), ov);
    assert(flatten_children(n, id, path, k, next, ov) == c + rest);
    if i < c.len() {
        lemma_flatten_paths(child, Some(id as FocusId), next, cpath, ov, i);
        let e = c[i];
        let q = e.path.skip(cpath.len() as int);
        assert(e.path.subrange(0, path.len() as int) =~= e.path.subrange(0, cpath.len() as int).subrange(
            0,
            path.len() as int,
        ));
        let pl = path.len() as int;
        assert(e.path.subrange(0, cpath.len() as int)[pl] == cpath[pl]);
        assert(e.path[pl] == k as usize);
        assert(e.path.skip(pl) =~= seq![k as usize] + q);
        assert((seq![k as usize] + q).drop_first() =~= q);
    } else {
        lemma_flatten_children_paths(n, id, path, k + 1, next + c.len(), ov, i - c.len());
    }
}

/// Two index paths are equal.
fn slices_equal(a: &[usize], b: &[usize]) -> (r: bool)
    ensures
        r == (a@ == b@),
{
    if a.len() != b.len() {
        return false;
    }
    let mut i: usize = 0;
    while i < a.len()
        invariant
            a@.len() == b@.len(),
            i <= a@.len(),
            forall|j: int| 0 <= j < i ==> a@[j] == b@[j],
        decreases a@.len() - i,
    {
        if a[i] != b[i] {
            return false;
        }
        i += 1;
    }
    assert(a@ =~= b@);
    true
}

} // verus!
