//! Hit testing: which widget a pointer position lands on.
//!
//! The tree walked here records, for one query point, what the walk reads of
//! each widget: whether it has a rectangle and whether that rectangle holds
//! the point, and whether it clips its children to that rectangle. The
//! geometry itself (a point against a rectangle of `f32` coordinates) is
//! computed by the caller when it builds the tree.
use vstd::prelude::*;

verus! {

/// One widget as the hit walk sees it, for a fixed query point.
#[derive(Debug)]
pub struct HitNode {
    /// `None` when the widget has no rectangle; otherwise whether its
    /// rectangle holds the query point (left and top edges in, right and
    /// bottom edges out).
    pub rect_contains: Option<bool>,
    /// Whether the widget clips its subtree to its own rectangle.
    pub clips: bool,
    /// Children in paint order: a later child paints over an earlier one.
    pub children: Vec<HitNode>,
}

/// The node itself is under the point.
pub open spec fn hits_itself(n: HitNode) -> bool {
    n.rect_contains == Some(true)
}

/// The path (child indices from `n`) of the topmost node under the point,
/// or `None`. A clipping node whose own rectangle misses the point (or that
/// has no rectangle) hides its whole subtree; otherwise the children are
/// tried from the last painted to the first, and the node itself is the
/// target only when no child is.
pub open spec fn resolve_spec(n: HitNode) -> Option<Seq<usize>>
    decreases n, 1int, 0int,
{
    if n.clips && !hits_itself(n) {
        None
    } else {
        match topmost_child(n, n.children@.len() as int) {
            Some(p) => Some(p),
            None => if hits_itself(n) {
                Some(Seq::empty())
            } else {
                None
            },
        }
    }
}

/// The target among children `k - 1`, `k - 2`, ..., `0` of `n`, trying the
/// later ones first; its path starts with the child's index.
pub open spec fn topmost_child(n: HitNode, k: int) -> Option<Seq<usize>>
    decreases n, 0int, k,
{
    if k <= 0 || k > n.children@.len() {
        None
    } else {
        proof {
            assert(decreases_to!(n => n.children@[k - 1]));
        }
        match resolve_spec(n.children@[k - 1]) {
            Some(p) => Some(seq![(k - 1) as usize] + p),
            None => topmost_child(n, k - 1),
        }
    }
}

/// The node reached from `n` by following `p`, when every index is in range.
pub open spec fn node_at(n: HitNode, p: Seq<usize>) -> Option<HitNode>
    decreases p.len(),
{
    if p.len() == 0 {
        Some(n)
    } else if p[0] < n.children@.len() {
        node_at(n.children@[p[0] as int], p.drop_first())
    } else {
        None
    }
}

/// No clipping node from `n` down along `p` (the target excluded) misses
/// the point.
pub open spec fn unclipped_along(n: HitNode, p: Seq<usize>) -> bool
    decreases p.len(),
{
    if p.len() == 0 {
        true
    } else {
        &&& (n.clips ==> hits_itself(n))
        &&& p[0] < n.children@.len()
        &&& unclipped_along(n.children@[p[0] as int], p.drop_first())
    }
}

/// Resolve the topmost node under the point: its path of child indices
/// from `root` (empty for `root` itself), or `None` when nothing is hit.
pub fn resolve_topmost(root: &HitNode) -> (r: Option<Vec<usize>>)
    ensures
        match r {
            Some(v) => resolve_spec(*root) == Some(v@),
            None => resolve_spec(*root) is None,
        },
    decreases root,
{
    let own = match root.rect_contains {
        Some(b) => b,
        None => false,
    };
    if root.clips && !own {
        return None;
    }
    let len = root.children.len();
    let mut i = len;
    while i > 0
        invariant
            i <= len == root.children@.len(),
            topmost_child(*root, len as int) == topmost_child(*root, i as int),
            own == hits_itself(*root),
            !(root.clips && !own),
        decreases i,
    {
        proof {
            assert(decreases_to!(root => root.children@[i - 1]));
        }
        match resolve_topmost(&root.children[i - 1]) {
            Some(path) => {
                let mut out: Vec<usize> = Vec::new();
                out.push(i - 1);
                let mut k: usize = 0;
                while k < path.len()
                    invariant
                        k <= path@.len(),
                        out@ == seq![(i - 1) as usize] + path@.subrange(0, k as int),
                    decreases path@.len() - k,
                {
                    out.push(path[k]);
                    k += 1;
                    assert(out@ =~= seq![(i - 1) as usize] + path@.subrange(0, k as int));
                }
                assert(path@.subrange(0, path@.len() as int) =~= path@);
                return Some(out);
            },
            None => {},
        }
        i -= 1;
    }
    if own {
        Some(Vec::new())
    } else {
        None
    }
}

/// The target of a hit is under the point, and no clipping widget on the
/// way down to it hides it: the path names a node of the tree, that node's
/// own rectangle holds the point, and every clipping ancestor's rectangle
/// holds it too.
pub proof fn law_target_is_hit_and_unclipped(n: HitNode, p: Seq<usize>)
    requires
        resolve_spec(n) == Some(p),
    ensures
        node_at(n, p) matches Some(t) && hits_itself(t),
        unclipped_along(n, p),
    decreases n, 1int, 0int,
{
    let len = n.children@.len() as int;
    match topmost_child(n, len) {
        Some(q) => {
            lemma_topmost_child_target(n, len, q);
        },
        None => {},
    }
}

proof fn lemma_topmost_child_target(n: HitNode, k: int, p: Seq<usize>)
    requires
        topmost_child(n, k) == Some(p),
        !(n.clips && !hits_itself(n)),
    ensures
        node_at(n, p) matches Some(t) && hits_itself(t),
        unclipped_along(n, p),
    decreases n, 0int, k,
{
    assert(0 < k <= n.children@.len());
    assert(n.children@.len() == n.children.len());
    assert(decreases_to!(n => n.children@[k - 1]));
    let c = n.children@[k - 1];
    match resolve_spec(c) {
        Some(q) => {
            law_target_is_hit_and_unclipped(c, q);
            assert(p == seq![(k - 1) as usize] + q);
            assert(p.drop_first() =~= q);
        },
        None => {
            lemma_topmost_child_target(n, k - 1, p);
        },
    }
}

/// A later sibling paints over an earlier one, and a child over its parent:
/// when the target lies under child `i` of the root, no later child has a
/// target of its own, and the rest of the path is that child's own target;
/// when the target is the root itself, no child has a target.
pub proof fn law_topmost_wins(n: HitNode, p: Seq<usize>)
    requires
        resolve_spec(n) == Some(p),
    ensures
        p.len() == 0 ==> hits_itself(n) && forall|j: int|
            0 <= j < n.children@.len() ==> (#[trigger] resolve_spec(n.children@[j])) is None,
        p.len() > 0 ==> {
            &&& p[0] < n.children@.len()
            &&& resolve_spec(n.children@[p[0] as int]) == Some(p.drop_first())
            &&& forall|j: int| p[0] < j < n.children@.len() ==> (#[trigger] resolve_spec(n.children@[j])) is None
        },
{
    let len = n.children@.len() as int;
    lemma_topmost_child_shape(n, len);
}

proof fn lemma_topmost_child_shape(n: HitNode, k: int)
    requires
        0 <= k <= n.children@.len(),
    ensures
        topmost_child(n, k) is None ==> forall|j: int| 0 <= j < k ==> (#[trigger] resolve_spec(n.children@[j])) is None,
        topmost_child(n, k) matches Some(p) ==> {
            &&& p.len() > 0
            &&& p[0] < k
            &&& resolve_spec(n.children@[p[0] as int]) == Some(p.drop_first())
            &&& forall|j: int| p[0] < j < k ==> (#[trigger] resolve_spec(n.children@[j])) is None
        },
    decreases k,
{
    if k > 0 {
        assert(n.children@.len() == n.children.len());
        lemma_topmost_child_shape(n, k - 1);
        match resolve_spec(n.children@[k - 1]) {
            Some(q) => {
                let p = seq![(k - 1) as usize] + q;
                assert(p.drop_first() =~= q);
            },
            None => {},
        }
    }
}

} // verus!
