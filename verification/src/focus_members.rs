//! What a group's members and a domain's Tab stops are, stated without the
//! walks that collect them: the enabled nodes below that nothing on the way
//! up cuts off.
use crate::focus_core::{is_entered_spec, FocusId, FocusRole, FocusStateView, FocusTree};
use vstd::prelude::*;

verus! {

/// `x` lies on the way up from `m` to `a`.
pub open spec fn between(t: FocusTree, m: int, x: int, a: int) -> bool {
    t.is_desc(m, x) && t.is_desc(x, a)
}

/// `m` is an enabled `Stop` at or below `a`, and no `Stop` or `Group` lies on
/// the way up from `m` to `a`, `a` included and `m` excluded.
pub open spec fn reached_member(t: FocusTree, a: int, m: int) -> bool {
    &&& 0 <= m < t.spec_len()
    &&& t.spec_role(m) == FocusRole::Stop
    &&& t.spec_enabled(m)
    &&& t.is_desc(m, a)
    &&& forall|x: int|
        x != m && #[trigger] between(t, m, x, a) ==> t.spec_role(x) != FocusRole::Stop && t.spec_role(x)
            != FocusRole::Group
}

/// `m` is a member of group `g`: an enabled `Stop` strictly below `g` with no
/// `Stop` or `Group` strictly between them.
pub open spec fn is_group_member(t: FocusTree, g: int, m: int) -> bool {
    &&& 0 <= m < t.spec_len()
    &&& m != g
    &&& t.spec_role(m) == FocusRole::Stop
    &&& t.spec_enabled(m)
    &&& t.is_desc(m, g)
    &&& forall|x: int|
        x != m && x != g && #[trigger] between(t, m, x, g) ==> t.spec_role(x) != FocusRole::Stop
            && t.spec_role(x) != FocusRole::Group
}

proof fn lemma_desc_step(t: FocusTree, m: int, a: int)
    requires
        t.is_desc(m, a),
        m != a,
    ensures
        0 <= m < t.spec_len(),
        t.spec_parent(m) is Some,
        t.spec_parent(m)->0 < m,
        t.is_desc(t.spec_parent(m)->0 as int, a),
{
}

proof fn lemma_parent_desc(t: FocusTree, c: int)
    requires
        t.wf(),
        0 <= c < t.spec_len(),
        t.spec_parent(c) is Some,
    ensures
        t.is_desc(c, t.spec_parent(c)->0 as int),
{
    let p = t.spec_parent(c)->0 as int;
    assert(p < c);
    assert(t.is_desc(p, p));
}

/// A node and one of its ancestors are separated by nothing when the node's
/// parent is that ancestor.
proof fn lemma_nothing_between_child_and_parent(t: FocusTree, c: int, x: int)
    requires
        t.wf(),
        0 <= c < t.spec_len(),
        t.spec_parent(c) is Some,
        t.is_desc(c, x),
        t.is_desc(x, t.spec_parent(c)->0 as int),
    ensures
        x == c || x == t.spec_parent(c)->0 as int,
{
    let p = t.spec_parent(c)->0 as int;
    if x != c {
        lemma_desc_step(t, c, x);
        t.lemma_desc_ge(p, x);
        t.lemma_desc_ge(x, p);
    }
}

/// Two ancestors of one node are ancestor and descendant of each other.
proof fn lemma_two_ancestors(t: FocusTree, m: int, a: int, b: int)
    requires
        t.is_desc(m, a),
        t.is_desc(m, b),
    ensures
        t.is_desc(a, b) || t.is_desc(b, a),
    decreases m,
{
    if m != a && m != b {
        lemma_desc_step(t, m, a);
        lemma_desc_step(t, m, b);
        lemma_two_ancestors(t, t.spec_parent(m)->0 as int, a, b);
    }
}

/// The child of `g` on the way up from a node strictly below `g`.
proof fn lemma_path_child(t: FocusTree, m: int, g: int) -> (c: int)
    requires
        t.wf(),
        t.is_desc(m, g),
        m != g,
    ensures
        0 <= c < t.spec_len(),
        t.spec_parent(c) == Some(g as FocusId),
        t.is_desc(m, c),
    decreases m,
{
    lemma_desc_step(t, m, g);
    let p = t.spec_parent(m)->0 as int;
    assert(t.is_desc(m, m));
    if p == g {
        m
    } else {
        let c = lemma_path_child(t, p, g);
        lemma_parent_desc(t, m);
        t.lemma_desc_trans(m, p, c);
        c
    }
}

/// Below `a`, reaching a member from one of `a`'s children is reaching it
/// strictly below `a`.
proof fn lemma_via_children(t: FocusTree, a: int, m: int)
    requires
        t.wf(),
        0 <= a < t.spec_len(),
    ensures
        (exists|j: int|
            0 <= j < t.spec_children(a).len() && reached_member(t, #[trigger] t.spec_children(a)[j] as int, m))
            <==> is_group_member(t, a, m),
{
    if exists|j: int|
        0 <= j < t.spec_children(a).len() && reached_member(t, #[trigger] t.spec_children(a)[j] as int, m) {
        let j = choose|j: int|
            0 <= j < t.spec_children(a).len() && reached_member(t, #[trigger] t.spec_children(a)[j] as int, m);
        let c = t.spec_children(a)[j] as int;
        assert(a < c < t.spec_len() && t.spec_parent(c) == Some(a as FocusId));
        lemma_parent_desc(t, c);
        t.lemma_desc_trans(m, c, a);
        t.lemma_desc_ge(m, c);
        assert forall|x: int| x != m && x != a && #[trigger] between(t, m, x, a) implies t.spec_role(x)
            != FocusRole::Stop && t.spec_role(x) != FocusRole::Group by {
            lemma_two_ancestors(t, m, x, c);
            if !t.is_desc(x, c) {
                lemma_nothing_between_child_and_parent(t, c, x);
                assert(t.is_desc(c, c));
            }
            assert(between(t, m, x, c));
        }
    }
    if is_group_member(t, a, m) {
        let c = lemma_path_child(t, m, a);
        assert(t.spec_children(a).contains(c as FocusId));
        let j = choose|j: int| 0 <= j < t.spec_children(a).len() && t.spec_children(a)[j] == c as FocusId;
        lemma_parent_desc(t, c);
        t.lemma_desc_ge(m, c);
        assert forall|x: int| x != m && #[trigger] between(t, m, x, c) implies t.spec_role(x)
            != FocusRole::Stop && t.spec_role(x) != FocusRole::Group by {
            t.lemma_desc_trans(x, c, a);
            t.lemma_desc_ge(x, c);
            assert(between(t, m, x, a));
        }
        assert(reached_member(t, t.spec_children(a)[j] as int, m));
    }
}

proof fn lemma_members_children_char(t: FocusTree, a: int, k: int, m: FocusId)
    requires
        t.wf(),
        0 <= a < t.spec_len(),
        0 <= k <= t.spec_children(a).len(),
    ensures
        t.members_children(a, k).contains(m) <==> exists|j: int|
            0 <= j < k && #[trigger] t.members_from(t.spec_children(a)[j] as int).contains(m),
    decreases k,
{
    if k > 0 {
        lemma_members_children_char(t, a, k - 1, m);
        let c = t.spec_children(a)[k - 1];
        let rest = t.members_children(a, k - 1);
        let tail = t.members_from(c as int);
        assert(a < c < t.spec_len());
        assert(t.members_children(a, k) == rest + tail);
        if rest.contains(m) {
            let i = choose|i: int| 0 <= i < rest.len() && rest[i] == m;
            assert((rest + tail)[i] == m);
        }
        if tail.contains(m) {
            let i = choose|i: int| 0 <= i < tail.len() && tail[i] == m;
            assert((rest + tail)[rest.len() + i] == m);
            assert(t.members_from(t.spec_children(a)[k - 1] as int).contains(m));
        }
        if (rest + tail).contains(m) {
            let i = choose|i: int| 0 <= i < (rest + tail).len() && (rest + tail)[i] == m;
            if i < rest.len() {
                assert(rest[i] == m);
            } else {
                assert(tail[i - rest.len()] == m);
            }
        }
        if exists|j: int| 0 <= j < k && #[trigger] t.members_from(t.spec_children(a)[j] as int).contains(m) {
            let j = choose|j: int| 0 <= j < k && #[trigger] t.members_from(t.spec_children(a)[j] as int).contains(m);
            if j < k - 1 {
                assert(rest.contains(m));
            }
        }
    }
}

proof fn lemma_members_from_char(t: FocusTree, a: int, m: FocusId)
    requires
        t.wf(),
        0 <= a < t.spec_len(),
    ensures
        t.members_from(a).contains(m) <==> reached_member(t, a, m as int),
    decreases t.spec_len() - a,
{
    let role = t.spec_role(a);
    assert(t.is_desc(a, a));
    if role == FocusRole::Stop || role == FocusRole::Group {
        if m as int != a {
            if t.is_desc(m as int, a) {
                assert(between(t, m as int, a, a));
            }
        } else {
            assert forall|x: int| x != m && #[trigger] between(t, m as int, x, a) implies t.spec_role(x)
                != FocusRole::Stop && t.spec_role(x) != FocusRole::Group by {
                t.lemma_desc_ge(m as int, x);
                t.lemma_desc_ge(x, a);
            }
        }
        if role == FocusRole::Stop && t.spec_enabled(a) {
            assert(t.members_from(a) == seq![a as FocusId]);
            assert(t.members_from(a)[0] == a as FocusId);
        }
    } else {
        let n = t.spec_children(a).len() as int;
        lemma_members_children_char(t, a, n, m);
        lemma_via_children(t, a, m as int);
        if t.members_from(a).contains(m) {
            let j = choose|j: int| 0 <= j < n && #[trigger] t.members_from(t.spec_children(a)[j] as int).contains(m);
            let c = t.spec_children(a)[j] as int;
            assert(a < c < t.spec_len());
            lemma_members_from_char(t, c, m);
            assert(is_group_member(t, a, m as int));
        }
        if reached_member(t, a, m as int) {
            assert(m as int != a);
            assert(is_group_member(t, a, m as int));
            let j = choose|j: int|
                0 <= j < n && reached_member(t, #[trigger] t.spec_children(a)[j] as int, m as int);
            let c = t.spec_children(a)[j] as int;
            assert(a < c < t.spec_len());
            lemma_members_from_char(t, c, m);
        }
    }
}

/// The members of a group are exactly the enabled `Stop` nodes strictly
/// below it with no `Stop` or `Group` strictly between: nested groups are not
/// flattened, and a disabled stop is no member.
pub proof fn law_group_members_are_the_unseparated_stops(t: FocusTree, g: int, m: FocusId)
    requires
        t.wf(),
        0 <= g < t.spec_len(),
    ensures
        t.group_members_spec(g).contains(m) <==> is_group_member(t, g, m as int),
{
    let n = t.spec_children(g).len() as int;
    lemma_members_children_char(t, g, n, m);
    lemma_via_children(t, g, m as int);
    if t.group_members_spec(g).contains(m) {
        let j = choose|j: int| 0 <= j < n && #[trigger] t.members_from(t.spec_children(g)[j] as int).contains(m);
        let c = t.spec_children(g)[j] as int;
        assert(g < c < t.spec_len());
        lemma_members_from_char(t, c, m);
    }
    if is_group_member(t, g, m as int) {
        let j = choose|j: int|
            0 <= j < n && reached_member(t, #[trigger] t.spec_children(g)[j] as int, m as int);
        let c = t.spec_children(g)[j] as int;
        assert(g < c < t.spec_len());
        lemma_members_from_char(t, c, m);
    }
}

/// The Tab walk goes through `x` to the nodes below it: `x` is a `Container`
/// or an entered `ModalScope`.
pub open spec fn walk_passes(t: FocusTree, st: FocusStateView, x: int) -> bool {
    ||| t.spec_role(x) == FocusRole::Container
    ||| (t.spec_role(x) == FocusRole::ModalScope && is_entered_spec(st, x as FocusId))
}

/// `s` is an enabled `Stop` or `Group` at or below `a`, and the walk passes
/// every node on the way up from `s` to `a`, `a` included and `s` excluded.
pub open spec fn reached_stop(t: FocusTree, st: FocusStateView, a: int, s: int) -> bool {
    &&& 0 <= s < t.spec_len()
    &&& (t.spec_role(s) == FocusRole::Stop || t.spec_role(s) == FocusRole::Group)
    &&& t.spec_enabled(s)
    &&& t.is_desc(s, a)
    &&& forall|x: int| x != s && #[trigger] between(t, s, x, a) ==> walk_passes(t, st, x)
}

/// `s` is a Tab stop of the domain rooted at `root`: an enabled `Stop` or
/// `Group` strictly below `root` such that every node strictly between them
/// is a `Container` or an entered `ModalScope`.
pub open spec fn is_tab_stop(t: FocusTree, st: FocusStateView, root: int, s: int) -> bool {
    &&& 0 <= s < t.spec_len()
    &&& s != root
    &&& (t.spec_role(s) == FocusRole::Stop || t.spec_role(s) == FocusRole::Group)
    &&& t.spec_enabled(s)
    &&& t.is_desc(s, root)
    &&& forall|x: int| x != s && x != root && #[trigger] between(t, s, x, root) ==> walk_passes(t, st, x)
}

proof fn lemma_stops_via_children(t: FocusTree, st: FocusStateView, a: int, s: int)
    requires
        t.wf(),
        0 <= a < t.spec_len(),
    ensures
        (exists|j: int|
            0 <= j < t.spec_children(a).len() && reached_stop(t, st, #[trigger] t.spec_children(a)[j] as int, s))
            <==> is_tab_stop(t, st, a, s),
{
    if exists|j: int|
        0 <= j < t.spec_children(a).len() && reached_stop(t, st, #[trigger] t.spec_children(a)[j] as int, s) {
        let j = choose|j: int|
            0 <= j < t.spec_children(a).len() && reached_stop(t, st, #[trigger] t.spec_children(a)[j] as int, s);
        let c = t.spec_children(a)[j] as int;
        assert(a < c < t.spec_len() && t.spec_parent(c) == Some(a as FocusId));
        lemma_parent_desc(t, c);
        t.lemma_desc_trans(s, c, a);
        t.lemma_desc_ge(s, c);
        assert forall|x: int| x != s && x != a && #[trigger] between(t, s, x, a) implies walk_passes(t, st, x) by {
            lemma_two_ancestors(t, s, x, c);
            if !t.is_desc(x, c) {
                lemma_nothing_between_child_and_parent(t, c, x);
                assert(t.is_desc(c, c));
            }
            assert(between(t, s, x, c));
        }
    }
    if is_tab_stop(t, st, a, s) {
        let c = lemma_path_child(t, s, a);
        assert(t.spec_children(a).contains(c as FocusId));
        let j = choose|j: int| 0 <= j < t.spec_children(a).len() && t.spec_children(a)[j] == c as FocusId;
        lemma_parent_desc(t, c);
        t.lemma_desc_ge(s, c);
        assert forall|x: int| x != s && #[trigger] between(t, s, x, c) implies walk_passes(t, st, x) by {
            t.lemma_desc_trans(x, c, a);
            t.lemma_desc_ge(x, c);
            assert(between(t, s, x, a));
        }
        assert(reached_stop(t, st, t.spec_children(a)[j] as int, s));
    }
}

proof fn lemma_stops_children_char(t: FocusTree, st: FocusStateView, a: int, k: int, s: FocusId)
    requires
        t.wf(),
        0 <= a < t.spec_len(),
        0 <= k <= t.spec_children(a).len(),
    ensures
        t.stops_children(st, a, k).contains(s) <==> exists|j: int|
            0 <= j < k && #[trigger] t.stops_from(st, t.spec_children(a)[j] as int, false).contains(s),
    decreases k,
{
    if k > 0 {
        lemma_stops_children_char(t, st, a, k - 1, s);
        let c = t.spec_children(a)[k - 1];
        let rest = t.stops_children(st, a, k - 1);
        let tail = t.stops_from(st, c as int, false);
        assert(a < c < t.spec_len());
        assert(t.stops_children(st, a, k) == rest + tail);
        if rest.contains(s) {
            let i = choose|i: int| 0 <= i < rest.len() && rest[i] == s;
            assert((rest + tail)[i] == s);
        }
        if tail.contains(s) {
            let i = choose|i: int| 0 <= i < tail.len() && tail[i] == s;
            assert((rest + tail)[rest.len() + i] == s);
            assert(t.stops_from(st, t.spec_children(a)[k - 1] as int, false).contains(s));
        }
        if (rest + tail).contains(s) {
            let i = choose|i: int| 0 <= i < (rest + tail).len() && (rest + tail)[i] == s;
            if i < rest.len() {
                assert(rest[i] == s);
            } else {
                assert(tail[i - rest.len()] == s);
            }
        }
        if exists|j: int| 0 <= j < k && #[trigger] t.stops_from(st, t.spec_children(a)[j] as int, false).contains(s) {
            let j = choose|j: int|
                0 <= j < k && #[trigger] t.stops_from(st, t.spec_children(a)[j] as int, false).contains(s);
            if j < k - 1 {
                assert(rest.contains(s));
            }
        }
    }
}

proof fn lemma_stops_from_char(t: FocusTree, st: FocusStateView, a: int, s: FocusId)
    requires
        t.wf(),
        0 <= a < t.spec_len(),
    ensures
        t.stops_from(st, a, false).contains(s) <==> reached_stop(t, st, a, s as int),
    decreases t.spec_len() - a,
{
    assert(t.is_desc(a, a));
    if !walk_passes(t, st, a) {
        if s as int != a {
            if t.is_desc(s as int, a) {
                assert(between(t, s as int, a, a));
            }
        } else {
            assert forall|x: int| x != s && #[trigger] between(t, s as int, x, a) implies walk_passes(t, st, x) by {
                t.lemma_desc_ge(s as int, x);
                t.lemma_desc_ge(x, a);
            }
        }
        let role = t.spec_role(a);
        if (role == FocusRole::Stop || role == FocusRole::Group) && t.spec_enabled(a) {
            assert(t.stops_from(st, a, false) == seq![a as FocusId]);
            assert(t.stops_from(st, a, false)[0] == a as FocusId);
        }
    } else {
        let n = t.spec_children(a).len() as int;
        lemma_stops_children_char(t, st, a, n, s);
        lemma_stops_via_children(t, st, a, s as int);
        if t.stops_from(st, a, false).contains(s) {
            let j = choose|j: int|
                0 <= j < n && #[trigger] t.stops_from(st, t.spec_children(a)[j] as int, false).contains(s);
            let c = t.spec_children(a)[j] as int;
            assert(a < c < t.spec_len());
            lemma_stops_from_char(t, st, c, s);
            assert(is_tab_stop(t, st, a, s as int));
        }
        if reached_stop(t, st, a, s as int) {
            assert(s as int != a);
            assert(is_tab_stop(t, st, a, s as int));
            let j = choose|j: int|
                0 <= j < n && reached_stop(t, st, #[trigger] t.spec_children(a)[j] as int, s as int);
            let c = t.spec_children(a)[j] as int;
            assert(a < c < t.spec_len());
            lemma_stops_from_char(t, st, c, s);
        }
    }
}

/// The Tab stops of the domain rooted at `root` are exactly the enabled
/// `Stop` and `Group` nodes strictly below it with nothing but `Container`s
/// and entered `ModalScope`s strictly between: a group counts once and is not
/// looked into, and a scope that is not entered hides what it holds.
pub proof fn law_tab_stops_are_the_unhidden_stops(t: FocusTree, st: FocusStateView, root: int, s: FocusId)
    requires
        t.wf(),
        0 <= root < t.spec_len(),
    ensures
        t.tab_stops_spec(st, root).contains(s) <==> is_tab_stop(t, st, root, s as int),
{
    let n = t.spec_children(root).len() as int;
    assert(t.tab_stops_spec(st, root) == t.stops_children(st, root, n));
    lemma_stops_children_char(t, st, root, n, s);
    lemma_stops_via_children(t, st, root, s as int);
    if t.tab_stops_spec(st, root).contains(s) {
        let j = choose|j: int|
            0 <= j < n && #[trigger] t.stops_from(st, t.spec_children(root)[j] as int, false).contains(s);
        let c = t.spec_children(root)[j] as int;
        assert(root < c < t.spec_len());
        lemma_stops_from_char(t, st, c, s);
    }
    if is_tab_stop(t, st, root, s as int) {
        let j = choose|j: int|
            0 <= j < n && reached_stop(t, st, #[trigger] t.spec_children(root)[j] as int, s as int);
        let c = t.spec_children(root)[j] as int;
        assert(root < c < t.spec_len());
        lemma_stops_from_char(t, st, c, s);
    }
}

/// The subtrees of two different children of one node share no node.
proof fn lemma_children_apart(t: FocusTree, a: int, i: int, j: int, x: int)
    requires
        t.wf(),
        0 <= a < t.spec_len(),
        0 <= i < j < t.spec_children(a).len(),
    ensures
        !(t.is_desc(x, t.spec_children(a)[i] as int) && t.is_desc(x, t.spec_children(a)[j] as int)),
{
    let ci = t.spec_children(a)[i] as int;
    let cj = t.spec_children(a)[j] as int;
    if t.is_desc(x, ci) && t.is_desc(x, cj) {
        assert(ci < cj);
        assert(t.spec_parent(ci) == Some(a as FocusId) && t.spec_parent(cj) == Some(a as FocusId));
        lemma_two_ancestors(t, x, ci, cj);
        if t.is_desc(ci, cj) {
            lemma_desc_step(t, ci, cj);
            t.lemma_desc_ge(a, cj);
        } else {
            lemma_desc_step(t, cj, ci);
            t.lemma_desc_ge(a, ci);
        }
    }
}

/// Two lists with no repeats and no common element make a list with no
/// repeats.
proof fn lemma_concat_distinct(r: Seq<FocusId>, q: Seq<FocusId>)
    requires
        r.no_duplicates(),
        q.no_duplicates(),
        forall|i: int, j: int| 0 <= i < r.len() && 0 <= j < q.len() ==> r[i] != q[j],
    ensures
        (r + q).no_duplicates(),
{
    let s = r + q;
    assert forall|i: int, j: int| 0 <= i < s.len() && 0 <= j < s.len() && i != j implies s[i] != s[j] by {
        if i < r.len() && j < r.len() {
            assert(s[i] == r[i] && s[j] == r[j]);
        } else if i >= r.len() && j >= r.len() {
            assert(s[i] == q[i - r.len()] && s[j] == q[j - r.len()]);
        } else if i < r.len() {
            assert(s[i] == r[i] && s[j] == q[j - r.len()]);
        } else {
            assert(s[j] == r[j] && s[i] == q[i - r.len()]);
        }
    }
}

proof fn lemma_members_children_distinct(t: FocusTree, a: int, k: int)
    requires
        t.wf(),
        0 <= a < t.spec_len(),
        0 <= k <= t.spec_children(a).len(),
    ensures
        t.members_children(a, k).no_duplicates(),
    decreases t.spec_len() - a, k,
{
    if k > 0 {
        let c = t.spec_children(a)[k - 1] as int;
        let rest = t.members_children(a, k - 1);
        let tail = t.members_from(c);
        assert(a < c < t.spec_len());
        lemma_members_children_distinct(t, a, k - 1);
        lemma_members_from_distinct(t, c);
        t.lemma_members_from(c);
        assert forall|p: int, q: int| 0 <= p < rest.len() && 0 <= q < tail.len() implies rest[p] != tail[q] by {
            let x = tail[q];
            if rest[p] == x {
                lemma_members_children_char(t, a, k - 1, x);
                assert(rest.contains(x));
                let j = choose|j: int| 0 <= j < k - 1 && #[trigger] t.members_from(t.spec_children(a)[j] as int).contains(x);
                let cj = t.spec_children(a)[j] as int;
                assert(a < cj < t.spec_len());
                t.lemma_members_from(cj);
                let i = choose|i: int| 0 <= i < t.members_from(cj).len() && t.members_from(cj)[i] == x;
                assert(t.is_desc(x as int, cj));
                assert(t.is_desc(tail[q] as int, c));
                lemma_children_apart(t, a, j, k - 1, x as int);
            }
        }
        lemma_concat_distinct(rest, tail);
        assert(t.members_children(a, k) == rest + tail);
    }
}

proof fn lemma_members_from_distinct(t: FocusTree, a: int)
    requires
        t.wf(),
        0 <= a < t.spec_len(),
    ensures
        t.members_from(a).no_duplicates(),
    decreases t.spec_len() - a, t.spec_children(a).len() + 1,
{
    let role = t.spec_role(a);
    if !(role == FocusRole::Stop || role == FocusRole::Group) {
        lemma_members_children_distinct(t, a, t.spec_children(a).len() as int);
    }
}

/// A group's member list names each member once.
pub proof fn law_group_members_are_distinct(t: FocusTree, g: int)
    requires
        t.wf(),
        0 <= g < t.spec_len(),
    ensures
        t.group_members_spec(g).no_duplicates(),
{
    lemma_members_children_distinct(t, g, t.spec_children(g).len() as int);
}

proof fn lemma_stops_children_distinct(t: FocusTree, st: FocusStateView, a: int, k: int)
    requires
        t.wf(),
        0 <= a < t.spec_len(),
        0 <= k <= t.spec_children(a).len(),
    ensures
        t.stops_children(st, a, k).no_duplicates(),
    decreases t.spec_len() - a, k,
{
    if k > 0 {
        let c = t.spec_children(a)[k - 1] as int;
        let rest = t.stops_children(st, a, k - 1);
        let tail = t.stops_from(st, c, false);
        assert(a < c < t.spec_len());
        lemma_stops_children_distinct(t, st, a, k - 1);
        lemma_stops_from_distinct(t, st, c);
        t.lemma_stops_from(st, c, false);
        assert forall|p: int, q: int| 0 <= p < rest.len() && 0 <= q < tail.len() implies rest[p] != tail[q] by {
            let x = tail[q];
            if rest[p] == x {
                lemma_stops_children_char(t, st, a, k - 1, x);
                assert(rest.contains(x));
                let j = choose|j: int|
                    0 <= j < k - 1 && #[trigger] t.stops_from(st, t.spec_children(a)[j] as int, false).contains(x);
                let cj = t.spec_children(a)[j] as int;
                assert(a < cj < t.spec_len());
                t.lemma_stops_from(st, cj, false);
                let i = choose|i: int| 0 <= i < t.stops_from(st, cj, false).len() && t.stops_from(st, cj, false)[i] == x;
                assert(t.is_desc(x as int, cj));
                assert(t.is_desc(tail[q] as int, c));
                lemma_children_apart(t, a, j, k - 1, x as int);
            }
        }
        lemma_concat_distinct(rest, tail);
        assert(t.stops_children(st, a, k) == rest + tail);
    }
}

proof fn lemma_stops_from_distinct(t: FocusTree, st: FocusStateView, a: int)
    requires
        t.wf(),
        0 <= a < t.spec_len(),
    ensures
        t.stops_from(st, a, false).no_duplicates(),
    decreases t.spec_len() - a, t.spec_children(a).len() + 1,
{
    if walk_passes(t, st, a) {
        lemma_stops_children_distinct(t, st, a, t.spec_children(a).len() as int);
    }
}

/// A domain's Tab stop list names each stop once.
pub proof fn law_tab_stops_are_distinct(t: FocusTree, st: FocusStateView, root: int)
    requires
        t.wf(),
        0 <= root < t.spec_len(),
    ensures
        t.tab_stops_spec(st, root).no_duplicates(),
{
    lemma_stops_children_distinct(t, st, root, t.spec_children(root).len() as int);
}

proof fn lemma_nearest_group_on_path(t: FocusTree, g: int, m: int, x: int)
    requires
        t.wf(),
        0 <= g < t.spec_len(),
        t.spec_role(g) == FocusRole::Group,
        is_group_member(t, g, m),
        t.is_desc(m, x),
        t.is_desc(x, g),
    ensures
        t.nearest_spec(x, FocusRole::Group) == Some(g as FocusId),
    decreases x,
{
    if x != g {
        assert(between(t, m, x, g));
        assert(t.spec_role(x) != FocusRole::Group);
        lemma_desc_step(t, x, g);
        let p = t.spec_parent(x)->0 as int;
        lemma_parent_desc(t, x);
        t.lemma_desc_trans(m, x, p);
        lemma_nearest_group_on_path(t, g, m, p);
    }
}

/// The nearest group above a member of a group is that group.
pub proof fn law_a_members_nearest_group_is_its_group(t: FocusTree, g: int, m: FocusId)
    requires
        t.wf(),
        0 <= g < t.spec_len(),
        t.spec_role(g) == FocusRole::Group,
        t.group_members_spec(g).contains(m),
    ensures
        t.nearest_spec(m as int, FocusRole::Group) == Some(g as FocusId),
{
    law_group_members_are_the_unseparated_stops(t, g, m);
    assert(t.is_desc(m as int, m as int));
    lemma_nearest_group_on_path(t, g, m as int, m as int);
}

/// The Tab stops depend on the state only through its modal stack.
pub proof fn lemma_stops_follow_the_stack(t: FocusTree, a: FocusStateView, b: FocusStateView, id: int, is_root: bool)
    requires
        t.wf(),
        a.modal_stack == b.modal_stack,
    ensures
        t.stops_from(a, id, is_root) == t.stops_from(b, id, is_root),
    decreases t.spec_len() - id, t.spec_children(id).len() + 1,
{
    if 0 <= id < t.spec_len() {
        assert(is_entered_spec(a, id as FocusId) == is_entered_spec(b, id as FocusId));
        lemma_stops_children_follow_the_stack(t, a, b, id, t.spec_children(id).len() as int);
    }
}

proof fn lemma_stops_children_follow_the_stack(t: FocusTree, a: FocusStateView, b: FocusStateView, id: int, k: int)
    requires
        t.wf(),
        a.modal_stack == b.modal_stack,
        0 <= id < t.spec_len(),
    ensures
        t.stops_children(a, id, k) == t.stops_children(b, id, k),
    decreases t.spec_len() - id, k,
{
    if 0 < k <= t.spec_children(id).len() {
        lemma_stops_children_follow_the_stack(t, a, b, id, k - 1);
        let c = t.spec_children(id)[k - 1];
        if id < c < t.spec_len() {
            lemma_stops_follow_the_stack(t, a, b, c as int, false);
        }
    }
}

} // verus!
