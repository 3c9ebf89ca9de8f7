//! What holds of the matching engine for every pattern and every tree.
use vstd::prelude::*;
use vstd::seq_lib::lemma_seq_concat_contains_all_elements;
use crate::engine::{
    CaptureView, all_matches, matches_among, node_match, own_capture, seq_match, unifies,
};
use crate::pattern::{PatternView, Quantifier};
use crate::tree::{NodeView, next_candidate, preorder, preorder_from};

verus! {

/// Wildcard universality: a pattern whose kind is the wildcard unifies with
/// every node, whatever the node's kind.
pub proof fn wildcard_unifies_with_every_node(p: PatternView, n: NodeView)
    requires
        p.kind is None,
    ensures
        unifies(p, n),
{
}

/// The nodes among `nodes` at which `p` matches, in their order.
pub open spec fn matching_nodes(p: PatternView, nodes: Seq<NodeView>) -> Seq<NodeView> {
    nodes.filter(|n: NodeView| node_match(p, n) is Some)
}

/// There is one match for each node at which the pattern matches: the
/// captures of the `k`-th match are those of the pattern at the `k`-th such
/// node.
pub proof fn matches_among_are_matching_nodes(p: PatternView, nodes: Seq<NodeView>)
    ensures
        matches_among(p, nodes).len() == matching_nodes(p, nodes).len(),
        forall|k: int|
            0 <= k < matching_nodes(p, nodes).len() ==> node_match(
                p,
                #[trigger] matching_nodes(p, nodes)[k],
            ) == Some(matches_among(p, nodes)[k]),
    decreases nodes.len(),
{
    reveal(Seq::filter);
    if nodes.len() > 0 {
        matches_among_are_matching_nodes(p, nodes.drop_last());
    }
}

/// Exhaustiveness without duplication: the matches in a tree are as many as
/// the nodes of the tree at which the pattern matches, and the `k`-th match
/// holds the captures of the pattern at the `k`-th of those nodes in
/// pre-order.
pub proof fn one_match_for_each_matching_node(p: PatternView, t: NodeView)
    ensures
        all_matches(p, t).len() == matching_nodes(p, preorder(t)).len(),
        forall|k: int|
            0 <= k < all_matches(p, t).len() ==> node_match(
                p,
                #[trigger] matching_nodes(p, preorder(t))[k],
            ) == Some(all_matches(p, t)[k]),
{
    matches_among_are_matching_nodes(p, preorder(t));
}

/// Whether neither the pattern nor any pattern below it carries a
/// quantifier.
pub open spec fn quantifier_free(p: PatternView) -> bool
    decreases p,
{
    p.quantifier == Quantifier::One && forall|j: int|
        0 <= j < p.children.len() ==> quantifier_free(#[trigger] p.children[j])
}

/// Unification through all children, for a pattern without quantifiers:
/// the node unifies with the pattern, and every child pattern in turn
/// unifies through all children with the next child in its index set.
pub open spec fn unifies_through(p: PatternView, n: NodeView) -> bool
    decreases n,
{
    unifies(p, n) && children_unify(p.children, n.children, 0, 0)
}

/// Unification of the child patterns `ps[j..]`, one child each, with the
/// cursor at child `i`.
pub open spec fn children_unify(ps: Seq<PatternView>, cs: Seq<NodeView>, j: int, i: int) -> bool
    decreases cs, ps.len() - j,
{
    if 0 <= j < ps.len() {
        let t = next_candidate(cs, ps[j].field, i);
        0 <= i <= t < cs.len() && unifies_through(ps[j], cs[t]) && children_unify(
            ps,
            cs,
            j + 1,
            t + 1,
        )
    } else {
        true
    }
}

/// Without quantifiers there is nothing to search for: a pattern matches at
/// a node exactly if it unifies with it through all children.
pub proof fn quantifier_free_match_is_unification(p: PatternView, n: NodeView)
    requires
        quantifier_free(p),
    ensures
        node_match(p, n) is Some <==> unifies_through(p, n),
    decreases n,
{
    quantifier_free_children(p.children, n.children, 0, 0);
}

/// The same for the child patterns `ps[j..]` with the cursor at `i`.
pub proof fn quantifier_free_children(ps: Seq<PatternView>, cs: Seq<NodeView>, j: int, i: int)
    requires
        forall|k: int| 0 <= k < ps.len() ==> quantifier_free(#[trigger] ps[k]),
    ensures
        seq_match(ps, cs, j, i, 0) is Some <==> children_unify(ps, cs, j, i),
    decreases cs, ps.len() - j,
{
    if 0 <= j < ps.len() {
        assert(quantifier_free(ps[j]));
        let t = next_candidate(cs, ps[j].field, i);
        if 0 <= i <= t < cs.len() {
            quantifier_free_match_is_unification(ps[j], cs[t]);
            quantifier_free_children(ps, cs, j + 1, t + 1);
            assert(seq_match(ps, cs, j, t + 1, 1) == seq_match(ps, cs, j + 1, t + 1, 0));
        }
    }
}

/// For a pattern without quantifiers, the number of matches in a tree is the
/// number of its nodes with which the pattern unifies through all children.
pub proof fn quantifier_free_match_count(p: PatternView, t: NodeView)
    requires
        quantifier_free(p),
    ensures
        all_matches(p, t).len() == preorder(t).filter(|n: NodeView| unifies_through(p, n)).len(),
{
    one_match_for_each_matching_node(p, t);
    let by_match = |n: NodeView| node_match(p, n) is Some;
    let by_unification = |n: NodeView| unifies_through(p, n);
    assert forall|n: NodeView| #[trigger] by_match(n) == by_unification(n) by {
        quantifier_free_match_is_unification(p, n);
    }
    same_filter(preorder(t), by_match, by_unification);
}

/// Two predicates that agree everywhere filter alike.
proof fn same_filter(
    nodes: Seq<NodeView>,
    f: spec_fn(NodeView) -> bool,
    g: spec_fn(NodeView) -> bool,
)
    requires
        forall|n: NodeView| #[trigger] f(n) == g(n),
    ensures
        nodes.filter(f) == nodes.filter(g),
    decreases nodes.len(),
{
    reveal(Seq::filter);
    if nodes.len() > 0 {
        same_filter(nodes.drop_last(), f, g);
    }
}

/// Determinism: two runs over the same pattern and tree give the same
/// matches in the same order, since what a run gives is a function of the
/// pattern and the tree.
pub proof fn matching_is_deterministic(
    p: PatternView,
    t: NodeView,
    first: Seq<Seq<CaptureView>>,
    second: Seq<Seq<CaptureView>>,
)
    requires
        first == all_matches(p, t),
        second == all_matches(p, t),
    ensures
        first == second,
{
}

/// The child pattern `_*`: any run of children, none bound.
pub open spec fn any_run() -> PatternView {
    PatternView {
        kind: None,
        capture: None,
        field: None,
        quantifier: Quantifier::ZeroOrMore,
        children: Seq::empty(),
    }
}

/// The child pattern `(kind)@label`: one child of that kind, bound to the
/// label.
pub open spec fn labelled(kind: Seq<char>, label: Seq<char>) -> PatternView {
    PatternView {
        kind: Some(kind),
        capture: Some(label),
        field: None,
        quantifier: Quantifier::One,
        children: Seq::empty(),
    }
}

/// The child patterns `_* (kind)@label _*`.
pub open spec fn flanked(kind: Seq<char>, label: Seq<char>) -> Seq<PatternView> {
    seq![any_run(), labelled(kind, label), any_run()]
}

/// The search of `_* (kind)@label _*` with the cursor at `i`, before the
/// first child of that kind, whatever the first run has taken so far.
proof fn flanked_scan(
    kind: Seq<char>,
    label: Seq<char>,
    cs: Seq<NodeView>,
    t: int,
    i: int,
    count: nat,
)
    requires
        0 <= i <= t < cs.len(),
        cs[t].kind == kind,
        forall|k: int| 0 <= k < t ==> (#[trigger] cs[k]).kind != kind,
    ensures
        seq_match(flanked(kind, label), cs, 0, i, count) == Some(
            seq![CaptureView { label, node: cs[t] }],
        ),
    decreases t - i,
{
    let ps = flanked(kind, label);
    let found = seq![CaptureView { label, node: cs[t] }];
    assert(next_candidate(cs, None, i) == i);
    assert(seq_match(ps, cs, 3, i + 1, 0) == Some(Seq::<CaptureView>::empty()));
    assert(seq_match(ps, cs, 2, i + 1, 0) == Some(Seq::<CaptureView>::empty()));
    assert(seq_match(ps[1].children, cs[i].children, 0, 0, 0) == Some(Seq::<CaptureView>::empty()));
    assert(seq_match(ps[0].children, cs[i].children, 0, 0, 0) == Some(Seq::<CaptureView>::empty()));
    if i == t {
        assert(node_match(ps[1], cs[t]) == Some(found)) by {
            assert(found + Seq::<CaptureView>::empty() =~= found);
        }
        assert(seq_match(ps, cs, 1, t + 1, 1) == Some(Seq::<CaptureView>::empty()));
        assert(seq_match(ps, cs, 1, t, 0) == Some(found)) by {
            assert(found + Seq::<CaptureView>::empty() =~= found);
        }
    } else {
        assert(node_match(ps[1], cs[i]) is None);
        assert(seq_match(ps, cs, 1, i, 0) is None);
        assert(node_match(ps[0], cs[i]) == Some(Seq::<CaptureView>::empty())) by {
            assert(Seq::<CaptureView>::empty() + Seq::<CaptureView>::empty()
                =~= Seq::<CaptureView>::empty());
        }
        flanked_scan(kind, label, cs, t, i + 1, count + 1);
        assert(Seq::<CaptureView>::empty() + found =~= found);
    }
}

/// Split search: among the children `cs`, the child patterns
/// `_* (kind)@label _*` bind the label to the first child of that kind and
/// to nothing else, however many children of other kinds stand before and
/// behind it.
pub proof fn flanked_pattern_binds_first_of_kind(
    kind: Seq<char>,
    label: Seq<char>,
    cs: Seq<NodeView>,
    t: int,
)
    requires
        0 <= t < cs.len(),
        cs[t].kind == kind,
        forall|k: int| 0 <= k < t ==> (#[trigger] cs[k]).kind != kind,
    ensures
        seq_match(flanked(kind, label), cs, 0, 0, 0) == Some(
            seq![CaptureView { label, node: cs[t] }],
        ),
{
    flanked_scan(kind, label, cs, t, 0, 0);
}

/// The search of `_* (kind)@label _*` with the cursor at `i`, among
/// children none of which is of that kind.
proof fn flanked_scan_fails(
    kind: Seq<char>,
    label: Seq<char>,
    cs: Seq<NodeView>,
    i: int,
    count: nat,
)
    requires
        0 <= i <= cs.len(),
        forall|k: int| 0 <= k < cs.len() ==> (#[trigger] cs[k]).kind != kind,
    ensures
        seq_match(flanked(kind, label), cs, 0, i, count) is None,
    decreases cs.len() - i,
{
    let ps = flanked(kind, label);
    if i < cs.len() {
        assert(next_candidate(cs, None, i) == i);
        assert(node_match(ps[1], cs[i]) is None);
        assert(seq_match(ps, cs, 1, i, 0) is None);
        flanked_scan_fails(kind, label, cs, i + 1, count + 1);
    } else {
        assert(next_candidate(cs, None, i) == cs.len());
        assert(seq_match(ps, cs, 1, i, 0) is None);
    }
}

/// Among children none of which is of the kind, `_* (kind)@label _*` finds
/// no placement.
pub proof fn flanked_pattern_needs_one_of_kind(kind: Seq<char>, label: Seq<char>, cs: Seq<NodeView>)
    requires
        forall|k: int| 0 <= k < cs.len() ==> (#[trigger] cs[k]).kind != kind,
    ensures
        seq_match(flanked(kind, label), cs, 0, 0, 0) is None,
{
    flanked_scan_fails(kind, label, cs, 0, 0);
}

/// Whether every capture binds a node that occurs among `nodes`.
pub open spec fn bound_within(captures: Seq<CaptureView>, nodes: Seq<NodeView>) -> bool {
    forall|c: int| 0 <= c < captures.len() ==> nodes.contains((#[trigger] captures[c]).node)
}

/// The nodes of the tree under a child are among the nodes of the trees
/// under the children from `i` on, if the child is one of those.
proof fn child_nodes_are_forest_nodes(cs: Seq<NodeView>, i: int, t: int, x: NodeView)
    requires
        0 <= i <= t < cs.len(),
        preorder(cs[t]).contains(x),
    ensures
        preorder_from(cs, i).contains(x),
    decreases t - i,
{
    lemma_seq_concat_contains_all_elements(preorder(cs[i]), preorder_from(cs, i + 1), x);
    if i < t {
        child_nodes_are_forest_nodes(cs, i + 1, t, x);
    }
}

/// A node of the trees under the children from `i` on is a node of the tree
/// under one of those children.
proof fn forest_node_has_a_child(cs: Seq<NodeView>, i: int, x: NodeView) -> (t: int)
    requires
        0 <= i,
        preorder_from(cs, i).contains(x),
    ensures
        i <= t < cs.len(),
        preorder(cs[t]).contains(x),
    decreases cs.len() - i,
{
    if i < cs.len() {
        lemma_seq_concat_contains_all_elements(preorder(cs[i]), preorder_from(cs, i + 1), x);
        if preorder(cs[i]).contains(x) {
            i
        } else {
            forest_node_has_a_child(cs, i + 1, x)
        }
    } else {
        assert(false);
        0
    }
}

/// A node of the tree under a node of `t` is a node of `t`.
pub proof fn nodes_of_a_subtree(t: NodeView, n: NodeView, x: NodeView)
    requires
        preorder(t).contains(n),
        preorder(n).contains(x),
    ensures
        preorder(t).contains(x),
    decreases t,
{
    lemma_seq_concat_contains_all_elements(seq![t], preorder_from(t.children, 0), n);
    lemma_seq_concat_contains_all_elements(seq![t], preorder_from(t.children, 0), x);
    if seq![t].contains(n) {
        assert(n == t);
    } else {
        let k = forest_node_has_a_child(t.children, 0, n);
        nodes_of_a_subtree(t.children[k], n, x);
        child_nodes_are_forest_nodes(t.children, 0, k, x);
    }
}

/// A match at a node binds nodes of the tree under that node only.
pub proof fn match_binds_nodes_below(p: PatternView, n: NodeView)
    requires
        node_match(p, n) is Some,
    ensures
        bound_within(node_match(p, n)->0, preorder(n)),
    decreases n,
{
    let below = seq_match(p.children, n.children, 0, 0, 0)->0;
    placement_binds_nodes_below(p.children, n.children, 0, 0, 0);
    let all = node_match(p, n)->0;
    assert forall|c: int| 0 <= c < all.len() implies preorder(n).contains(
        (#[trigger] all[c]).node,
    ) by {
        lemma_seq_concat_contains_all_elements(
            seq![n],
            preorder_from(n.children, 0),
            all[c].node,
        );
        if c < own_capture(p, n).len() {
            assert(all[c].node == n);
            assert(seq![n][0] == n);
        } else {
            assert(all[c] == below[c - own_capture(p, n).len()]);
        }
    }
}

/// A placement among the children `cs` binds nodes of the trees under `cs`
/// only.
proof fn placement_binds_nodes_below(
    ps: Seq<PatternView>,
    cs: Seq<NodeView>,
    j: int,
    i: int,
    count: nat,
)
    requires
        seq_match(ps, cs, j, i, count) is Some,
    ensures
        bound_within(seq_match(ps, cs, j, i, count)->0, preorder_from(cs, 0)),
    decreases cs, ps.len() - j, cs.len() - i,
{
    if 0 <= j < ps.len() {
        let stop = if count >= ps[j].quantifier.min() {
            seq_match(ps, cs, j + 1, i, 0)
        } else {
            None
        };
        if stop is Some {
            placement_binds_nodes_below(ps, cs, j + 1, i, 0);
        } else {
            let t = next_candidate(cs, ps[j].field, i);
            let here = node_match(ps[j], cs[t])->0;
            let rest = seq_match(ps, cs, j, t + 1, count + 1)->0;
            match_binds_nodes_below(ps[j], cs[t]);
            placement_binds_nodes_below(ps, cs, j, t + 1, count + 1);
            let all = here + rest;
            assert forall|c: int| 0 <= c < all.len() implies preorder_from(cs, 0).contains(
                (#[trigger] all[c]).node,
            ) by {
                if c < here.len() {
                    assert(all[c] == here[c]);
                    child_nodes_are_forest_nodes(cs, 0, t, here[c].node);
                } else {
                    assert(all[c] == rest[c - here.len()]);
                }
            }
        }
    }
}

/// Every node that a match binds is a node of the tree that was searched.
pub proof fn matches_bind_nodes_of_the_tree(p: PatternView, t: NodeView)
    ensures
        forall|k: int|
            0 <= k < all_matches(p, t).len() ==> bound_within(
                #[trigger] all_matches(p, t)[k],
                preorder(t),
            ),
{
    let found = all_matches(p, t);
    assert forall|k: int| 0 <= k < found.len() implies bound_within(
        #[trigger] found[k],
        preorder(t),
    ) by {
        let at = |n: NodeView| node_match(p, n);
        assert(found.contains(found[k]));
        preorder(t).lemma_filter_map_contains(at, found[k]);
        let n = choose|n: NodeView| #[trigger] preorder(t).contains(n) && at(n) == Some(found[k]);
        match_binds_nodes_below(p, n);
        assert forall|c: int| 0 <= c < found[k].len() implies preorder(t).contains(
            (#[trigger] found[k][c]).node,
        ) by {
            nodes_of_a_subtree(t, n, found[k][c].node);
        }
    }
}

/// Whether a child position with quantifier `q` may take `total` children.
pub open spec fn allows(q: Quantifier, total: nat) -> bool {
    total >= q.min() && (total == 0 || q.admits_more((total - 1) as nat))
}

/// Whether `q` matches at each of the next `k` children of its index set,
/// from the cursor `i` on.
pub open spec fn takes(q: PatternView, cs: Seq<NodeView>, i: int, k: nat) -> bool
    decreases k,
{
    k == 0 || {
        let t = next_candidate(cs, q.field, i);
        0 <= i <= t < cs.len() && node_match(q, cs[t]) is Some && takes(
            q,
            cs,
            t + 1,
            (k - 1) as nat,
        )
    }
}

/// Where the cursor stands when a pattern with the qualifier `field` has
/// taken `k` children from the cursor `i` on.
pub open spec fn cursor_after(cs: Seq<NodeView>, field: Option<Seq<char>>, i: int, k: nat) -> int
    decreases k,
{
    if k == 0 {
        i
    } else {
        cursor_after(cs, field, next_candidate(cs, field, i) + 1, (k - 1) as nat)
    }
}

/// Whether `counts` is a placement of the child patterns `ps[j..]` among the
/// children `cs` from the cursor `i` on: `counts[k]` is the number of
/// children that `ps[j + k]` takes, the first of them in addition to the
/// `taken` children that `ps[j]` took before the cursor. Every pattern takes
/// a number of children that its quantifier allows, and matches at each
/// child it takes.
pub open spec fn places(
    ps: Seq<PatternView>,
    cs: Seq<NodeView>,
    j: int,
    i: int,
    taken: nat,
    counts: Seq<nat>,
) -> bool
    decreases counts.len(),
{
    if 0 <= j < ps.len() {
        counts.len() > 0 && allows(ps[j].quantifier, taken + counts[0]) && takes(
            ps[j],
            cs,
            i,
            counts[0],
        ) && places(
            ps,
            cs,
            j + 1,
            cursor_after(cs, ps[j].field, i, counts[0]),
            0,
            counts.drop_first(),
        )
    } else {
        counts.len() == 0
    }
}

/// The search is complete: where the child patterns have a placement, the
/// search finds one.
pub proof fn search_finds_a_placement(
    ps: Seq<PatternView>,
    cs: Seq<NodeView>,
    j: int,
    i: int,
    taken: nat,
    counts: Seq<nat>,
)
    requires
        places(ps, cs, j, i, taken, counts),
    ensures
        seq_match(ps, cs, j, i, taken) is Some,
    decreases ps.len() - j, cs.len() - i,
{
    if 0 <= j < ps.len() {
        let q = ps[j];
        let stop = if taken >= q.quantifier.min() {
            seq_match(ps, cs, j + 1, i, 0)
        } else {
            None
        };
        if stop is None {
            if counts[0] == 0 {
                search_finds_a_placement(ps, cs, j + 1, i, 0, counts.drop_first());
            } else {
                let t = next_candidate(cs, q.field, i);
                let fewer = counts.update(0, (counts[0] - 1) as nat);
                assert(fewer.drop_first() =~= counts.drop_first());
                search_finds_a_placement(ps, cs, j, t + 1, taken + 1, fewer);
            }
        }
    }
}

/// The placement that the search settles on, where it finds one: for each
/// child pattern from `j` on, the number of children it takes.
pub open spec fn chosen(
    ps: Seq<PatternView>,
    cs: Seq<NodeView>,
    j: int,
    i: int,
    taken: nat,
) -> Seq<nat>
    decreases ps.len() - j, cs.len() - i,
{
    if 0 <= j < ps.len() {
        let stop = if taken >= ps[j].quantifier.min() {
            seq_match(ps, cs, j + 1, i, 0)
        } else {
            None
        };
        let t = next_candidate(cs, ps[j].field, i);
        if stop is Some {
            seq![0nat] + chosen(ps, cs, j + 1, i, 0)
        } else if 0 <= i <= t < cs.len() {
            let fewer = chosen(ps, cs, j, t + 1, taken + 1);
            fewer.update(0, fewer[0] + 1)
        } else {
            Seq::empty()
        }
    } else {
        Seq::empty()
    }
}

/// Whether `a` comes before `b`, or is `b`, in the order that compares the
/// first counts first.
pub open spec fn at_most(a: Seq<nat>, b: Seq<nat>) -> bool
    decreases a.len(),
{
    a.len() == 0 || b.len() == 0 || a[0] < b[0] || (a[0] == b[0] && at_most(
        a.drop_first(),
        b.drop_first(),
    ))
}

/// The search is sound: what it settles on is a placement.
pub proof fn search_result_is_a_placement(
    ps: Seq<PatternView>,
    cs: Seq<NodeView>,
    j: int,
    i: int,
    taken: nat,
)
    requires
        seq_match(ps, cs, j, i, taken) is Some,
        0 <= j < ps.len() ==> taken == 0 || ps[j].quantifier.admits_more((taken - 1) as nat),
    ensures
        places(ps, cs, j, i, taken, chosen(ps, cs, j, i, taken)),
    decreases ps.len() - j, cs.len() - i,
{
    if 0 <= j < ps.len() {
        let q = ps[j];
        let stop = if taken >= q.quantifier.min() {
            seq_match(ps, cs, j + 1, i, 0)
        } else {
            None
        };
        if stop is Some {
            search_result_is_a_placement(ps, cs, j + 1, i, 0);
            let rest = chosen(ps, cs, j + 1, i, 0);
            assert((seq![0nat] + rest).drop_first() =~= rest);
        } else {
            let t = next_candidate(cs, q.field, i);
            search_result_is_a_placement(ps, cs, j, t + 1, taken + 1);
            let fewer = chosen(ps, cs, j, t + 1, taken + 1);
            assert(fewer.update(0, fewer[0] + 1).drop_first() =~= fewer.drop_first());
        }
    }
}

/// The search takes as little as it can: of all placements, it settles on
/// the one in which the first pattern takes the fewest children, among
/// those on the one in which the second pattern takes the fewest, and so on.
pub proof fn search_result_is_the_least_placement(
    ps: Seq<PatternView>,
    cs: Seq<NodeView>,
    j: int,
    i: int,
    taken: nat,
    counts: Seq<nat>,
)
    requires
        places(ps, cs, j, i, taken, counts),
    ensures
        at_most(chosen(ps, cs, j, i, taken), counts),
    decreases ps.len() - j, cs.len() - i,
{
    if 0 <= j < ps.len() {
        let q = ps[j];
        let stop = if taken >= q.quantifier.min() {
            seq_match(ps, cs, j + 1, i, 0)
        } else {
            None
        };
        if stop is Some {
            let rest = chosen(ps, cs, j + 1, i, 0);
            assert((seq![0nat] + rest).drop_first() =~= rest);
            if counts[0] == 0 {
                search_result_is_the_least_placement(ps, cs, j + 1, i, 0, counts.drop_first());
            }
        } else {
            if counts[0] == 0 {
                search_finds_a_placement(ps, cs, j + 1, i, 0, counts.drop_first());
            } else {
                let t = next_candidate(cs, q.field, i);
                let fewer = counts.update(0, (counts[0] - 1) as nat);
                assert(fewer.drop_first() =~= counts.drop_first());
                search_result_is_the_least_placement(ps, cs, j, t + 1, taken + 1, fewer);
                search_finds_a_placement(ps, cs, j, t + 1, taken + 1, fewer);
                search_result_is_a_placement(ps, cs, j, t + 1, taken + 1);
                let found = chosen(ps, cs, j, t + 1, taken + 1);
                assert(found.update(0, found[0] + 1).drop_first() =~= found.drop_first());
            }
        }
    }
}

/// A pattern matches at a node exactly if it unifies with the node and its
/// child patterns have a placement among the node's children.
pub proof fn match_means_unification_and_placement(p: PatternView, n: NodeView)
    ensures
        node_match(p, n) is Some <==> unifies(p, n) && exists|counts: Seq<nat>|
            places(p.children, n.children, 0, 0, 0, counts),
{
    if unifies(p, n) {
        if seq_match(p.children, n.children, 0, 0, 0) is Some {
            search_result_is_a_placement(p.children, n.children, 0, 0, 0);
            assert(places(
                p.children,
                n.children,
                0,
                0,
                0,
                chosen(p.children, n.children, 0, 0, 0),
            ));
        }
        if exists|counts: Seq<nat>| places(p.children, n.children, 0, 0, 0, counts) {
            let counts = choose|counts: Seq<nat>| places(p.children, n.children, 0, 0, 0, counts);
            search_finds_a_placement(p.children, n.children, 0, 0, 0, counts);
        }
    }
}

} // verus!
