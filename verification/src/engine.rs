//! The matching engine: unification of one pattern with one node, the search
//! for a placement of the child patterns among a node's children, and the
//! enumeration of all matches in a tree.
//!
//! A pattern matches at a node if the node unifies with it and its child
//! patterns find a placement among the node's children. A child pattern
//! looks at the children in its index set: all children if it has no field
//! qualifier, else the children that play that role. It takes the next
//! children of its index set at or after a cursor, as many as its quantifier
//! asks for, and the cursor moves behind the last child taken. So patterns
//! without a qualifier match child by child from the first child on, `_*`
//! skips what is of no interest, and a qualified pattern skips the children
//! in other roles by itself. Children behind the last child pattern are not
//! looked at.
//!
//! The search is exhaustive and settles on the placement in which every
//! pattern takes as few children as the patterns after it allow. Its cost
//! can grow exponentially with the number of quantified child patterns of
//! one pattern; it is linear where a pattern has none.
use vstd::prelude::*;
use crate::pattern::{Pattern, PatternView};
use crate::tree::{
    NodeView, SyntaxNode, in_index_set, next_candidate, node_views, opt_view, preorder,
};

verus! {

/// A capture label bound to a node of the tree that was searched.
#[derive(Clone, Debug, PartialEq, Eq)]
pub struct Capture<'t> {
    pub label: String,
    pub node: &'t SyntaxNode,
}

/// The mathematical value of a [`Capture`].
pub ghost struct CaptureView {
    pub label: Seq<char>,
    pub node: NodeView,
}

impl<'t> View for Capture<'t> {
    type V = CaptureView;

    open spec fn view(&self) -> CaptureView {
        CaptureView { label: self.label@, node: self.node@ }
    }
}

/// One successful binding of a whole pattern: its captures in the order of
/// the pattern positions that made them. A label may occur more than once.
#[derive(Clone, Debug, PartialEq, Eq)]
pub struct Match<'t> {
    pub captures: Vec<Capture<'t>>,
}

/// The views of a sequence of captures.
pub open spec fn capture_views(captures: Seq<Capture>) -> Seq<CaptureView> {
    captures.map_values(|c: Capture| c@)
}

impl<'t> View for Match<'t> {
    type V = Seq<CaptureView>;

    open spec fn view(&self) -> Seq<CaptureView> {
        capture_views(self.captures@)
    }
}

/// The nodes that the captures labelled `label` bind, in the order of the
/// captures.
pub open spec fn bound_to(captures: Seq<CaptureView>, label: Seq<char>) -> Seq<NodeView> {
    captures.filter_map(binding_of(label))
}

/// The node of a capture, if the capture is labelled `label`.
pub open spec fn binding_of(label: Seq<char>) -> spec_fn(CaptureView) -> Option<NodeView> {
    |c: CaptureView|
        if c.label == label {
            Some(c.node)
        } else {
            None
        }
}

impl<'t> Match<'t> {
    /// The match as a mapping from labels to nodes: all nodes bound to
    /// `label`, in the order of the pattern positions that bound them.
    pub fn bindings(&self, label: &str) -> (nodes: Vec<&'t SyntaxNode>)
        ensures
            node_views(nodes@) == bound_to(self@, label@),
    {
        let wanted = label.to_owned();
        let ghost views = self@;
        let ghost pick = binding_of(label@);
        let mut nodes: Vec<&'t SyntaxNode> = Vec::new();
        let mut k: usize = 0;
        while k < self.captures.len()
            invariant
                k <= self.captures.len(),
                wanted@ == label@,
                views == capture_views(self.captures@),
                pick == binding_of(label@),
                node_views(nodes@) == views.take(k as int).filter_map(pick),
            decreases self.captures.len() - k,
        {
            proof {
                views.lemma_filter_map_take_succ(pick, k as int);
            }
            if self.captures[k].label == wanted {
                nodes.push(self.captures[k].node);
            }
            k = k + 1;
        }
        assert(views.take(k as int) =~= views);
        nodes
    }
}

/// The views of a sequence of matches.
pub open spec fn match_views(matches: Seq<Match>) -> Seq<Seq<CaptureView>> {
    matches.map_values(|m: Match| m@)
}

/// Node unification: the wildcard accepts every node, a named kind accepts
/// the nodes of exactly that kind.
pub open spec fn unifies(p: PatternView, n: NodeView) -> bool {
    match p.kind {
        None => true,
        Some(k) => k == n.kind,
    }
}

/// What a pattern binds at the node it unified with.
pub open spec fn own_capture(p: PatternView, n: NodeView) -> Seq<CaptureView> {
    match p.capture {
        Some(label) => seq![CaptureView { label, node: n }],
        None => Seq::empty(),
    }
}

/// The captures of the match of `p` at `n`, or `None` if `p` does not match
/// there: `n` must unify with `p`, and the child patterns of `p` must find a
/// placement among the children of `n`.
pub open spec fn node_match(p: PatternView, n: NodeView) -> Option<Seq<CaptureView>>
    decreases n,
{
    if unifies(p, n) {
        match seq_match(p.children, n.children, 0, 0, 0) {
            Some(below) => Some(own_capture(p, n) + below),
            None => None,
        }
    } else {
        None
    }
}

/// The placement search. The child patterns `ps[..j]` are placed, the cursor
/// stands at child `i`, and `ps[j]` has taken `count` children so far. The
/// result holds the captures of what is placed from here on.
///
/// A child pattern takes its children from its index set, at or after the
/// cursor and without leaving one out; the cursor then moves behind the last
/// child taken. It takes as few children as its quantifier allows, and one
/// more only if the patterns after it find no placement otherwise. Children
/// behind the last pattern are not looked at.
pub open spec fn seq_match(
    ps: Seq<PatternView>,
    cs: Seq<NodeView>,
    j: int,
    i: int,
    count: nat,
) -> Option<Seq<CaptureView>>
    decreases cs, ps.len() - j, cs.len() - i,
{
    if 0 <= j < ps.len() {
        let stop = if count >= ps[j].quantifier.min() {
            seq_match(ps, cs, j + 1, i, 0)
        } else {
            None
        };
        if stop is Some {
            stop
        } else if ps[j].quantifier.admits_more(count) {
            let t = next_candidate(cs, ps[j].field, i);
            if 0 <= i <= t < cs.len() {
                match node_match(ps[j], cs[t]) {
                    Some(here) => match seq_match(ps, cs, j, t + 1, count + 1) {
                        Some(rest) => Some(here + rest),
                        None => None,
                    },
                    None => None,
                }
            } else {
                None
            }
        } else {
            None
        }
    } else {
        Some(Seq::empty())
    }
}

/// The matches of `p` among `nodes`, in their order: the captures of `p`
/// at each node at which it matches.
pub open spec fn matches_among(p: PatternView, nodes: Seq<NodeView>) -> Seq<Seq<CaptureView>> {
    nodes.filter_map(|n: NodeView| node_match(p, n))
}

/// All matches of `p` in the tree `t`: every node is a candidate, in
/// pre-order.
pub open spec fn all_matches(p: PatternView, t: NodeView) -> Seq<Seq<CaptureView>> {
    matches_among(p, preorder(t))
}

/// The views of the captures of an attempt that may have failed.
pub open spec fn attempt_view(r: Option<Vec<Capture>>) -> Option<Seq<CaptureView>> {
    match r {
        Some(captures) => Some(capture_views(captures@)),
        None => None,
    }
}

/// Node unification. A wildcard pattern unifies with every node; a named
/// kind unifies with the nodes whose kind is the same string.
pub fn unify(pattern: &Pattern, node: &SyntaxNode) -> (r: bool)
    ensures
        r == unifies(pattern@, node@),
        pattern.kind is None ==> r,
{
    match &pattern.kind {
        None => true,
        Some(kind) => *kind == node.kind,
    }
}

/// Whether a child pattern qualified by `field` may look at `node`.
fn looks_at(field: &Option<String>, node: &SyntaxNode) -> (r: bool)
    ensures
        r == in_index_set(opt_view(*field), node@),
{
    match field {
        None => true,
        Some(wanted) => match &node.field {
            Some(role) => *role == *wanted,
            None => false,
        },
    }
}

/// The first child of `node` at or after `i` that a pattern qualified by
/// `field` may look at.
fn find_candidate(node: &SyntaxNode, field: &Option<String>, i: usize) -> (t: usize)
    requires
        i <= node.children.len(),
    ensures
        t == next_candidate(node@.children, opt_view(*field), i as int),
        i <= t <= node.children.len(),
{
    proof {
        node.view_children();
    }
    let mut t: usize = i;
    while t < node.children.len()
        invariant
            i <= t <= node.children.len(),
            node@.children.len() == node.children.len(),
            forall|k: int|
                0 <= k < node.children.len()
                    ==> node@.children[k] == (#[trigger] node.children[k])@,
            next_candidate(node@.children, opt_view(*field), i as int) == next_candidate(
                node@.children,
                opt_view(*field),
                t as int,
            ),
        decreases node.children.len() - t,
    {
        if looks_at(field, &node.children[t]) {
            return t;
        }
        t = t + 1;
    }
    t
}

/// The captures of the match of `pattern` at `node`, if it matches there.
fn match_node<'t>(pattern: &Pattern, node: &'t SyntaxNode) -> (r: Option<Vec<Capture<'t>>>)
    ensures
        attempt_view(r) == node_match(pattern@, node@),
    decreases node, 1nat, 0nat, 0nat,
{
    if !unify(pattern, node) {
        return None;
    }
    match match_children(pattern, node, 0, 0, 0) {
        None => None,
        Some(mut below) => {
            let mut captures: Vec<Capture<'t>> = Vec::new();
            if let Some(label) = &pattern.capture {
                captures.push(Capture { label: label.clone(), node });
            }
            captures.append(&mut below);
            Some(captures)
        },
    }
}

/// The placement search over the children of `node`, for the child patterns
/// of `pattern` from `j` on, with the cursor at `i` and `count` children
/// taken by pattern `j`.
fn match_children<'t>(
    pattern: &Pattern,
    node: &'t SyntaxNode,
    j: usize,
    i: usize,
    count: usize,
) -> (r: Option<Vec<Capture<'t>>>)
    requires
        j <= pattern.children.len(),
        count <= i <= node.children.len(),
    ensures
        attempt_view(r) == seq_match(
            pattern@.children,
            node@.children,
            j as int,
            i as int,
            count as nat,
        ),
    decreases node, 0nat, pattern.children.len() - j, node.children.len() - i,
{
    proof {
        pattern.view_children();
        node.view_children();
        pattern.children[j as int].view_children();
    }
    if j >= pattern.children.len() {
        return Some(Vec::new());
    }
    let child_pattern = &pattern.children[j];
    if child_pattern.quantifier.is_satisfied_by(count) {
        let stop = match_children(pattern, node, j + 1, i, 0);
        if stop.is_some() {
            return stop;
        }
    }
    if !child_pattern.quantifier.may_take_more(count) {
        return None;
    }
    let t = find_candidate(node, &child_pattern.field, i);
    if t >= node.children.len() {
        return None;
    }
    match match_node(child_pattern, &node.children[t]) {
        None => None,
        Some(mut here) => match match_children(pattern, node, j, t + 1, count + 1) {
            None => None,
            Some(mut rest) => {
                here.append(&mut rest);
                Some(here)
            },
        },
    }
}

impl Pattern {
    /// Tries the pattern at one node: the node must unify with the pattern's
    /// root, and the child patterns must find a placement among the node's
    /// children. Nothing below `node` is tried as a root.
    pub fn match_at<'t>(&self, node: &'t SyntaxNode) -> (r: Option<Match<'t>>)
        ensures
            r is Some <==> node_match(self@, node@) is Some,
            r is Some ==> r->0@ == node_match(self@, node@)->0,
    {
        match match_node(self, node) {
            Some(captures) => Some(Match { captures }),
            None => None,
        }
    }
}

/// All matches of `pattern` in `tree`. Every node of the tree is tried as the
/// root of a match, in pre-order, so matches come in document order of their
/// outermost node, and a match inside another match is reported as well.
pub fn matches<'t>(pattern: &Pattern, tree: &'t SyntaxNode) -> (found: Vec<Match<'t>>)
    ensures
        match_views(found@) == all_matches(pattern@, tree@),
{
    let nodes = tree.descendants();
    let mut found: Vec<Match<'t>> = Vec::new();
    let mut k: usize = 0;
    while k < nodes.len()
        invariant
            k <= nodes.len(),
            node_views(nodes@) == preorder(tree@),
            match_views(found@) == matches_among(pattern@, node_views(nodes@).take(k as int)),
        decreases nodes.len() - k,
    {
        proof {
            node_views(nodes@).lemma_filter_map_take_succ(
                |n: NodeView| node_match(pattern@, n),
                k as int,
            );
        }
        match pattern.match_at(nodes[k]) {
            Some(m) => {
                found.push(m);
            },
            None => {},
        }
        k = k + 1;
    }
    proof {
        assert(node_views(nodes@).take(k as int) =~= node_views(nodes@));
    }
    found
}

} // verus!
