//! The syntax tree that queries run against.
use vstd::prelude::*;
use vstd::string::*;

verus! {

/// The extent of a node in its source: byte offsets, and zero-based rows and
/// columns of its first byte and of the byte after its last.
#[derive(Clone, Copy, Debug, PartialEq, Eq, Structural)]
pub struct Span {
    pub start_byte: usize,
    pub end_byte: usize,
    pub start_row: usize,
    pub start_column: usize,
    pub end_row: usize,
    pub end_column: usize,
}

/// One node of a concrete syntax tree, together with everything below it.
///
/// `field` is the role the node plays under its parent (`name`, `args`, ...),
/// if the grammar gave it one. Several children of one parent may share a
/// field name.
#[derive(Debug, PartialEq, Eq)]
pub struct SyntaxNode {
    pub kind: String,
    pub field: Option<String>,
    pub span: Span,
    pub children: Vec<SyntaxNode>,
}

/// The mathematical value of a [`SyntaxNode`].
pub ghost struct NodeView {
    pub kind: Seq<char>,
    pub field: Option<Seq<char>>,
    pub span: Span,
    pub children: Seq<NodeView>,
}

/// The view of an optional string.
pub open spec fn opt_view(s: Option<String>) -> Option<Seq<char>> {
    match s {
        Some(t) => Some(t@),
        None => None,
    }
}

impl View for SyntaxNode {
    type V = NodeView;

    open spec fn view(&self) -> NodeView
        decreases self,
    {
        NodeView {
            kind: self.kind@,
            field: opt_view(self.field),
            span: self.span,
            children: Seq::new(
                self.children.len() as nat,
                |i: int|
                    if 0 <= i < self.children.len() {
                        self.children[i]@
                    } else {
                        arbitrary()
                    },
            ),
        }
    }
}

impl Clone for SyntaxNode {
    /// A copy of the node and of everything below it.
    fn clone(&self) -> (copy: SyntaxNode)
        ensures
            copy@ == self@,
        decreases self,
    {
        let mut children: Vec<SyntaxNode> = Vec::new();
        let mut i: usize = 0;
        while i < self.children.len()
            invariant
                i <= self.children.len(),
                children.len() == i,
                forall|k: int| 0 <= k < i ==> (#[trigger] children[k])@ == self.children[k]@,
            decreases self.children.len() - i,
        {
            children.push(self.children[i].clone());
            i = i + 1;
        }
        let copy = SyntaxNode {
            kind: self.kind.clone(),
            field: self.field.clone(),
            span: self.span,
            children,
        };
        proof {
            self.view_children();
            assert(copy@.children =~= self@.children);
        }
        copy
    }
}

/// The views of a sequence of borrowed nodes.
pub open spec fn node_views(nodes: Seq<&SyntaxNode>) -> Seq<NodeView> {
    nodes.map_values(|n: &SyntaxNode| n@)
}

/// Every node of the tree under `t`, `t` first, parents before their
/// children, children from left to right.
pub open spec fn preorder(t: NodeView) -> Seq<NodeView>
    decreases t,
{
    seq![t] + preorder_from(t.children, 0)
}

/// The pre-order of the trees `cs[i..]`, one after the other.
pub open spec fn preorder_from(cs: Seq<NodeView>, i: int) -> Seq<NodeView>
    decreases cs, cs.len() - i,
{
    if 0 <= i < cs.len() {
        preorder(cs[i]) + preorder_from(cs, i + 1)
    } else {
        Seq::empty()
    }
}

/// The tree as an S-expression: the kind in parentheses, followed by the
/// children, each with a blank before it and, where it plays a role, with
/// the role's name, a colon and a blank before it.
pub open spec fn sexp(t: NodeView) -> Seq<char>
    decreases t,
{
    seq!['('] + t.kind + sexp_from(t.children, 0) + seq![')']
}

/// The children `cs[i..]` as they stand in the S-expression of their parent.
pub open spec fn sexp_from(cs: Seq<NodeView>, i: int) -> Seq<char>
    decreases cs, cs.len() - i,
{
    if 0 <= i < cs.len() {
        seq![' '] + sexp_role(cs[i].field) + sexp(cs[i]) + sexp_from(cs, i + 1)
    } else {
        Seq::empty()
    }
}

/// A role as it stands before a child in an S-expression.
pub open spec fn sexp_role(field: Option<Seq<char>>) -> Seq<char> {
    match field {
        Some(name) => name + seq![':', ' '],
        None => Seq::empty(),
    }
}

/// Whether a child pattern with the field qualifier `field` may look at the
/// child `n`: an unqualified pattern looks at every child, a qualified one at
/// the children that play that role.
pub open spec fn in_index_set(field: Option<Seq<char>>, n: NodeView) -> bool {
    match field {
        None => true,
        Some(f) => n.field == Some(f),
    }
}

/// The first index `t >= i` of a child that a pattern qualified by `field`
/// may look at, or `cs.len()` if there is none.
pub open spec fn next_candidate(cs: Seq<NodeView>, field: Option<Seq<char>>, i: int) -> int
    decreases cs.len() - i,
{
    if 0 <= i < cs.len() {
        if in_index_set(field, cs[i]) {
            i
        } else {
            next_candidate(cs, field, i + 1)
        }
    } else {
        cs.len() as int
    }
}

/// The next candidate is the least index at or after the cursor that lies
/// in the index set; where there is none, it is the number of children.
pub proof fn next_candidate_is_least(cs: Seq<NodeView>, field: Option<Seq<char>>, i: int)
    requires
        0 <= i <= cs.len(),
    ensures
        i <= next_candidate(cs, field, i) <= cs.len(),
        next_candidate(cs, field, i) < cs.len() ==> in_index_set(
            field,
            cs[next_candidate(cs, field, i)],
        ),
        forall|k: int|
            i <= k < next_candidate(cs, field, i) ==> !in_index_set(field, #[trigger] cs[k]),
    decreases cs.len() - i,
{
    if i < cs.len() && !in_index_set(field, cs[i]) {
        next_candidate_is_least(cs, field, i + 1);
    }
}

/// Whether `n` plays the role `name` under its parent.
pub open spec fn has_field(n: NodeView, name: Seq<char>) -> bool {
    n.field == Some(name)
}

/// Whether `indices` is the index set of the field `name` among the children
/// `cs`: the indices of the children that play the role `name`, each once,
/// in ascending order.
pub open spec fn is_index_set(indices: Seq<usize>, cs: Seq<NodeView>, name: Seq<char>) -> bool {
    &&& forall|a: int, b: int| 0 <= a < b < indices.len() ==> indices[a] < indices[b]
    &&& forall|a: int|
        0 <= a < indices.len() ==> indices[a] < cs.len() && has_field(
            cs[#[trigger] indices[a] as int],
            name,
        )
    &&& forall|i: int|
        0 <= i < cs.len() && has_field(#[trigger] cs[i], name) ==> exists|a: int|
            0 <= a < indices.len() && #[trigger] indices[a] == i
}

/// Appends the nodes under `node` to `out`, in pre-order.
fn collect_preorder<'t>(node: &'t SyntaxNode, out: &mut Vec<&'t SyntaxNode>)
    ensures
        node_views(final(out)@) == node_views(old(out)@) + preorder(node@),
    decreases node,
{
    let ghost before = node_views(out@);
    proof {
        node.view_children();
    }
    out.push(node);
    let mut i: usize = 0;
    while i < node.children.len()
        invariant
            i <= node.children.len(),
            node@.children.len() == node.children.len(),
            forall|k: int|
                0 <= k < node.children.len()
                    ==> node@.children[k] == (#[trigger] node.children[k])@,
            node_views(out@) + preorder_from(node@.children, i as int) == before + preorder(node@),
        decreases node.children.len() - i,
    {
        collect_preorder(&node.children[i], out);
        i = i + 1;
    }
}

/// Appends the S-expression of `node` to `out`.
fn write_sexp(node: &SyntaxNode, out: &mut String)
    ensures
        final(out)@ == old(out)@ + sexp(node@),
    decreases node,
{
    proof {
        node.view_children();
        reveal_strlit("(");
        reveal_strlit(")");
    }
    out.append("(");
    out.append(node.kind.as_str());
    let ghost head = out@;
    let mut i: usize = 0;
    while i < node.children.len()
        invariant
            i <= node.children.len(),
            node@.children.len() == node.children.len(),
            forall|k: int|
                0 <= k < node.children.len()
                    ==> node@.children[k] == (#[trigger] node.children[k])@,
            out@ + sexp_from(node@.children, i as int) == head + sexp_from(node@.children, 0),
        decreases node.children.len() - i,
    {
        let child = &node.children[i];
        proof {
            reveal_strlit(" ");
            reveal_strlit(": ");
        }
        out.append(" ");
        if let Some(name) = &child.field {
            out.append(name.as_str());
            out.append(": ");
        }
        write_sexp(child, out);
        i = i + 1;
    }
    out.append(")");
}

impl SyntaxNode {
    /// The tree as an S-expression, such as
    /// `(call expr: (atom) args: (expr_args args: (integer)))`.
    pub fn to_sexp(&self) -> (text: String)
        ensures
            text@ == sexp(self@),
    {
        let mut text = String::new();
        write_sexp(self, &mut text);
        text
    }

    /// A node without children and without a role.
    pub fn new(kind: &str, span: Span) -> (node: SyntaxNode)
        ensures
            node@ == (NodeView { kind: kind@, field: None, span, children: Seq::empty() }),
    {
        let node = SyntaxNode { kind: kind.to_owned(), field: None, span, children: Vec::new() };
        proof {
            assert(node@.children =~= Seq::<NodeView>::empty());
        }
        node
    }

    /// The same node in the role `name`.
    pub fn with_field(self, name: &str) -> (node: SyntaxNode)
        ensures
            node@ == (NodeView { field: Some(name@), ..self@ }),
    {
        let SyntaxNode { kind, field: _, span, children } = self;
        let node = SyntaxNode { kind, field: Some(name.to_owned()), span, children };
        node
    }

    /// The same node with `child` as one more child, behind the others.
    pub fn with_child(self, child: SyntaxNode) -> (node: SyntaxNode)
        ensures
            node@ == (NodeView { children: self@.children.push(child@), ..self@ }),
    {
        let SyntaxNode { kind, field, span, mut children } = self;
        children.push(child);
        let node = SyntaxNode { kind, field, span, children };
        proof {
            self.view_children();
            assert(node@.children =~= self@.children.push(child@));
        }
        node
    }

    /// The node's kind.
    pub fn kind(&self) -> (kind: &str)
        ensures
            kind@ == self@.kind,
    {
        self.kind.as_str()
    }

    /// The node's extent in the source.
    pub fn span(&self) -> (span: Span)
        ensures
            span == self@.span,
    {
        self.span
    }

    /// The children, from left to right.
    pub fn children(&self) -> (children: &Vec<SyntaxNode>)
        ensures
            children@.len() == self@.children.len(),
            forall|i: int|
                0 <= i < children@.len() ==> (#[trigger] children@[i])@ == self@.children[i],
    {
        proof {
            self.view_children();
        }
        &self.children
    }

    /// The number of children.
    pub fn child_count(&self) -> (count: usize)
        ensures
            count == self@.children.len(),
    {
        proof {
            self.view_children();
        }
        self.children.len()
    }

    /// The child at `index`, if there is one.
    pub fn child(&self, index: usize) -> (child: Option<&SyntaxNode>)
        ensures
            child is Some <==> index < self@.children.len(),
            child is Some ==> child->0@ == self@.children[index as int],
    {
        proof {
            self.view_children();
        }
        if index < self.children.len() {
            Some(&self.children[index])
        } else {
            None
        }
    }

    /// The index set of a field: the indices of the children that play the
    /// role `name`, in ascending order.
    pub fn field(&self, name: &str) -> (indices: Vec<usize>)
        ensures
            is_index_set(indices@, self@.children, name@),
    {
        proof {
            self.view_children();
        }
        let ghost cs = self@.children;
        let wanted = name.to_owned();
        let mut indices: Vec<usize> = Vec::new();
        let mut i: usize = 0;
        while i < self.children.len()
            invariant
                i <= self.children.len(),
                wanted@ == name@,
                cs == self@.children,
                cs.len() == self.children.len(),
                forall|k: int|
                    0 <= k < self.children.len() ==> cs[k] == (#[trigger] self.children[k])@,
                forall|a: int, b: int| 0 <= a < b < indices.len() ==> indices[a] < indices[b],
                forall|a: int|
                    0 <= a < indices.len() ==> indices[a] < i && has_field(
                        cs[#[trigger] indices[a] as int],
                        name@,
                    ),
                forall|k: int|
                    0 <= k < i && has_field(#[trigger] cs[k], name@) ==> exists|a: int|
                        0 <= a < indices.len() && #[trigger] indices[a] == k,
            decreases self.children.len() - i,
        {
            let child = &self.children[i];
            let plays = match &child.field {
                Some(role) => *role == wanted,
                None => false,
            };
            let ghost before = indices@;
            if plays {
                indices.push(i);
            }
            proof {
                assert forall|k: int|
                    0 <= k < i + 1 && has_field(#[trigger] cs[k], name@) implies exists|a: int|
                    0 <= a < indices.len() && #[trigger] indices[a] == k by {
                    if k < i {
                        let a = choose|a: int| 0 <= a < before.len() && #[trigger] before[a] == k;
                        assert(indices[a] == k);
                    } else {
                        assert(indices[indices.len() - 1] == k);
                    }
                }
            }
            i = i + 1;
        }
        indices
    }

    /// The first child that plays the role `name`, if there is one.
    pub fn child_by_field_name(&self, name: &str) -> (child: Option<&SyntaxNode>)
        ensures
            child is Some <==> next_candidate(self@.children, Some(name@), 0)
                < self@.children.len(),
            child is Some ==> child->0@ == self@.children[next_candidate(
                self@.children,
                Some(name@),
                0,
            )],
    {
        proof {
            self.view_children();
        }
        let wanted = name.to_owned();
        let mut i: usize = 0;
        while i < self.children.len()
            invariant
                i <= self.children.len(),
                wanted@ == name@,
                self@.children.len() == self.children.len(),
                forall|k: int|
                    0 <= k < self.children.len()
                        ==> self@.children[k] == (#[trigger] self.children[k])@,
                next_candidate(self@.children, Some(name@), 0) == next_candidate(
                    self@.children,
                    Some(name@),
                    i as int,
                ),
            decreases self.children.len() - i,
        {
            let child = &self.children[i];
            let plays = match &child.field {
                Some(role) => *role == wanted,
                None => false,
            };
            if plays {
                return Some(child);
            }
            i = i + 1;
        }
        None
    }

    /// Every node of the tree, this one first, parents before their children,
    /// children from left to right.
    pub fn descendants(&self) -> (nodes: Vec<&SyntaxNode>)
        ensures
            node_views(nodes@) == preorder(self@),
    {
        let mut nodes: Vec<&SyntaxNode> = Vec::new();
        collect_preorder(self, &mut nodes);
        nodes
    }

    /// What the view says of the children, one level down.
    pub proof fn view_children(&self)
        ensures
            self@.children.len() == self.children.len(),
            forall|i: int|
                0 <= i < self.children.len()
                    ==> self@.children[i] == (#[trigger] self.children[i])@,
            self@.kind == self.kind@,
            self@.field == opt_view(self.field),
            self@.span == self.span,
    {
        reveal_with_fuel(<SyntaxNode as View>::view, 2);
    }
}

} // verus!
