use scryer::tree::{Span, SyntaxNode};

fn span(id: usize) -> Span {
    Span { start_byte: id, end_byte: id + 1, start_row: id, start_column: 0, end_row: id, end_column: 1 }
}

fn node(kind: &str, id: usize, children: Vec<SyntaxNode>) -> SyntaxNode {
    SyntaxNode { kind: kind.to_string(), field: None, span: span(id), children }
}

fn ids(nodes: &[&SyntaxNode]) -> Vec<usize> {
    nodes.iter().map(|n| n.span.start_byte).collect()
}

#[test]
fn a_new_node_has_no_children_and_no_role() {
    let n = SyntaxNode::new("atom", span(4));
    assert_eq!(n, SyntaxNode { kind: "atom".to_string(), field: None, span: span(4), children: vec![] });
    assert_eq!(n.kind(), "atom");
    assert_eq!(n.span(), span(4));
    assert_eq!(n.child_count(), 0);
    assert!(n.child(0).is_none());
}

#[test]
fn builders_add_a_role_and_children() {
    let n = SyntaxNode::new("call", span(0))
        .with_child(SyntaxNode::new("atom", span(1)).with_field("expr"))
        .with_child(SyntaxNode::new("expr_args", span(2)).with_field("args"))
        .with_field("exprs");
    let expected = SyntaxNode {
        kind: "call".to_string(),
        field: Some("exprs".to_string()),
        span: span(0),
        children: vec![
            SyntaxNode {
                kind: "atom".to_string(),
                field: Some("expr".to_string()),
                span: span(1),
                children: vec![],
            },
            SyntaxNode {
                kind: "expr_args".to_string(),
                field: Some("args".to_string()),
                span: span(2),
                children: vec![],
            },
        ],
    };
    assert_eq!(n, expected);
    assert_eq!(n.with_field("other").field, Some("other".to_string()));
}

#[test]
fn children_are_found_by_index() {
    let n = node("l", 0, vec![node("a", 1, vec![]), node("b", 2, vec![])]);
    assert_eq!(n.child_count(), 2);
    assert_eq!(n.children().iter().map(|c| c.span.start_byte).collect::<Vec<_>>(), vec![1, 2]);
    assert_eq!(n.child(0).map(|c| c.span.start_byte), Some(1));
    assert_eq!(n.child(1).map(|c| c.span.start_byte), Some(2));
    assert!(n.child(2).is_none());
    assert!(n.child(usize::MAX).is_none());
}

#[test]
fn the_index_set_of_a_field_is_ascending() {
    let n = node(
        "file",
        0,
        vec![
            node("a", 1, vec![]).with_field("forms"),
            node("b", 2, vec![]),
            node("c", 3, vec![]).with_field("other"),
            node("d", 4, vec![]).with_field("forms"),
            node("e", 5, vec![]).with_field("forms"),
        ],
    );
    assert_eq!(n.field("forms"), vec![0, 3, 4]);
    assert_eq!(n.field("other"), vec![2]);
    assert_eq!(n.field("none"), Vec::<usize>::new());
    assert_eq!(n.field(""), Vec::<usize>::new());
    assert_eq!(node("leaf", 0, vec![]).field("forms"), Vec::<usize>::new());
}

#[test]
fn the_first_child_in_a_role_is_found_by_name() {
    let n = node(
        "file",
        0,
        vec![
            node("b", 1, vec![]),
            node("c", 2, vec![]).with_field("other"),
            node("d", 3, vec![node("x", 9, vec![]).with_field("deep")]).with_field("forms"),
            node("e", 4, vec![]).with_field("forms"),
        ],
    );
    assert_eq!(n.child_by_field_name("forms").map(|c| c.span.start_byte), Some(3));
    assert_eq!(n.child_by_field_name("other").map(|c| c.span.start_byte), Some(2));
    assert!(n.child_by_field_name("deep").is_none());
    assert!(n.child_by_field_name("Forms").is_none());
}

#[test]
fn descendants_come_in_pre_order() {
    let tree = node(
        "r",
        0,
        vec![
            node("a", 1, vec![node("b", 2, vec![node("c", 3, vec![])]), node("d", 4, vec![])]),
            node("e", 5, vec![]),
            node("f", 6, vec![node("g", 7, vec![])]),
        ],
    );
    assert_eq!(ids(&tree.descendants()), vec![0, 1, 2, 3, 4, 5, 6, 7]);
    assert_eq!(ids(&node("leaf", 9, vec![]).descendants()), vec![9]);
    assert_eq!(ids(&tree.children[0].descendants()), vec![1, 2, 3, 4]);
}

#[test]
fn a_clone_is_equal_to_the_tree_it_was_made_from() {
    let tree = node(
        "r",
        0,
        vec![
            node("a", 1, vec![node("b", 2, vec![])]).with_field("first"),
            node("c", 3, vec![]),
        ],
    );
    let copy = tree.clone();
    assert_eq!(copy, tree);
    assert_eq!(ids(&copy.descendants()), vec![0, 1, 2, 3]);
    assert_eq!(copy.children[0].field, Some("first".to_string()));
}

#[test]
fn a_tree_is_written_as_an_s_expression() {
    assert_eq!(node("atom", 0, vec![]).to_sexp(), "(atom)");
    assert_eq!(node("atom", 0, vec![]).with_field("name").to_sexp(), "(atom)");
    let call = node(
        "call",
        0,
        vec![
            node("atom", 1, vec![]).with_field("expr"),
            node("comment", 2, vec![]),
            node("expr_args", 3, vec![node("integer", 4, vec![]).with_field("args")])
                .with_field("args"),
        ],
    );
    assert_eq!(call.to_sexp(), "(call expr: (atom) (comment) args: (expr_args args: (integer)))");
}
