use scryer::compile::compile;
use scryer::engine::{unify, Match};
use scryer::pattern::{Pattern, Quantifier};
use scryer::tree::{Span, SyntaxNode};

fn span(row: usize, start: usize, end: usize) -> Span {
    Span {
        start_byte: start,
        end_byte: end,
        start_row: row,
        start_column: 0,
        end_row: row,
        end_column: end - start,
    }
}

/// A node of the given kind whose span starts at byte `id`, so that `id`
/// tells nodes of one kind apart.
fn node(kind: &str, id: usize, children: Vec<SyntaxNode>) -> SyntaxNode {
    SyntaxNode { kind: kind.to_string(), field: None, span: span(0, id, id + 1), children }
}

fn role(name: &str, n: SyntaxNode) -> SyntaxNode {
    n.with_field(name)
}

fn bound(found: &Match) -> Vec<(String, usize)> {
    found.captures.iter().map(|c| (c.label.clone(), c.node.span.start_byte)).collect()
}

fn all_bound(query: &str, tree: &SyntaxNode) -> Vec<Vec<(String, usize)>> {
    let pattern = compile(query).unwrap();
    scryer::engine::matches(&pattern, tree).iter().map(bound).collect()
}

fn pair(label: &str, id: usize) -> (String, usize) {
    (label.to_string(), id)
}

#[test]
fn the_wildcard_unifies_with_every_kind() {
    let wildcard = compile("_").unwrap();
    for kind in ["atom", "integer", "call", "", "_", "ATOM", "a b", "\u{e9}"] {
        assert!(unify(&wildcard, &node(kind, 0, vec![])));
        assert!(unify(&wildcard, &node(kind, 0, vec![node("x", 1, vec![])])));
    }
}

#[test]
fn a_named_kind_unifies_with_that_kind_only() {
    let atom = compile("(atom)").unwrap();
    assert!(unify(&atom, &node("atom", 0, vec![])));
    assert!(!unify(&atom, &node("Atom", 0, vec![])));
    assert!(!unify(&atom, &node("atoms", 0, vec![])));
    assert!(!unify(&atom, &node("ato", 0, vec![])));
    assert!(!unify(&atom, &node("", 0, vec![])));
    assert!(unify(&atom, &node("atom", 0, vec![node("integer", 1, vec![])])));
}

#[test]
fn unify_does_not_look_at_children() {
    let pattern = compile("(call (atom))").unwrap();
    assert!(unify(&pattern, &node("call", 0, vec![])));
    assert!(pattern.match_at(&node("call", 0, vec![])).is_none());
}

#[test]
fn split_search_finds_the_atom_whatever_flanks_it() {
    for before in 0..5usize {
        for after in 0..5usize {
            let mut children = Vec::new();
            for k in 0..before {
                children.push(node("integer", 10 + k, vec![]));
            }
            children.push(node("atom", 50, vec![]));
            for k in 0..after {
                children.push(node("integer", 60 + k, vec![]));
            }
            let list = node("expr_args", 0, children);
            assert_eq!(
                all_bound("(expr_args _* (atom)@atomo _*)", &list),
                vec![vec![pair("atomo", 50)]]
            );
        }
    }
}

#[test]
fn split_search_on_one_two_three() {
    let list = node(
        "expr_args",
        0,
        vec![node("integer", 1, vec![]), node("atom", 2, vec![]), node("integer", 3, vec![])],
    );
    assert_eq!(all_bound("(expr_args _* (atom)@atomo _*)", &list), vec![vec![pair("atomo", 2)]]);
}

#[test]
fn split_search_fails_without_an_atom() {
    let list = node("expr_args", 0, vec![node("integer", 1, vec![]), node("integer", 2, vec![])]);
    assert_eq!(all_bound("(expr_args _* (atom)@atomo _*)", &list), Vec::<Vec<(String, usize)>>::new());
    let empty = node("expr_args", 0, vec![]);
    assert_eq!(all_bound("(expr_args _* (atom)@atomo _*)", &empty), Vec::<Vec<(String, usize)>>::new());
}

#[test]
fn a_run_takes_as_little_as_it_can() {
    let list = node(
        "l",
        0,
        vec![node("atom", 1, vec![]), node("atom", 2, vec![]), node("atom", 3, vec![])],
    );
    assert_eq!(all_bound("(l _* (atom)@first _*)", &list), vec![vec![pair("first", 1)]]);
    assert_eq!(
        all_bound("(l _@skipped* (atom)@first)", &list),
        vec![vec![pair("first", 1)]]
    );
}

#[test]
fn a_run_takes_more_when_a_later_pattern_fails() {
    let list = node(
        "l",
        0,
        vec![node("a", 1, vec![]), node("a", 2, vec![]), node("b", 3, vec![])],
    );
    assert_eq!(
        all_bound("(l _@skipped* (a)@a (b)@b)", &list),
        vec![vec![pair("skipped", 1), pair("a", 2), pair("b", 3)]]
    );
}

#[test]
fn two_runs_around_two_fixed_patterns_are_searched_in_full() {
    let list = node(
        "l",
        0,
        vec![
            node("a", 1, vec![]),
            node("x", 2, vec![]),
            node("a", 3, vec![]),
            node("y", 4, vec![]),
            node("b", 5, vec![]),
        ],
    );
    assert_eq!(
        all_bound("(l _* (a)@a (y)* (b)@b)", &list),
        vec![vec![pair("a", 3), pair("b", 5)]]
    );
    assert_eq!(all_bound("(l _* (a)@a (y)? (x)* (b)@b)", &list), vec![vec![pair("a", 3), pair("b", 5)]]);
    assert_eq!(all_bound("(l _* (a)@a (x) (b)@b)", &list), Vec::<Vec<(String, usize)>>::new());
    assert_eq!(
        all_bound("(l _* (a)@a (y)@y* (b)@b)", &node("l", 0, vec![
            node("a", 1, vec![]),
            node("b", 2, vec![]),
            node("a", 3, vec![]),
            node("y", 4, vec![]),
            node("y", 5, vec![]),
            node("b", 6, vec![]),
        ])),
        vec![vec![pair("a", 1), pair("b", 2)]]
    );
    assert_eq!(
        all_bound("(l _* (a)@a (y)@y+ (b)@b)", &node("l", 0, vec![
            node("a", 1, vec![]),
            node("b", 2, vec![]),
            node("a", 3, vec![]),
            node("y", 4, vec![]),
            node("y", 5, vec![]),
            node("b", 6, vec![]),
        ])),
        vec![vec![pair("a", 3), pair("y", 4), pair("y", 5), pair("b", 6)]]
    );
}

#[test]
fn one_or_more_needs_one() {
    assert_eq!(all_bound("(l (a)@a+)", &node("l", 0, vec![])), Vec::<Vec<(String, usize)>>::new());
    assert_eq!(
        all_bound("(l (a)@a+)", &node("l", 0, vec![node("b", 1, vec![])])),
        Vec::<Vec<(String, usize)>>::new()
    );
    assert_eq!(
        all_bound("(l (a)@a+)", &node("l", 0, vec![node("a", 1, vec![]), node("a", 2, vec![])])),
        vec![vec![pair("a", 1)]]
    );
    assert_eq!(
        all_bound(
            "(l (a)@a+ (b)@b)",
            &node("l", 0, vec![node("a", 1, vec![]), node("a", 2, vec![]), node("b", 3, vec![])])
        ),
        vec![vec![pair("a", 1), pair("a", 2), pair("b", 3)]]
    );
}

#[test]
fn zero_or_one_takes_at_most_one() {
    assert_eq!(
        all_bound("(l (a)@a? (b)@b)", &node("l", 0, vec![node("b", 1, vec![])])),
        vec![vec![pair("b", 1)]]
    );
    assert_eq!(
        all_bound(
            "(l (a)@a? (b)@b)",
            &node("l", 0, vec![node("a", 1, vec![]), node("b", 2, vec![])])
        ),
        vec![vec![pair("a", 1), pair("b", 2)]]
    );
    assert_eq!(
        all_bound(
            "(l (a)@a? (b)@b)",
            &node("l", 0, vec![node("a", 1, vec![]), node("a", 2, vec![]), node("b", 3, vec![])])
        ),
        Vec::<Vec<(String, usize)>>::new()
    );
}

#[test]
fn unqualified_patterns_start_at_the_first_child() {
    let list = node("l", 0, vec![node("a", 1, vec![]), node("b", 2, vec![])]);
    assert_eq!(all_bound("(l (a)@x)", &list), vec![vec![pair("x", 1)]]);
    assert_eq!(all_bound("(l (b)@x)", &list), Vec::<Vec<(String, usize)>>::new());
    assert_eq!(all_bound("(l _ (b)@x)", &list), vec![vec![pair("x", 2)]]);
    assert_eq!(all_bound("(l (a) (b) _)", &list), Vec::<Vec<(String, usize)>>::new());
}

#[test]
fn children_behind_the_last_pattern_are_not_looked_at() {
    let list = node("l", 0, vec![node("a", 1, vec![]), node("b", 2, vec![])]);
    assert_eq!(all_bound("(l)@l", &list), vec![vec![pair("l", 0)]]);
    assert_eq!(all_bound("(l (a))@l", &list), vec![vec![pair("l", 0)]]);
}

#[test]
fn a_qualified_pattern_skips_children_in_other_roles() {
    let call = node(
        "call",
        0,
        vec![role("expr", node("atom", 1, vec![])), role("args", node("expr_args", 2, vec![]))],
    );
    assert_eq!(all_bound("(call args: (_)@a)", &call), vec![vec![pair("a", 2)]]);
    assert_eq!(all_bound("(call expr: (_)@e args: (_)@a)", &call), vec![vec![pair("e", 1), pair("a", 2)]]);
    assert_eq!(all_bound("(call args: (_)@a expr: (_)@e)", &call), Vec::<Vec<(String, usize)>>::new());
    assert_eq!(all_bound("(call body: (_)@b)", &call), Vec::<Vec<(String, usize)>>::new());
    assert_eq!(all_bound("(call args: (atom)@a)", &call), Vec::<Vec<(String, usize)>>::new());
}

#[test]
fn a_field_with_several_children_is_walked_in_tree_order() {
    let tuple = node(
        "tuple",
        0,
        vec![
            role("expr", node("macro_call_expr", 1, vec![])),
            node("comment", 2, vec![]),
            role("expr", node("binary_op_expr", 3, vec![])),
        ],
    );
    assert_eq!(
        all_bound("(tuple expr: (_)@e expr: (_)@e)", &tuple),
        vec![vec![pair("e", 1), pair("e", 3)]]
    );
    assert_eq!(
        all_bound("(tuple expr: (_)@e+)", &tuple),
        vec![vec![pair("e", 1)]]
    );
    assert_eq!(
        all_bound("(tuple expr: (_)@e+ (absent)?  expr: (_)?)", &tuple),
        vec![vec![pair("e", 1)]]
    );
    assert_eq!(
        all_bound("(tuple expr: (binary_op_expr)@e)", &tuple),
        Vec::<Vec<(String, usize)>>::new()
    );
    assert_eq!(
        all_bound("(tuple expr: (_)* expr: (binary_op_expr)@e)", &tuple),
        vec![vec![pair("e", 3)]]
    );
    assert_eq!(
        all_bound("(tuple expr: (_)@e expr: (_)@e expr: (_)@e)", &tuple),
        Vec::<Vec<(String, usize)>>::new()
    );
}

#[test]
fn an_unqualified_pattern_looks_at_children_in_any_role() {
    let args = node(
        "expr_args",
        0,
        vec![role("args", node("integer", 1, vec![])), role("args", node("atom", 2, vec![]))],
    );
    assert_eq!(all_bound("(expr_args (integer)@i (atom)@a)", &args), vec![vec![pair("i", 1), pair("a", 2)]]);
}

#[test]
fn every_node_is_a_candidate_in_document_order() {
    let tree = node(
        "list",
        0,
        vec![
            node("list", 1, vec![node("atom", 2, vec![]), node("list", 3, vec![])]),
            node("atom", 4, vec![]),
            node("list", 5, vec![node("atom", 6, vec![])]),
        ],
    );
    assert_eq!(
        all_bound("(list)@l", &tree),
        vec![vec![pair("l", 0)], vec![pair("l", 1)], vec![pair("l", 3)], vec![pair("l", 5)]]
    );
    assert_eq!(
        all_bound("_@n", &tree),
        (0..7).map(|id| vec![pair("n", id)]).collect::<Vec<_>>()
    );
}

#[test]
fn a_match_inside_a_match_is_reported_too() {
    let tree = node(
        "tuple",
        0,
        vec![node("tuple", 1, vec![node("atom", 2, vec![])]), node("atom", 3, vec![])],
    );
    assert_eq!(
        all_bound("(tuple _* (atom)@a)@t", &tree),
        vec![vec![pair("t", 0), pair("a", 3)], vec![pair("t", 1), pair("a", 2)]]
    );
}

#[test]
fn the_number_of_matches_is_the_number_of_matching_nodes() {
    let tree = node(
        "f",
        0,
        vec![
            node("g", 1, vec![node("x", 2, vec![]), node("y", 3, vec![])]),
            node("g", 4, vec![node("y", 5, vec![])]),
            node("g", 6, vec![node("x", 7, vec![])]),
            node("h", 8, vec![node("g", 9, vec![node("x", 10, vec![node("g", 11, vec![])])])]),
        ],
    );
    let pattern = compile("(g (x))").unwrap();
    let nodes = tree.descendants();
    let matching = nodes.iter().filter(|n| pattern.match_at(n).is_some()).count();
    assert_eq!(matching, 3);
    assert_eq!(scryer::engine::matches(&pattern, &tree).len(), 3);
    let by_hand = nodes
        .iter()
        .filter(|n| n.kind == "g" && n.children.first().map(|c| c.kind == "x").unwrap_or(false))
        .count();
    assert_eq!(by_hand, 3);
}

#[test]
fn matching_twice_gives_the_same_matches() {
    let tree = node(
        "tuple",
        0,
        vec![node("tuple", 1, vec![node("atom", 2, vec![])]), node("atom", 3, vec![])],
    );
    let pattern = compile("(tuple _@skipped* (atom)@a)@t").unwrap();
    let first = scryer::engine::matches(&pattern, &tree);
    let second = scryer::engine::matches(&pattern, &tree);
    assert_eq!(first, second);
    assert_eq!(first.len(), 2);
}

#[test]
fn a_failed_attempt_leaves_no_partial_match() {
    let tree = node("l", 0, vec![node("a", 1, vec![]), node("c", 2, vec![])]);
    assert_eq!(all_bound("(l (a)@a (b)@b)", &tree), Vec::<Vec<(String, usize)>>::new());
}

#[test]
fn captures_come_in_the_order_of_the_pattern() {
    let tree = node(
        "f",
        0,
        vec![node("g", 1, vec![node("x", 2, vec![])]), node("h", 3, vec![])],
    );
    assert_eq!(
        all_bound("(f (g (x)@x)@g (h)@h)@f", &tree),
        vec![vec![pair("f", 0), pair("g", 1), pair("x", 2), pair("h", 3)]]
    );
}

#[test]
fn a_pattern_without_captures_matches_with_no_binding() {
    let tree = node("f", 0, vec![node("f", 1, vec![])]);
    assert_eq!(all_bound("(f)", &tree), vec![vec![], vec![]]);
}

#[test]
fn a_pattern_built_by_hand_matches_like_a_compiled_one() {
    let by_hand = Pattern {
        kind: Some("l".to_string()),
        capture: None,
        field: None,
        quantifier: Quantifier::One,
        children: vec![Pattern {
            kind: None,
            capture: Some("x".to_string()),
            field: None,
            quantifier: Quantifier::ZeroOrMore,
            children: vec![],
        }],
    };
    assert_eq!(by_hand, compile("(l _@x*)").unwrap());
    let tree = node("l", 0, vec![node("a", 1, vec![])]);
    assert_eq!(scryer::engine::matches(&by_hand, &tree).iter().map(bound).collect::<Vec<_>>(), vec![vec![]]);
}

#[test]
fn every_captured_node_is_a_node_of_the_tree() {
    let tree = node(
        "f",
        0,
        vec![
            node("g", 1, vec![node("x", 2, vec![]), node("y", 3, vec![])]),
            role("r", node("g", 4, vec![node("y", 5, vec![node("x", 6, vec![])])])),
        ],
    );
    let nodes = tree.descendants();
    for query in ["_@n", "(g _@c*)@g", "(f r: (g (y (x)@x)@y)@g)@f", "(_ _@first)"] {
        let pattern = compile(query).unwrap();
        let found = scryer::engine::matches(&pattern, &tree);
        assert!(!found.is_empty());
        for m in &found {
            for c in &m.captures {
                assert!(nodes.iter().any(|n| std::ptr::eq(*n, c.node)));
            }
        }
    }
}

#[test]
fn match_at_tries_one_node_only() {
    let tree = node("f", 0, vec![node("g", 1, vec![])]);
    let pattern = compile("(g)@g").unwrap();
    assert!(pattern.match_at(&tree).is_none());
    let found = pattern.match_at(&tree.children[0]).unwrap();
    assert_eq!(bound(&found), vec![pair("g", 1)]);
}

#[test]
fn a_match_maps_a_label_to_all_nodes_bound_to_it() {
    let tree = node(
        "l",
        0,
        vec![node("a", 1, vec![]), node("b", 2, vec![]), node("a", 3, vec![]), node("c", 4, vec![])],
    );
    let pattern = compile("(l (a)@a (b)@b (a)@a _@rest*)@all").unwrap();
    let found = scryer::engine::matches(&pattern, &tree);
    assert_eq!(found.len(), 1);
    let ids = |label: &str| -> Vec<usize> {
        found[0].bindings(label).iter().map(|n| n.span.start_byte).collect()
    };
    assert_eq!(ids("a"), vec![1, 3]);
    assert_eq!(ids("b"), vec![2]);
    assert_eq!(ids("all"), vec![0]);
    assert_eq!(ids("rest"), Vec::<usize>::new());
    assert_eq!(ids("A"), Vec::<usize>::new());
    assert_eq!(ids(""), Vec::<usize>::new());
}
