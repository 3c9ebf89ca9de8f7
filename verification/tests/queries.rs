use scryer::compile::{compile, CompileError, CompileErrorKind};
use scryer::pattern::{Pattern, Quantifier};

fn pat(
    kind: Option<&str>,
    capture: Option<&str>,
    field: Option<&str>,
    quantifier: Quantifier,
    children: Vec<Pattern>,
) -> Pattern {
    Pattern {
        kind: kind.map(|s| s.to_string()),
        capture: capture.map(|s| s.to_string()),
        field: field.map(|s| s.to_string()),
        quantifier,
        children,
    }
}

fn refused(query: &str) -> CompileError {
    match compile(query) {
        Ok(p) => panic!("{:?} compiled to {:?}", query, p),
        Err(e) => e,
    }
}

#[test]
fn compiles_a_single_kind() {
    assert_eq!(compile("(atom)"), Ok(pat(Some("atom"), None, None, Quantifier::One, vec![])));
}

#[test]
fn compiles_the_wildcard_in_parentheses_and_bare() {
    assert_eq!(compile("(_)"), Ok(pat(None, None, None, Quantifier::One, vec![])));
    assert_eq!(compile("_"), Ok(pat(None, None, None, Quantifier::One, vec![])));
    assert_eq!(compile("_@any"), Ok(pat(None, Some("any"), None, Quantifier::One, vec![])));
}

#[test]
fn a_name_that_starts_with_an_underscore_is_a_kind() {
    assert_eq!(compile("(_expr)"), Ok(pat(Some("_expr"), None, None, Quantifier::One, vec![])));
    assert_eq!(compile("(__)"), Ok(pat(Some("__"), None, None, Quantifier::One, vec![])));
}

#[test]
fn compiles_a_capture_behind_a_pattern() {
    assert_eq!(
        compile("(atom)@name"),
        Ok(pat(Some("atom"), Some("name"), None, Quantifier::One, vec![]))
    );
    assert_eq!(
        compile("(atom) @name"),
        Ok(pat(Some("atom"), Some("name"), None, Quantifier::One, vec![]))
    );
}

#[test]
fn compiles_the_call_query() {
    let expected = pat(
        Some("call"),
        None,
        None,
        Quantifier::One,
        vec![pat(
            Some("expr_args"),
            None,
            Some("args"),
            Quantifier::One,
            vec![
                pat(None, None, None, Quantifier::ZeroOrMore, vec![]),
                pat(Some("atom"), Some("atomo"), None, Quantifier::One, vec![]),
                pat(None, None, None, Quantifier::ZeroOrMore, vec![]),
            ],
        )],
    );
    assert_eq!(compile("(call args: (expr_args _* (atom)@atomo _*))"), Ok(expected));
}

#[test]
fn compiles_every_quantifier() {
    let expected = pat(
        Some("list"),
        None,
        None,
        Quantifier::One,
        vec![
            pat(Some("a"), None, None, Quantifier::ZeroOrMore, vec![]),
            pat(Some("b"), None, None, Quantifier::OneOrMore, vec![]),
            pat(Some("c"), None, None, Quantifier::ZeroOrOne, vec![]),
            pat(Some("d"), None, None, Quantifier::One, vec![]),
        ],
    );
    assert_eq!(compile("(list (a)* (b)+ (c)? (d))"), Ok(expected));
}

#[test]
fn the_capture_stands_before_the_quantifier() {
    let expected = pat(
        Some("list"),
        None,
        None,
        Quantifier::One,
        vec![pat(Some("item"), Some("it"), Some("elem"), Quantifier::OneOrMore, vec![])],
    );
    assert_eq!(compile("(list elem: (item)@it+)"), Ok(expected));
}

#[test]
fn blanks_may_stand_between_tokens() {
    let expected = pat(
        Some("tuple"),
        Some("t"),
        None,
        Quantifier::One,
        vec![
            pat(None, Some("e"), Some("expr"), Quantifier::One, vec![]),
            pat(None, None, None, Quantifier::ZeroOrOne, vec![]),
        ],
    );
    assert_eq!(compile(" \t( tuple\n  expr :\r\n ( _ ) @e   _ ? )  @t \n"), Ok(expected));
}

#[test]
fn the_same_label_may_be_used_twice() {
    let expected = pat(
        Some("tuple"),
        None,
        None,
        Quantifier::One,
        vec![
            pat(None, Some("e"), Some("expr"), Quantifier::One, vec![]),
            pat(None, Some("e"), Some("expr"), Quantifier::One, vec![]),
        ],
    );
    assert_eq!(compile("(tuple expr: (_)@e expr: (_)@e)"), Ok(expected));
}

#[test]
fn unknown_kinds_and_fields_compile() {
    assert!(compile("(no_such_kind no_such_field: (nor_this_one))").is_ok());
}

#[test]
fn an_empty_query_is_refused() {
    assert_eq!(refused(""), CompileError { position: 0, kind: CompileErrorKind::EmptyQuery });
    assert_eq!(refused("  \n "), CompileError { position: 4, kind: CompileErrorKind::EmptyQuery });
}

#[test]
fn an_open_pattern_at_the_end_is_unbalanced() {
    assert_eq!(
        refused("(call"),
        CompileError { position: 5, kind: CompileErrorKind::UnbalancedParentheses }
    );
    assert_eq!(
        refused("("),
        CompileError { position: 1, kind: CompileErrorKind::UnbalancedParentheses }
    );
    assert_eq!(
        refused("(call args: (expr_args _*)"),
        CompileError { position: 26, kind: CompileErrorKind::UnbalancedParentheses }
    );
    assert_eq!(
        refused("(call args:"),
        CompileError { position: 11, kind: CompileErrorKind::UnbalancedParentheses }
    );
}

#[test]
fn a_closing_parenthesis_that_closes_nothing_is_unbalanced() {
    assert_eq!(
        refused("(call))"),
        CompileError { position: 6, kind: CompileErrorKind::UnbalancedParentheses }
    );
    assert_eq!(
        refused(")"),
        CompileError { position: 0, kind: CompileErrorKind::UnbalancedParentheses }
    );
}

#[test]
fn a_capture_without_a_name_is_refused() {
    assert_eq!(
        refused("(atom)@"),
        CompileError { position: 6, kind: CompileErrorKind::InvalidCapture }
    );
    assert_eq!(
        refused("(atom)@ name"),
        CompileError { position: 6, kind: CompileErrorKind::InvalidCapture }
    );
    assert_eq!(
        refused("(atom)@_"),
        CompileError { position: 6, kind: CompileErrorKind::InvalidCapture }
    );
    assert_eq!(
        refused("(call (atom)@)"),
        CompileError { position: 12, kind: CompileErrorKind::InvalidCapture }
    );
}

#[test]
fn a_capture_out_of_place_is_refused() {
    assert_eq!(
        refused("@name"),
        CompileError { position: 0, kind: CompileErrorKind::InvalidCapture }
    );
    assert_eq!(
        refused("(atom)@a@b"),
        CompileError { position: 8, kind: CompileErrorKind::InvalidCapture }
    );
    assert_eq!(
        refused("(call (atom)*@a)"),
        CompileError { position: 13, kind: CompileErrorKind::InvalidCapture }
    );
}

#[test]
fn a_quantifier_out_of_place_is_refused() {
    assert_eq!(
        refused("(atom)*"),
        CompileError { position: 6, kind: CompileErrorKind::MalformedQuantifier }
    );
    assert_eq!(
        refused("(call _**)"),
        CompileError { position: 8, kind: CompileErrorKind::MalformedQuantifier }
    );
    assert_eq!(
        refused("(call +)"),
        CompileError { position: 6, kind: CompileErrorKind::MalformedQuantifier }
    );
    assert_eq!(
        refused("(*)"),
        CompileError { position: 1, kind: CompileErrorKind::MalformedQuantifier }
    );
    assert_eq!(
        refused("?"),
        CompileError { position: 0, kind: CompileErrorKind::MalformedQuantifier }
    );
}

#[test]
fn a_bare_name_among_the_children_is_an_invalid_field() {
    assert_eq!(
        refused("(call args)"),
        CompileError { position: 6, kind: CompileErrorKind::InvalidField }
    );
    assert_eq!(
        refused("(call args (x))"),
        CompileError { position: 6, kind: CompileErrorKind::InvalidField }
    );
}

#[test]
fn a_colon_without_a_name_is_an_invalid_field() {
    assert_eq!(
        refused("(call : (x))"),
        CompileError { position: 6, kind: CompileErrorKind::InvalidField }
    );
    assert_eq!(
        refused("(call _: (x))"),
        CompileError { position: 7, kind: CompileErrorKind::InvalidField }
    );
    assert_eq!(
        refused("(call a: : (x))"),
        CompileError { position: 9, kind: CompileErrorKind::InvalidField }
    );
}

#[test]
fn other_offences_are_unexpected_tokens() {
    assert_eq!(
        refused("atom"),
        CompileError { position: 0, kind: CompileErrorKind::UnexpectedToken }
    );
    assert_eq!(
        refused("()"),
        CompileError { position: 1, kind: CompileErrorKind::UnexpectedToken }
    );
    assert_eq!(
        refused("((a))"),
        CompileError { position: 1, kind: CompileErrorKind::UnexpectedToken }
    );
    assert_eq!(
        refused("(a) (b)"),
        CompileError { position: 4, kind: CompileErrorKind::UnexpectedToken }
    );
    assert_eq!(
        refused("(call args: )"),
        CompileError { position: 12, kind: CompileErrorKind::UnexpectedToken }
    );
    assert_eq!(
        refused("(call args: name)"),
        CompileError { position: 12, kind: CompileErrorKind::UnexpectedToken }
    );
    assert_eq!(
        refused("(call #eq)"),
        CompileError { position: 6, kind: CompileErrorKind::UnexpectedToken }
    );
}

#[test]
fn positions_count_characters_not_bytes() {
    assert_eq!(
        refused("(call \u{e9}\u{e9} *)"),
        CompileError { position: 6, kind: CompileErrorKind::UnexpectedToken }
    );
    assert_eq!(
        refused("\u{2048}"),
        CompileError { position: 0, kind: CompileErrorKind::UnexpectedToken }
    );
}

#[test]
fn the_first_offence_is_the_one_reported() {
    assert_eq!(
        refused("(call @ (x"),
        CompileError { position: 6, kind: CompileErrorKind::InvalidCapture }
    );
}

#[test]
fn a_pattern_is_written_as_the_query_that_spells_it() {
    let pattern = compile(" ( call   args : ( expr_args _ * ( atom ) @atomo _* ) ) ").unwrap();
    assert_eq!(pattern.to_query(), "(call args: (expr_args _* (atom)@atomo _*))");
    assert_eq!(compile("_").unwrap().to_query(), "_");
    assert_eq!(compile("(_)").unwrap().to_query(), "_");
    assert_eq!(compile("_ @x").unwrap().to_query(), "_@x");
    assert_eq!(compile("(_ (a))").unwrap().to_query(), "(_ (a))");
    assert_eq!(
        compile("(l a: (x)@c? (y)+ b: (_)@d*)@e").unwrap().to_query(),
        "(l a: (x)@c? (y)+ b: _@d*)@e"
    );
}

#[test]
fn compiling_reads_back_what_a_pattern_is_written_as() {
    let queries = [
        "(atom)",
        "_",
        "_@x",
        "(_ _)",
        "(call args: (expr_args _* (atom)@atomo _*))",
        "(tuple expr: _@e expr: _@e)",
        "(a (b (c (d)@d)@c)@b)@a",
        "(l f: (x)? g: (y)+ (z)* _ (_w)@__ _? h: _@i+)",
        "(A1 _0: (B_2)@C3)",
    ];
    for query in queries {
        let pattern = compile(query).unwrap();
        assert_eq!(pattern.to_query(), query);
        assert_eq!(compile(&pattern.to_query()), Ok(pattern));
    }
    let by_hand = pat(
        Some("list"),
        Some("all"),
        None,
        Quantifier::One,
        vec![
            pat(None, None, Some("head"), Quantifier::ZeroOrOne, vec![]),
            pat(Some("item"), Some("it"), None, Quantifier::OneOrMore, vec![pat(
                None,
                Some("inner"),
                None,
                Quantifier::ZeroOrMore,
                vec![],
            )]),
        ],
    );
    assert_eq!(by_hand.to_query(), "(list head: _? (item _@inner*)@it+)@all");
    assert_eq!(compile(&by_hand.to_query()), Ok(by_hand));
}

#[test]
fn a_compiled_root_has_no_field_and_no_quantifier() {
    for query in ["(a)", "_", "(a b: (c)*)@d"] {
        let pattern = compile(query).unwrap();
        assert_eq!(pattern.field, None);
        assert_eq!(pattern.quantifier, Quantifier::One);
    }
}

#[test]
fn the_offence_lies_inside_the_query_or_at_its_end() {
    for query in ["", "(", "(a", "(a b", "(a b:", "@", "(a)@", "(a))", "(a) x", "(a \u{e9})", "((("] {
        let error = refused(query);
        assert!(error.position <= query.chars().count(), "{:?}: {:?}", query, error);
    }
}

#[test]
fn a_clone_of_a_pattern_is_equal_to_it() {
    let pattern = compile("(call args: (expr_args _* (atom)@atomo _*))@c").unwrap();
    assert_eq!(pattern.clone(), pattern);
    assert_eq!(pattern.clone().to_query(), "(call args: (expr_args _* (atom)@atomo _*))@c");
}

#[test]
fn a_refusal_is_described_by_its_reason_and_position() {
    assert_eq!(refused("").message(), "the query is empty at character 0");
    assert_eq!(refused("(call").message(), "unbalanced parentheses at character 5");
    assert_eq!(refused("(call args)").message(), "invalid field name at character 6");
    assert_eq!(refused("(atom)@").message(), "invalid capture at character 6");
    assert_eq!(refused("(call _**)").message(), "malformed quantifier at character 8");
    assert_eq!(refused("(a          (b) #)").message(), "unexpected token at character 16");
    assert_eq!(CompileErrorKind::EmptyQuery.reason(), "the query is empty");
}

#[test]
fn quantifiers_bound_the_number_of_children() {
    let all = [Quantifier::One, Quantifier::ZeroOrMore, Quantifier::OneOrMore, Quantifier::ZeroOrOne];
    let enough_with: Vec<Vec<bool>> =
        all.iter().map(|q| (0..3).map(|n| q.is_satisfied_by(n)).collect()).collect();
    assert_eq!(
        enough_with,
        vec![
            vec![false, true, true],
            vec![true, true, true],
            vec![false, true, true],
            vec![true, true, true],
        ]
    );
    let more_after: Vec<Vec<bool>> =
        all.iter().map(|q| (0..3).map(|n| q.may_take_more(n)).collect()).collect();
    assert_eq!(
        more_after,
        vec![
            vec![true, false, false],
            vec![true, true, true],
            vec![true, true, true],
            vec![true, false, false],
        ]
    );
    assert!(Quantifier::ZeroOrMore.may_take_more(usize::MAX));
}
