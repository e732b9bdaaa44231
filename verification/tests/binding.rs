use bdl::ast::nodes::NameExpr;
use bdl::ast::support::descendants;
use bdl::parser::parse_formula;
use bdl::span::Span;
use bdl::syntax::SyntaxNode;

/// The name expressions of a tree, with their spelling, in source order.
fn names(root: &SyntaxNode) -> Vec<(String, NameExpr<'_>)> {
    descendants(root)
        .into_iter()
        .filter_map(NameExpr::cast)
        .map(|n| (n.name().map(|r| r.as_str()).unwrap_or_default(), n))
        .collect()
}

#[test]
fn a_let_binds_the_names_after_it() {
    let p = parse_formula("{ let x = 1; let y = x; x + y + z }");
    assert!(p.is_ok());
    let root = p.syntax_node();
    let found: Vec<(String, Option<Span>)> = names(root)
        .iter()
        .map(|(s, n)| (s.clone(), n.local_binding(root).map(|b| b.syntax().span)))
        .collect();
    assert_eq!(
        found,
        vec![
            ("x".to_string(), Some(Span::new(6, 7))),
            ("x".to_string(), Some(Span::new(6, 7))),
            ("y".to_string(), Some(Span::new(17, 18))),
            ("z".to_string(), None),
        ]
    );
}

#[test]
fn a_match_arm_binds_its_pattern_in_its_body_only() {
    let src = "match v { Some(y) => y + w, _ => y }";
    let p = parse_formula(src);
    assert!(p.is_ok());
    let root = p.syntax_node();
    let found: Vec<(String, Option<Span>)> = names(root)
        .iter()
        .map(|(s, n)| (s.clone(), n.local_binding(root).map(|b| b.syntax().span)))
        .collect();
    assert_eq!(
        found,
        vec![
            ("v".to_string(), None),
            ("y".to_string(), Some(Span::new(15, 16))),
            ("w".to_string(), None),
            ("y".to_string(), None),
        ]
    );
}

#[test]
fn the_nearest_binding_wins() {
    let src = "{ let x = 1; { let x = 2; x } }";
    let p = parse_formula(src);
    let root = p.syntax_node();
    let found: Vec<Option<Span>> = names(root)
        .iter()
        .map(|(_, n)| n.local_binding(root).map(|b| b.syntax().span))
        .collect();
    assert_eq!(found, vec![Some(Span::new(19, 20))]);
}
