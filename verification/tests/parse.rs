use bdl::parser::{parse_formula, parse_module};
use bdl::kind::SyntaxKind;

#[test]
fn round_trip_valid_and_malformed() {
    let sources = [
        "",
        "   ",
        "// only a comment",
        "concept Tilt : Angle\n",
        "mapping f : A -> B\nf(x) =\n  g(x) + 1 // done\n",
        "mapping broken : Tilt -> Brightness\nbroken(tilt =\n  if tilt < 10 deg < 20 deg then foo(tilt else 0",
        "enum E { A, B(C,), }",
        "}}} ((( ,,, => -> § 😀 /* unterminated",
        "match { let ; if then else",
        "1 + + 2",
        "a § b",
    ];
    for src in sources {
        let m = parse_module(src);
        assert_eq!(m.text(), src, "module {src:?}");
        assert_eq!(m.syntax_node().kind, SyntaxKind::Module);
        let f = parse_formula(src);
        assert_eq!(f.text(), src, "formula {src:?}");
        assert_eq!(f.syntax_node().kind, SyntaxKind::Formula);
    }
}

#[test]
fn a_clean_module_has_no_errors() {
    let src = "output light : Brightness @main\nmapping level : () -> Brightness @main\nlevel() = 5\ndrive light   =  level   // the edge\ndrive glow by level\ndrive /* out */ other = level\n";
    let m = parse_module(src);
    assert!(m.is_ok(), "{:?}", m.errors());
}

#[test]
fn every_error_has_a_span_inside_the_source() {
    let words = [
        "concept", "mapping", "enum", "match", "let", "if", "then", "else", "true", "false",
        "context", "x", "Some", "_", "1", "2.5", "(", ")", "{", "}", "<", ">", "<=", ">=", "==",
        "!=", ":", ",", ";", "=", "->", "=>", "+", "-", "*", "/", "!", "&&", "||", "deg", "§",
        "//c\n", "/* c */", "😀", "/* open",
    ];
    let mut sources: Vec<String> = Vec::new();
    for (i, a) in words.iter().enumerate() {
        for b in words.iter().skip(i % 7).step_by(5) {
            sources.push(format!("{a} {b}"));
            sources.push(format!("{a}{b}{a}"));
        }
    }
    for s in &sources {
        let m = parse_module(s);
        let f = parse_formula(s);
        for e in m.errors().iter().chain(f.errors()) {
            assert!(e.span.end as usize <= s.len(), "{s:?}: {:?}", e);
        }
    }
}

/// The end of the children of `n` laid end to end from its start, if they are.
fn chained(n: &bdl::syntax::SyntaxNode) -> bool {
    let mut at = n.span.start;
    for c in &n.children {
        match c {
            bdl::syntax::SyntaxElement::Token(t) => {
                if t.span.start != at {
                    return false;
                }
                at = t.span.end;
            }
            bdl::syntax::SyntaxElement::Node(m) => {
                if m.span.start != at || !chained(m) {
                    return false;
                }
                at = m.span.end;
            }
        }
    }
    at == n.span.end
}

#[test]
fn node_spans_lie_end_to_end_across_the_source() {
    for src in [
        "",
        "// head\n\nconcept A // trailing\n/* block */ concept B\n",
        "mapping f : A -> B\nf(x) = match x { Off => , Auto 1, => 2, On => 3 }",
        "a § b 😀 /* open",
        "component L {\n  // c\n  requires t : Tilt\n}\n",
    ] {
        let m = parse_module(src);
        assert!(chained(m.syntax_node()), "{src:?}");
        assert_eq!(m.syntax_node().span.start, 0);
        assert_eq!(m.syntax_node().span.end as usize, src.len());
        let f = parse_formula(src);
        assert!(chained(f.syntax_node()), "{src:?}");
        assert_eq!(f.syntax_node().span.end as usize, src.len());
    }
}
