use bdl::diagnostics::SyntaxErrorCode;
use bdl::kind::SyntaxKind;
use bdl::kind::SyntaxKind::{
    AndAnd, Arrow, At, BlockComment, Dot, EqEq, Error, FatArrow, Ge, Gt, Ident, KwBind,
    KwClock, KwComponent, KwConcept, KwContext, KwDevice, KwDrive, KwElse, KwEnum, KwExport,
    KwFalse, KwIf, KwInstance, KwLet, KwMapping, KwMatch, KwOutput, KwParam, KwProvides,
    KwRequires, KwThen, KwTrue, KwUse, Le, LineComment, Minus, Ne, Number, OrOr, Underscore,
    Whitespace,
};
use bdl::lexer::lex;
use bdl::span::Span;

fn kinds(s: &str) -> Vec<SyntaxKind> {
    lex(s).0.into_iter().map(|t| t.kind).collect()
}

fn texts(s: &str) -> Vec<String> {
    lex(s).0.iter().map(|t| t.text().to_owned()).collect()
}

#[test]
fn longest_match_for_compound_operators() {
    assert_eq!(
        kinds("a->b=>c==d!=e<=f>=g&&h||i"),
        vec![
            Ident, Arrow, Ident, FatArrow, Ident, EqEq, Ident, Ne, Ident, Le, Ident, Ge, Ident,
            AndAnd, Ident, OrOr, Ident
        ]
    );
    assert_eq!(kinds("a- >b"), vec![Ident, Minus, Whitespace, Gt, Ident]);
    assert_eq!(kinds("=>="), vec![FatArrow, SyntaxKind::Eq]);
    assert_eq!(kinds(">>"), vec![Gt, Gt]);
}

#[test]
fn keywords_underscore_and_identifiers() {
    assert_eq!(
        kinds("concept mapping enum match let if then else true false"),
        vec![
            KwConcept, Whitespace, KwMapping, Whitespace, KwEnum, Whitespace, KwMatch,
            Whitespace, KwLet, Whitespace, KwIf, Whitespace, KwThen, Whitespace, KwElse,
            Whitespace, KwTrue, Whitespace, KwFalse
        ]
    );
    assert_eq!(
        kinds("_ _x iffy context"),
        vec![Underscore, Whitespace, Ident, Whitespace, Ident, Whitespace, KwContext]
    );
    assert_eq!(
        kinds("clock output drive device component instance bind export requires provides param use"),
        vec![
            KwClock, Whitespace, KwOutput, Whitespace, KwDrive, Whitespace, KwDevice,
            Whitespace, KwComponent, Whitespace, KwInstance, Whitespace, KwBind, Whitespace,
            KwExport, Whitespace, KwRequires, Whitespace, KwProvides, Whitespace, KwParam,
            Whitespace, KwUse
        ]
    );
    assert_eq!(
        kinds("a.b @c .5"),
        vec![Ident, Dot, Ident, Whitespace, At, Ident, Whitespace, Number]
    );
}

#[test]
fn numbers_are_spelled_not_valued() {
    assert_eq!(
        texts("1.5e3 .5 2 0.1 1e999"),
        vec!["1.5e3", " ", ".5", " ", "2", " ", "0.1", " ", "1e999"]
    );
    assert_eq!(kinds("1."), vec![Number, Dot]);
    assert_eq!(kinds("1e"), vec![Number, Ident]);
    assert_eq!(kinds("90deg"), vec![Number, Ident]);
}

#[test]
fn comments_are_tokens() {
    assert_eq!(
        kinds("a // c\nb"),
        vec![Ident, Whitespace, LineComment, Whitespace, Ident]
    );
    assert_eq!(texts("/* a **/ x"), vec!["/* a **/", " ", "x"]);
    let (t, e) = lex("/* open");
    assert_eq!(t[0].kind, BlockComment);
    assert_eq!(e[0].code, SyntaxErrorCode::UnterminatedComment);
}

#[test]
fn unknown_characters_are_error_tokens_with_utf8_spans() {
    let (t, e) = lex("a § b");
    assert_eq!(t[2].kind, Error);
    assert_eq!(t[2].span, Span::new(2, 4));
    assert_eq!(t[4].span, Span::new(5, 6));
    assert_eq!(e[0].message, "`§` cannot appear in BDL source");
    assert_eq!(
        kinds("a & b"),
        vec![Ident, Whitespace, Error, Whitespace, Ident]
    );
    assert_eq!(texts("x😀y"), vec!["x", "😀", "y"]);
}

#[test]
fn tokens_cover_the_source() {
    for s in [
        "",
        "a",
        "a § b\n/* x */ 1.5 deg -> => \t",
        "😀😀",
        "/* open",
    ] {
        let (t, _) = lex(s);
        let joined: String = t.iter().map(|t| t.text()).collect();
        assert_eq!(joined, s);
    }
}

#[test]
fn lexing_never_produces_an_end_of_file_token() {
    for s in ["", "a b", "/* open", "§"] {
        let (t, _) = lex(s);
        assert!(t.iter().all(|t| t.kind != SyntaxKind::Eof));
    }
}
