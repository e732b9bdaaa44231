//! Patterns.
//!
//! ```text
//! Pattern            ::= "_" | Name | LiteralPattern | ConstructorPattern
//! LiteralPattern     ::= "true" | "false" | "-"? Number
//! ConstructorPattern ::= NameRef "(" PatternList? ")"
//! ```
//! A bare identifier is always an `IdentPattern`; name resolution decides
//! whether it is a binding or a nullary constructor.
use super::{grammar, Parser};
use crate::diagnostics::SyntaxErrorCode;
use crate::kind::SyntaxKind;
use crate::kind::SyntaxKind as K;
use vstd::prelude::*;

verus! {

pub open spec fn spec_can_start_pattern(kind: SyntaxKind) -> bool {
    matches!(kind, K::Underscore | K::Ident | K::KwTrue | K::KwFalse | K::Number | K::Minus | K::KwContext | K::KwRequire)
}

pub(crate) fn can_start(kind: SyntaxKind) -> (r: bool)
    ensures
        r == spec_can_start_pattern(kind),
{
    matches!(kind, K::Underscore | K::Ident | K::KwTrue | K::KwFalse | K::Number | K::Minus) || kind.is_future_reserved()
}

/// Parse a pattern; `false` when nothing pattern-like starts here (no
/// error is reported, the caller knows what it expected).
pub(crate) fn pattern(p: &mut Parser) -> (r: bool)
    requires
        old(p).wf(),
    ensures
        final(p).grows_from(*old(p)),
        r == spec_can_start_pattern(old(p).cur()),
        r ==> final(p).pos > old(p).pos,
        !r ==> final(p).pos == old(p).pos,
    decreases old(p).remaining(), 0int,
{
    match p.current() {
        K::Underscore => {
            let m = p.start();
            p.bump();
            m.complete(p, K::WildcardPattern);
        },
        K::Ident => {
            if p.nth(1) == K::LParen {
                let m = p.start();
                grammar::name_ref(p);
                pattern_list(p);
                m.complete(p, K::ConstructorPattern);
            } else {
                let m = p.start();
                grammar::name(p, "expected a name");
                m.complete(p, K::IdentPattern);
            }
        },
        K::KwContext | K::KwRequire => {
            let m = p.start();
            grammar::name(p, "expected a name");
            m.complete(p, K::IdentPattern);
        },
        K::KwTrue | K::KwFalse => {
            let m = p.start();
            p.bump();
            m.complete(p, K::LiteralPattern);
        },
        K::Number | K::Minus => {
            let m = p.start();
            if p.eat(K::Minus) && !p.at(K::Number) {
                p.error_expecting("expected a whole number after `-` in this pattern", &[K::Number]);
                m.complete(p, K::LiteralPattern);
                return true;
            }
            let text = p.current_text();
            if crate::literal::has_fraction_or_exponent(text.as_str()) {
                let message = String::from_str("only whole numbers can be matched, not `").concat(
                    text.as_str(),
                ).concat("`");
                p.error(SyntaxErrorCode::LiteralPattern, message);
                p.hint(
                    String::from_str(
                        "Match on a whole number, or compare with `<` in an `if` instead.",
                    ),
                );
            }
            p.bump();
            m.complete(p, K::LiteralPattern);
        },
        _ => {
            return false;
        },
    }
    true
}

/// `PatternList ::= "(" (Pattern ("," Pattern)* ","?)? ")"`
fn pattern_list(p: &mut Parser)
    requires
        old(p).wf(),
        old(p).cur() == K::LParen,
    ensures
        final(p).grows_from(*old(p)),
        final(p).pos > old(p).pos,
    decreases old(p).remaining(), 1int,
{
    let m = p.start();
    p.bump();  // (
    loop
        invariant
            p.grows_from(*old(p)),
            p.pos > old(p).pos,
            m.valid(*p),
        decreases p.remaining(),
    {
        if p.at(K::RParen) || p.at_eof() {
            break;
        }
        if !pattern(p) {
            if p.at(K::Comma) {
                p.error_and_bump(SyntaxErrorCode::Expected, "expected a pattern before `,`");
                continue;
            }
            p.error_expecting(
                "expected `)` to close the constructor's patterns",
                &[K::RParen, K::Comma],
            );
            m.complete(p, K::PatternList);
            return;
        }
        if p.at(K::RParen) {
            break;
        }
        if !p.eat(K::Comma) {
            if can_start(p.current()) {
                p.error_expecting("expected `,` between patterns", &[K::Comma]);
                continue;
            }
            p.error_expecting(
                "expected `)` to close the constructor's patterns",
                &[K::RParen, K::Comma],
            );
            m.complete(p, K::PatternList);
            return;
        }
    }
    p.expect(K::RParen, "expected `)` to close the constructor's patterns");
    m.complete(p, K::PatternList);
}

} // verus!
