//! Types.
//!
//! ```text
//! Type      ::= TypeAtom ("->" Type)?          -- right-associative
//! TypeAtom  ::= NamedType | ParenType | UnitType | TupleType
//! UnitType  ::= "(" ")"
//! TupleType ::= "(" Type ("," Type)+ ","? ")"
//! NamedType ::= NameRef TypeArgList?
//! ```
use super::grammar;
use super::{CompletedMarker, Parser};
use crate::diagnostics::SyntaxErrorCode;
use crate::kind::SyntaxKind;
use crate::kind::SyntaxKind as K;
use vstd::prelude::*;

verus! {

/// Whether a type can start at a token of this kind.
pub open spec fn spec_can_start_type(k: SyntaxKind) -> bool {
    k == K::Ident || k == K::LParen || k == K::KwContext || k == K::KwRequire
}

/// Parse a type; `false` (nothing consumed) when nothing type-like starts
/// here.
pub(crate) fn type_(p: &mut Parser) -> (r: bool)
    requires
        old(p).wf(),
    ensures
        final(p).grows_from(*old(p)),
        r == spec_can_start_type(old(p).cur()),
        r ==> final(p).pos > old(p).pos,
        !r ==> final(p).pos == old(p).pos,
    decreases old(p).remaining(), 1int,
{
    let lhs = match type_atom(p) {
        Some(lhs) => lhs,
        None => {
            return false;
        },
    };
    if p.at(K::Arrow) {
        let m = lhs.precede(p);
        p.bump();  // ->
        if !type_(p) {
            p.error_expecting("expected a type after `->`", &[K::Ident, K::LParen]);
        }
        m.complete(p, K::FunctionType);
    }
    true
}

fn type_atom(p: &mut Parser) -> (r: Option<CompletedMarker>)
    requires
        old(p).wf(),
    ensures
        final(p).grows_from(*old(p)),
        r is Some == spec_can_start_type(old(p).cur()),
        r matches Some(cm) ==> cm.valid(*final(p)) && final(p).pos > old(p).pos,
        r is None ==> final(p).pos == old(p).pos,
    decreases old(p).remaining(), 0int,
{
    match p.current() {
        K::Ident => {
            let m = p.start();
            grammar::name_ref(p);
            if p.at(K::Lt) {
                type_list(p, K::TypeArgList, K::Lt, K::Gt, "expected `>` to close the type arguments");
            }
            Some(m.complete(p, K::NamedType))
        },
        K::LParen => {
            let m = p.start();
            p.bump();
            if p.eat(K::RParen) {
                // `()`: the empty product.
                return Some(m.complete(p, K::UnitType));
            }
            if !type_(p) {
                p.error_expecting("expected a type inside the parentheses", &[K::Ident, K::LParen]);
            }
            if !p.at(K::Comma) {
                p.expect(K::RParen, "expected `)` to close the parenthesised type");
                return Some(m.complete(p, K::ParenType));
            }
            // `(A, B, …)`: a product.
            while p.eat(K::Comma)
                invariant
                    p.grows_from(*old(p)),
                    p.pos > old(p).pos,
                    m.valid(*p),
                decreases p.remaining(),
            {
                if p.at(K::RParen) {
                    break;
                }
                if !type_(p) {
                    p.error_expecting("expected a type after `,`", &[K::Ident, K::LParen]);
                    break;
                }
            }
            p.expect(K::RParen, "expected `)` to close the product type");
            Some(m.complete(p, K::TupleType))
        },
        K::KwContext | K::KwRequire => {
            grammar::reserved_word(p);
            let m = p.start();
            grammar::name_ref(p);
            Some(m.complete(p, K::NamedType))
        },
        _ => None,
    }
}

/// `open Type ("," Type)* ","? close` as a node of kind `list_kind`.
/// Used for `<…>` type arguments and `(…)` variant fields.
pub(crate) fn type_list(
    p: &mut Parser,
    list_kind: SyntaxKind,
    open: SyntaxKind,
    close: SyntaxKind,
    close_message: &str,
)
    requires
        old(p).wf(),
        old(p).cur() == open,
        open != K::Eof,
        close != K::Eof,
    ensures
        final(p).grows_from(*old(p)),
        final(p).pos > old(p).pos,
    decreases old(p).remaining(), 2int,
{
    let m = p.start();
    p.bump();  // open
    loop
        invariant
            p.grows_from(*old(p)),
            p.pos > old(p).pos,
            m.valid(*p),
            close != K::Eof,
        decreases p.remaining(),
    {
        if p.at(close) || p.at_eof() {
            break;
        }
        if !type_(p) {
            if p.at(K::Comma) {
                p.error_and_bump(SyntaxErrorCode::Expected, "expected a type before `,`");
                continue;
            }
            p.error_expecting(close_message, &[close, K::Comma]);
            m.complete(p, list_kind);
            return;
        }
        if p.at(close) {
            break;
        }
        if !p.eat(K::Comma) {
            // `Ident (` is the start of a mapping definition, never a type:
            // the list was left unclosed.
            if (p.at(K::Ident) && p.nth(1) != K::LParen) || p.at(K::LParen) {
                p.error_expecting("expected `,` between types", &[K::Comma]);
                continue;
            }
            p.error_expecting(close_message, &[close, K::Comma]);
            m.complete(p, list_kind);
            return;
        }
    }
    p.expect(close, close_message);
    m.complete(p, list_kind);
}

} // verus!
