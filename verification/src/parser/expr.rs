//! Expressions: a Pratt loop over the binary operators, prefix unary,
//! postfix call, and the primary forms (`if`, `match`, blocks, literals
//! with units, names, parentheses).
use super::event::no_error_events;
use super::{
    code_kind_after, error_is, grammar, lemma_code_kind_after, lemma_second_ahead, one_more, pattern, CompletedMarker, Event,
    Parser,
};
use crate::lexer::Token;
use crate::units::spec_unit_symbol;
use crate::diagnostics::{SyntaxError, SyntaxErrorCode};
use crate::kind::SyntaxKind;
use crate::kind::SyntaxKind as K;
use crate::span::Span;
use vstd::prelude::*;

verus! {

/// Binding powers (left, right) and the operator's class: 1 for a
/// comparison (comparisons do not chain), 2 for a range (ranges do not
/// chain), 0 otherwise.  `??` associates to the right.
pub open spec fn spec_infix(kind: SyntaxKind) -> Option<(u8, u8, u8)> {
    match kind {
        K::OrOr => Some((1u8, 2u8, 0u8)),
        K::AndAnd => Some((3u8, 4u8, 0u8)),
        K::EqEq | K::Ne => Some((5u8, 6u8, 1u8)),
        K::Lt | K::Le | K::Gt | K::Ge | K::KwIn => Some((7u8, 8u8, 1u8)),
        K::DotDot => Some((9u8, 10u8, 2u8)),
        K::QuestionQuestion => Some((12u8, 11u8, 0u8)),
        K::Plus | K::Minus => Some((13u8, 14u8, 0u8)),
        K::Star | K::Slash => Some((15u8, 16u8, 0u8)),
        _ => None,
    }
}

pub(crate) fn infix(kind: SyntaxKind) -> (r: Option<(u8, u8, u8)>)
    ensures
        r == spec_infix(kind),
{
    match kind {
        K::OrOr => Some((1, 2, 0)),
        K::AndAnd => Some((3, 4, 0)),
        K::EqEq | K::Ne => Some((5, 6, 1)),
        K::Lt | K::Le | K::Gt | K::Ge | K::KwIn => Some((7, 8, 1)),
        K::DotDot => Some((9, 10, 2)),
        K::QuestionQuestion => Some((12, 11, 0)),
        K::Plus | K::Minus => Some((13, 14, 0)),
        K::Star | K::Slash => Some((15, 16, 0)),
        _ => None,
    }
}

/// The binding power a binder's collection is parsed at: above membership
/// and ranges, which need parentheses there.
const COLLECTION_BP: u8 = 11;

const UNARY_BP: u8 = 17;

/// The tokens an expression can start with.
pub open spec fn spec_can_start_expr(kind: SyntaxKind) -> bool {
    matches!(
        kind,
        K::Ident | K::Number | K::KwTrue | K::KwFalse | K::LParen | K::LBrace | K::KwIf | K::KwMatch | K::Bang | K::Minus
            | K::KwContext | K::KwRequire | K::LBracket | K::Question
    )
}

pub(crate) fn can_start(kind: SyntaxKind) -> (r: bool)
    ensures
        r == spec_can_start_expr(kind),
{
    matches!(
        kind,
        K::Ident | K::Number | K::KwTrue | K::KwFalse | K::LParen | K::LBrace | K::KwIf | K::KwMatch | K::Bang | K::Minus
            | K::LBracket | K::Question
    ) || kind.is_future_reserved()
}

/// Parse an expression; `None` when nothing expression-like starts here
/// (no error is reported: the caller says what it expected).
pub(crate) fn expr(p: &mut Parser) -> (r: Option<CompletedMarker>)
    requires
        old(p).wf(),
    ensures
        final(p).grows_from(*old(p)),
        spec_can_start_expr(old(p).cur()) ==> r is Some,
        r matches Some(cm) ==> cm.valid(*final(p)) && final(p).pos > old(p).pos,
        old(p).cur() == K::Ident && old(p).second() == K::Eof && no_error_events(old(p).events@) ==> r is Some && final(p).cur() == K::Eof && no_error_events(final(p).events@),
    decreases old(p).remaining(), 6int,
{
    match expr_bp(p, 0) {
        Some((cm, _)) => Some(cm),
        None => None,
    }
}

/// Message for a missing expression, specialised by what is there instead.
pub(crate) fn no_expression_message(p: &Parser) -> (r: String)
    requires
        p.wf(),
    ensures
        r@ == match p.cur() {
            K::RParen => "this `)` closes nothing"@,
            K::RBrace => "this `}` closes nothing"@,
            K::Eof => "the source ends where a value was expected"@,
            _ => "expected a value here"@,
        },
{
    match p.current() {
        K::RParen => String::from_str("this `)` closes nothing"),
        K::RBrace => String::from_str("this `}` closes nothing"),
        K::Eof => String::from_str("the source ends where a value was expected"),
        _ => String::from_str("expected a value here"),
    }
}

/// The hint given when a name stands where an operator was expected.
pub open spec fn unit_hint(w: Seq<char>) -> Seq<char> {
    "If `"@ + w + "` is meant as a unit: a unit can only follow a number, as in `90 "@ + w
        + "`. Write the quantity as a multiplication, e.g. `x * (1 "@ + w + ")`."@
}

/// After a complete expression, something that cannot continue it.  Adds
/// the unit hint when the offender is a name (`x deg`, `f(x) mm`).
pub(crate) fn unexpected_after_expr(p: &mut Parser, expected: &str)
    requires
        old(p).wf(),
    ensures
        final(p).grows_from(*old(p)),
        final(p).pos == old(p).pos,
        one_more(old(p).events@, final(p).events@),
        final(p).events@.last() matches Event::Error(e) && error_is(
            e,
            SyntaxErrorCode::Unexpected,
            old(p).cur_span(),
            "expected an operator or "@ + expected@,
            Seq::empty(),
            old(p).found_text(),
        ) && (if old(p).cur() == K::Ident {
            e.hint matches Some(h) && h@ == unit_hint(old(p).cur_text())
        } else {
            e.hint is None
        }),
{
    let message = String::from_str("expected an operator or ").concat(expected);
    if p.at(K::Ident) {
        let word = p.current_text();
        p.error(SyntaxErrorCode::Unexpected, message);
        let hint = String::from_str("If `").concat(word.as_str()).concat(
            "` is meant as a unit: a unit can only follow a number, as in `90 ",
        ).concat(word.as_str()).concat(
            "`. Write the quantity as a multiplication, e.g. `x * (1 ",
        ).concat(word.as_str()).concat(")`.");
        p.hint(hint);
        assert(p.events@.drop_last() =~= old(p).events@);
    } else {
        p.error(SyntaxErrorCode::Unexpected, message);
    }
}

/// Returns the completed node and, when it is an unparenthesised
/// comparison or range, the span and class of its operator (for the
/// chaining diagnostic).
fn expr_bp(p: &mut Parser, min_bp: u8) -> (r: Option<(CompletedMarker, Option<(Span, u8)>)>)
    requires
        old(p).wf(),
    ensures
        final(p).grows_from(*old(p)),
        spec_can_start_expr(old(p).cur()) ==> r is Some,
        r matches Some((cm, _)) ==> cm.valid(*final(p)) && final(p).pos > old(p).pos,
        r matches Some((_, Some(c))) ==> c.0.end <= final(p).src_len,
        old(p).cur() == K::Ident && old(p).second() == K::Eof && no_error_events(old(p).events@) ==> r is Some && final(p).cur() == K::Eof && no_error_events(final(p).events@),
    decreases old(p).remaining(), 5int,
{
    let mut lhs = match unary(p) {
        Some(cm) => cm,
        None => {
            return None;
        },
    };
    let mut lhs_cmp: Option<(Span, u8)> = None;
    loop
        invariant
            p.grows_from(*old(p)),
            p.pos > old(p).pos,
            lhs.valid(*p),
            lhs_cmp matches Some(c) ==> c.0.end <= p.src_len,
            old(p).cur() == K::Ident && old(p).second() == K::Eof && no_error_events(old(p).events@) ==> p.cur() == K::Eof && no_error_events(p.events@),
        decreases p.remaining(),
    {
        if p.at(K::Error) {
            // Already reported by the lexer; keep going as if it were absent.
            p.bump_as_error();
            continue;
        }
        let (lbp, rbp, class) = match infix(p.current()) {
            Some(t) => t,
            None => {
                break;
            },
        };
        if lbp < min_bp {
            break;
        }
        let op_span = p.current_span();
        if class != 0 {
            match lhs_cmp {
                Some((_, c)) => {
                    if c == class {
                        chained_comparison(p, op_span);
                    }
                },
                None => {},
            }
        }
        let m = lhs.precede(p);
        let op = p.current();
        p.bump();
        let node = if class == 2 {
            K::RangeExpr
        } else {
            K::BinaryExpr
        };
        match expr_bp(p, rbp) {
            None => {
                let message = String::from_str("expected an expression after `").concat(
                    match op.fixed_text() {
                        Some(t) => t,
                        None => "",
                    },
                ).concat("`");
                p.error_expecting(message.as_str(), &[]);
                lhs = m.complete(p, node);
                break;
            },
            Some((_, rhs_cmp)) => {
                if class != 0 {
                    match rhs_cmp {
                        Some((inner, c)) => {
                            if c == class {
                                chained_comparison(p, inner);
                            }
                        },
                        None => {},
                    }
                }
                lhs = m.complete(p, node);
                lhs_cmp = if class != 0 {
                    Some((op_span, class))
                } else {
                    None
                };
            },
        }
    }
    Some((lhs, lhs_cmp))
}

fn chained_comparison(p: &mut Parser, at: Span)
    requires
        old(p).wf(),
        at.end <= old(p).src_len,
    ensures
        final(p).grows_from(*old(p)),
        final(p).pos == old(p).pos,
        one_more(old(p).events@, final(p).events@),
        final(p).events@.last() matches Event::Error(e) && error_is(
            e,
            SyntaxErrorCode::ChainedComparison,
            at,
            "comparisons cannot be chained"@,
            Seq::empty(),
            "a second comparison"@,
        ) && (e.hint matches Some(h) && h@
            == "Compare in two steps joined with `&&`, as in `a < b && b < c`; use parentheses if the result of a comparison really is what you compare."@),
{
    let e = SyntaxError::new(
        SyntaxErrorCode::ChainedComparison,
        at,
        String::from_str("comparisons cannot be chained"),
        String::from_str("a second comparison"),
    ).with_hint(
        String::from_str(
            "Compare in two steps joined with `&&`, as in `a < b && b < c`; use parentheses if the result of a comparison really is what you compare.",
        ),
    );
    assert(e.expected@.map_values(|x: String| x@) =~= Seq::<Seq<char>>::empty());
    p.push_error(e);
    assert(p.events@.drop_last() =~= old(p).events@);
}

/// `UnaryExpr ::= ("!" | "-") UnaryExpr | PostfixExpr`
fn unary(p: &mut Parser) -> (r: Option<CompletedMarker>)
    requires
        old(p).wf(),
    ensures
        final(p).grows_from(*old(p)),
        spec_can_start_expr(old(p).cur()) ==> r is Some,
        r matches Some(cm) ==> cm.valid(*final(p)) && final(p).pos > old(p).pos,
        old(p).cur() == K::Ident && old(p).second() == K::Eof && no_error_events(old(p).events@) ==> r is Some && final(p).cur() == K::Eof && no_error_events(final(p).events@),
    decreases old(p).remaining(), 4int,
{
    if p.at(K::Bang) || p.at(K::Minus) {
        let m = p.start();
        let op = p.current();
        p.bump();
        if expr_bp(p, UNARY_BP).is_none() {
            let message = String::from_str("expected a value after `").concat(
                match op.fixed_text() {
                    Some(t) => t,
                    None => "",
                },
            ).concat("`");
            p.error_expecting(message.as_str(), &[]);
        }
        return Some(m.complete(p, K::UnaryExpr));
    }
    postfix(p)
}

/// `PostfixExpr ::= PrimaryExpr CallSuffix*`
fn postfix(p: &mut Parser) -> (r: Option<CompletedMarker>)
    requires
        old(p).wf(),
    ensures
        final(p).grows_from(*old(p)),
        spec_can_start_expr(old(p).cur()) && old(p).cur() != K::Bang && old(p).cur() != K::Minus
            ==> r is Some,
        r matches Some(cm) ==> cm.valid(*final(p)) && final(p).pos > old(p).pos,
        old(p).cur() == K::Ident && old(p).second() == K::Eof && no_error_events(old(p).events@) ==> r is Some && final(p).cur() == K::Eof && no_error_events(final(p).events@),
    decreases old(p).remaining(), 3int,
{
    let mut lhs = match primary(p) {
        Some(cm) => cm,
        None => {
            return None;
        },
    };
    while p.at(K::LParen)
        invariant
            p.grows_from(*old(p)),
            p.pos > old(p).pos,
            lhs.valid(*p),
            old(p).cur() == K::Ident && old(p).second() == K::Eof && no_error_events(old(p).events@) ==> p.cur() == K::Eof && no_error_events(p.events@),
        decreases p.remaining(),
    {
        let m = lhs.precede(p);
        arg_list(p);
        lhs = m.complete(p, K::CallExpr);
    }
    Some(lhs)
}

/// `ArgList ::= "(" (Expr ("," Expr)* ","?)? ")"`
fn arg_list(p: &mut Parser)
    requires
        old(p).wf(),
        old(p).cur() == K::LParen,
    ensures
        final(p).grows_from(*old(p)),
        final(p).pos > old(p).pos,
    decreases old(p).remaining(), 1int,
{
    let m = p.start();
    p.bump();  // (
    loop
        invariant
            p.grows_from(*old(p)),
            p.pos > old(p).pos,
            m.valid(*p),
        decreases p.remaining(),
    {
        if p.at(K::RParen) || p.at_eof() {
            break;
        }
        if expr(p).is_none() {
            if p.at(K::Comma) {
                p.error_and_bump(SyntaxErrorCode::Expected, "expected an argument before `,`");
                continue;
            }
            if p.at(K::Error) {
                p.bump_as_error();
                continue;
            }
            p.error_expecting("expected `)` to close this call", &[K::RParen, K::Comma]);
            m.complete(p, K::ArgList);
            return;
        }
        if p.at(K::RParen) {
            break;
        }
        if !p.eat(K::Comma) {
            if can_start(p.current()) {
                unexpected_after_expr(p, "`,` between arguments");
                continue;
            }
            p.error_expecting("expected `)` to close this call", &[K::RParen, K::Comma]);
            m.complete(p, K::ArgList);
            return;
        }
    }
    p.expect(K::RParen, "expected `)` to close this call");
    m.complete(p, K::ArgList);
}

/// `PrimaryExpr ::= NameExpr | LiteralExpr | ParenExpr | IfExpr | MatchExpr | BlockExpr`
fn primary(p: &mut Parser) -> (r: Option<CompletedMarker>)
    requires
        old(p).wf(),
    ensures
        final(p).grows_from(*old(p)),
        spec_can_start_expr(old(p).cur()) && old(p).cur() != K::Bang && old(p).cur() != K::Minus
            ==> r is Some,
        r matches Some(cm) ==> cm.valid(*final(p)) && final(p).pos > old(p).pos,
        old(p).cur() == K::Ident && old(p).second() == K::Eof && no_error_events(old(p).events@) ==> r is Some && final(p).cur() == K::Eof && no_error_events(final(p).events@),
    decreases old(p).remaining(), 2int,
{
    loop
        invariant
            p.grows_from(*old(p)),
            old(p).cur() == K::Ident ==> p.pos == old(p).pos && p.events@ == old(p).events@,
            p.pos == old(p).pos || !(spec_can_start_expr(old(p).cur()) && old(p).cur() != K::Bang
                && old(p).cur() != K::Minus),
        decreases p.remaining(),
    {
        let k = p.current();
        if k == K::Error {
            // Reported by the lexer; skip it and try again.
            p.bump_as_error();
            continue;
        }
        if k == K::Ident {
            proof {
                lemma_second_ahead(p.tokens@, p.pos as int);
            }
            if p.peek(1) == K::FatArrow {
                return Some(lambda_expr(p));
            }
            if p.peek(1) == K::Ident && p.peek(2) == K::KwIn && at_binder_word(p) {
                return Some(binder_expr(p));
            }
            let m = p.start();
            grammar::name_ref(p);
            return Some(m.complete(p, K::NameExpr));
        }
        if k.is_future_reserved() {
            grammar::reserved_word(p);
            let m = p.start();
            grammar::name_ref(p);
            return Some(m.complete(p, K::NameExpr));
        }
        if k == K::Number {
            let m = p.start();
            p.bump();
            if p.at(K::Ident) && !(p.nth(1) == K::FatArrow || p.nth(1) == K::LParen) {
                // `90 deg`: any name right after a number starts its unit;
                // whether it *is* a unit is decided by elaboration.  A name
                // followed by `=>` or `(` cannot be a unit, so a missing
                // comma between match arms does not swallow the next
                // pattern.
                unit_suffix(p);
            }
            return Some(m.complete(p, K::LiteralExpr));
        }
        if k == K::KwTrue || k == K::KwFalse {
            let m = p.start();
            p.bump();
            return Some(m.complete(p, K::LiteralExpr));
        }
        if k == K::LParen {
            if at_rule_head(p) {
                return Some(lambda_expr(p));
            }
            return Some(paren_expr(p));
        }
        if k == K::LBracket {
            return Some(list_expr(p));
        }
        if k == K::Question {
            let m = p.start();
            p.bump();
            return Some(m.complete(p, K::SlotExpr));
        }
        if k == K::KwIf {
            return Some(if_expr(p));
        }
        if k == K::KwMatch {
            return Some(match_expr(p));
        }
        if k == K::LBrace {
            return Some(block_expr(p));
        }
        return None;
    }
}

/// `ParenExpr ::= "(" Expr ")"`, `TupleExpr ::= "(" Expr ("," Expr)+ ","? ")"`,
/// `UnitExpr ::= "(" ")"`
fn paren_expr(p: &mut Parser) -> (r: CompletedMarker)
    requires
        old(p).wf(),
        old(p).cur() == K::LParen,
    ensures
        final(p).grows_from(*old(p)),
        r.valid(*final(p)),
        final(p).pos > old(p).pos,
    decreases old(p).remaining(), 1int,
{
    let m = p.start();
    p.bump();  // (
    if p.at(K::RParen) {
        p.bump();
        return m.complete(p, K::UnitExpr);
    }
    if expr(p).is_none() {
        let msg = no_expression_message(p);
        p.error(SyntaxErrorCode::Expected, msg);
    }
    if p.at(K::Comma) {
        // `(a, b)`: a grouped value.
        while p.at(K::Comma)
            invariant
                p.grows_from(*old(p)),
                p.pos > old(p).pos,
                m.valid(*p),
            decreases p.remaining(),
        {
            p.bump();  // ,
            if p.at(K::RParen) {
                break;
            }
            if expr(p).is_none() {
                p.error_expecting("expected a value after `,`", &[]);
                break;
            }
        }
        p.expect(K::RParen, "expected `)` to close the grouped value");
        return m.complete(p, K::TupleExpr);
    }
    p.expect(K::RParen, "expected `)` to close the parenthesis");
    m.complete(p, K::ParenExpr)
}

/// `ListExpr ::= "[" (Expr ("," Expr)* ","?)? "]"`
fn list_expr(p: &mut Parser) -> (r: CompletedMarker)
    requires
        old(p).wf(),
        old(p).cur() == K::LBracket,
    ensures
        final(p).grows_from(*old(p)),
        r.valid(*final(p)),
        final(p).pos > old(p).pos,
    decreases old(p).remaining(), 1int,
{
    let m = p.start();
    p.bump();  // [
    loop
        invariant
            p.grows_from(*old(p)),
            p.pos > old(p).pos,
            m.valid(*p),
        decreases p.remaining(),
    {
        if p.at(K::RBracket) || p.at_eof() {
            break;
        }
        if expr(p).is_none() {
            if p.at(K::Comma) {
                p.error_and_bump(SyntaxErrorCode::Expected, "expected an item before `,`");
                continue;
            }
            if p.at(K::Error) {
                p.bump_as_error();
                continue;
            }
            p.error_expecting("expected `]` to close the list", &[K::RBracket, K::Comma]);
            return m.complete(p, K::ListExpr);
        }
        if p.at(K::RBracket) {
            break;
        }
        if !p.eat(K::Comma) {
            p.error_expecting("expected `]` to close the list", &[K::RBracket, K::Comma]);
            return m.complete(p, K::ListExpr);
        }
    }
    p.expect(K::RBracket, "expected `]` to close the list");
    m.complete(p, K::ListExpr)
}

/// Whether the `*` here continues the unit before it: the name after it
/// is a unit symbol (or a misplaced `per`) and is not called.
fn at_unit_star(p: &Parser) -> (r: bool)
    requires
        p.wf(),
    ensures
        r ==> p.cur() == K::Star && p.second() == K::Ident,
        r == (p.cur() == K::Star && p.second() == K::Ident && p.kind_ahead(2) != K::LParen && (
        spec_unit_symbol(p.second_text_view()) || p.second_text_view() == "per"@)),
{
    if !p.at(K::Star) || p.nth(1) != K::Ident || p.peek(2) == K::LParen {
        return false;
    }
    let w = p.second_text();
    crate::units::is_unit_symbol(w.as_str()) || crate::text::str_eq(w.as_str(), "per")
}

/// `UnitFactor ::= Name ("^" "-"? Number)?`; the exponent is a whole
/// number that fits in an `i64`.
fn unit_factor(p: &mut Parser)
    requires
        old(p).wf(),
        old(p).cur() == K::Ident,
    ensures
        final(p).grows_from(*old(p)),
        final(p).pos > old(p).pos,
{
    p.bump();
    if p.at(K::Caret) {
        p.bump();
        p.eat(K::Minus);
        let whole = p.at(K::Number) && crate::units::exponent_value(
            p.current_text().as_str(),
        ).is_some();
        if !whole {
            p.error(
                SyntaxErrorCode::MalformedUnit,
                String::from_str("expected a whole-number exponent after `^`"),
            );
        }
        if p.at(K::Number) {
            p.bump();
        }
    }
}

/// Factors joined by `*`, the name after each `*` a unit symbol.
fn unit_product(p: &mut Parser)
    requires
        old(p).wf(),
        old(p).cur() == K::Ident,
    ensures
        final(p).grows_from(*old(p)),
        final(p).pos > old(p).pos,
{
    unit_factor(p);
    while at_unit_star(p)
        invariant
            p.grows_from(*old(p)),
            p.pos > old(p).pos,
        decreases p.remaining(),
    {
        p.bump();  // *
        if p.at_word("per") {
            p.error(
                SyntaxErrorCode::MalformedUnit,
                String::from_str("expected a unit after `*`"),
            );
            break;
        }
        unit_factor(p);
    }
}

/// `UnitSuffix ::= UnitProduct ("per" UnitProduct)?`: everything after
/// `per` is unit syntax; `/` stays value division.
fn unit_suffix(p: &mut Parser)
    requires
        old(p).wf(),
        old(p).cur() == K::Ident,
    ensures
        final(p).grows_from(*old(p)),
        final(p).pos > old(p).pos,
{
    let u = p.start();
    let mut per_seen = false;
    if p.at_word("per") {
        p.error(
            SyntaxErrorCode::MalformedUnit,
            String::from_str("a unit cannot start with `per`"),
        );
        p.bump();
        per_seen = true;
        if p.at(K::Ident) && !p.at_word("per") {
            unit_product(p);
        }
    } else {
        unit_product(p);
    }
    while p.at_word("per")
        invariant
            p.grows_from(*old(p)),
            p.pos > old(p).pos,
            u.valid(*p),
        decreases p.remaining(),
    {
        if per_seen {
            p.error(
                SyntaxErrorCode::MalformedUnit,
                String::from_str("a unit takes only one `per`"),
            );
        }
        per_seen = true;
        p.bump();  // per
        if p.at(K::Ident) && !p.at_word("per") {
            unit_product(p);
        } else if !p.at_word("per") {
            p.error(
                SyntaxErrorCode::MalformedUnit,
                String::from_str("expected a unit after `per`"),
            );
        }
    }
    u.complete(p, K::UnitSuffix);
}

/// Whether the current name is one of the binder words.
fn at_binder_word(p: &Parser) -> (r: bool)
    requires
        p.wf(),
    ensures
        r == (p.cur_text() == "all"@ || p.cur_text() == "any"@ || p.cur_text() == "map"@
            || p.cur_text() == "filter"@),
{
    let w = p.current_text();
    crate::text::str_eq(w.as_str(), "all") || crate::text::str_eq(w.as_str(), "any")
        || crate::text::str_eq(w.as_str(), "map") || crate::text::str_eq(w.as_str(), "filter")
}

/// Whether a rule's parenthesised parameters start here: `(x, y) =>`.
fn at_rule_head(p: &Parser) -> (r: bool)
    requires
        p.wf(),
    ensures
        r == (p.kind_ahead(1) == K::Ident && rule_params_from(p.tokens@, p.pos as int, 2)),
{
    if p.peek(1) != K::Ident {
        return false;
    }
    let len = p.tokens.len();
    let mut n: usize = 2;
    loop
        invariant
            p.wf(),
            len == p.tokens@.len(),
            p.kind_ahead(1) == K::Ident,
            2 <= n <= p.tokens@.len() + 2,
            rule_params_from(p.tokens@, p.pos as int, 2) == rule_params_from(
                p.tokens@,
                p.pos as int,
                n as nat,
            ),
        decreases p.tokens@.len() + 2 - n,
    {
        let k = p.peek(n);
        if k == K::Comma || k == K::RParen {
            proof {
                lemma_code_kind_after(p.tokens@, p.pos as int, n as nat);
            }
            let k2 = p.peek(n + 1);
            if k == K::Comma && k2 == K::Ident {
                proof {
                    lemma_code_kind_after(p.tokens@, p.pos as int, (n + 1) as nat);
                }
                n = n + 2;
            } else {
                assert(k2 == code_kind_after(p.tokens@, p.pos as int, n as nat + 1));
                return k == K::RParen && k2 == K::FatArrow;
            }
        } else {
            return false;
        }
    }
}

/// After a `(` at `pos`, the names seen so far end `n` code tokens ahead:
/// more `, name` pairs may follow, then `)` and `=>`.
pub open spec fn rule_params_from(ts: Seq<Token>, pos: int, n: nat) -> bool
    decreases ts.len() - n,
{
    if pos >= 0 && code_kind_after(ts, pos, n) == K::Comma && code_kind_after(ts, pos, n + 1)
        == K::Ident {
        proof {
            lemma_code_kind_after(ts, pos, n + 1);
        }
        rule_params_from(ts, pos, n + 2)
    } else {
        code_kind_after(ts, pos, n) == K::RParen && code_kind_after(ts, pos, n + 1) == K::FatArrow
    }
}

/// `LambdaExpr ::= LambdaParams "=>" Expr`,
/// `LambdaParams ::= Name | "(" Name ("," Name)* ")"`
fn lambda_expr(p: &mut Parser) -> (r: CompletedMarker)
    requires
        old(p).wf(),
        old(p).cur() == K::Ident || old(p).cur() == K::LParen,
    ensures
        final(p).grows_from(*old(p)),
        r.valid(*final(p)),
        final(p).pos > old(p).pos,
    decreases old(p).remaining(), 1int,
{
    let m = p.start();
    let params = p.start();
    if p.at(K::LParen) {
        p.bump();  // (
        loop
            invariant
                p.grows_from(*old(p)),
                p.pos > old(p).pos,
                m.valid(*p),
                params.valid(*p),
            decreases p.remaining(),
        {
            if !grammar::name(p, "expected the rule's parameter") {
                break;
            }
            if !p.eat(K::Comma) {
                break;
            }
        }
        p.expect(K::RParen, "expected `)` after the rule's parameters");
    } else {
        grammar::name(p, "expected the rule's parameter");
    }
    params.complete(p, K::LambdaParams);
    p.expect(K::FatArrow, "expected `=>` after the rule's parameters");
    if expr(p).is_none() {
        p.error_expecting("expected the rule's body after `=>`", &[]);
    }
    m.complete(p, K::LambdaExpr)
}

/// `BinderExpr ::= ("all" | "any" | "map" | "filter") Name "in" Expr ":" Expr`
/// (the words are contextual: a name anywhere else).
fn binder_expr(p: &mut Parser) -> (r: CompletedMarker)
    requires
        old(p).wf(),
        old(p).cur() == K::Ident,
    ensures
        final(p).grows_from(*old(p)),
        r.valid(*final(p)),
        final(p).pos > old(p).pos,
    decreases old(p).remaining(), 1int,
{
    let m = p.start();
    p.bump();  // the word
    grammar::name(p, "expected the parameter's name after the binder word");
    p.expect(K::KwIn, "expected `in` after the parameter");
    if expr_bp(p, COLLECTION_BP).is_none() {
        p.error_expecting("expected the collection after `in`", &[]);
    }
    if !p.eat(K::Colon) {
        p.error_expecting("expected `:` before the body", &[K::Colon]);
    }
    if expr(p).is_none() {
        p.error_expecting("expected the body after `:`", &[]);
    }
    m.complete(p, K::BinderExpr)
}

/// `IfExpr ::= "if" Expr "then" Expr "else" Expr`
fn if_expr(p: &mut Parser) -> (r: CompletedMarker)
    requires
        old(p).wf(),
        old(p).cur() == K::KwIf,
    ensures
        final(p).grows_from(*old(p)),
        r.valid(*final(p)),
        final(p).pos > old(p).pos,
    decreases old(p).remaining(), 1int,
{
    let m = p.start();
    p.bump();  // if
    if expr(p).is_none() {
        p.error_expecting("expected a condition after `if`", &[]);
    }
    p.expect(K::KwThen, "expected `then` after the condition");
    if expr(p).is_none() {
        p.error_expecting("expected an expression after `then`", &[]);
    }
    if p.expect(K::KwElse, "expected `else`: an `if` must say what happens otherwise") {
        if expr(p).is_none() {
            p.error_expecting("expected an expression after `else`", &[]);
        }
    } else {
        p.hint(
            String::from_str(
                "Every `if` is a value, so both outcomes must be written: `if c then a else b`.",
            ),
        );
    }
    m.complete(p, K::IfExpr)
}

/// The keywords that end a formula body when its closer is missing.
pub open spec fn spec_expr_item_start(k: SyntaxKind) -> bool {
    k == K::KwConcept || k == K::KwMapping || k == K::KwEnum
}

fn at_item_start(p: &Parser) -> (r: bool)
    requires
        p.wf(),
    ensures
        r == spec_expr_item_start(p.cur()),
{
    p.at(K::KwConcept) || p.at(K::KwMapping) || p.at(K::KwEnum)
}

/// `MatchExpr ::= "match" Expr "{" MatchArm* "}"`
fn match_expr(p: &mut Parser) -> (r: CompletedMarker)
    requires
        old(p).wf(),
        old(p).cur() == K::KwMatch,
    ensures
        final(p).grows_from(*old(p)),
        r.valid(*final(p)),
        final(p).pos > old(p).pos,
    decreases old(p).remaining(), 1int,
{
    let m = p.start();
    p.bump();  // match
    if expr(p).is_none() {
        p.error_expecting("expected the value to match after `match`", &[]);
    }
    if !p.at(K::LBrace) {
        p.error_expecting("expected `{` and the match arms", &[K::LBrace]);
        return m.complete(p, K::MatchExpr);
    }
    let arms = p.start();
    p.bump();  // {
    loop
        invariant
            p.grows_from(*old(p)),
            p.pos > old(p).pos,
            m.valid(*p),
            arms.valid(*p),
        decreases p.remaining(),
    {
        if p.at(K::RBrace) || p.at_eof() {
            break;
        }
        if at_item_start(p) {
            p.error_expecting("expected `}` to close the match", &[K::RBrace]);
            arms.complete(p, K::MatchArmList);
            return m.complete(p, K::MatchExpr);
        }
        if p.at(K::FatArrow) {
            p.error_expecting("expected a pattern before `=>`", &[]);
            p.hint(
                String::from_str(
                    "A match arm is `pattern => expression,`; use `_` to match anything.",
                ),
            );
            match_arm(p);
            continue;
        }
        if !pattern::can_start(p.current()) {
            p.error_recover(
                SyntaxErrorCode::Expected,
                "expected a pattern to start a match arm",
                &[K::RBrace, K::Comma],
            );
            if p.at(K::Comma) {
                p.bump_as_error();
            }
            continue;
        }
        match_arm(p);
    }
    p.expect(K::RBrace, "expected `}` to close the match");
    arms.complete(p, K::MatchArmList);
    m.complete(p, K::MatchExpr)
}

/// `MatchArm ::= Pattern "=>" Expr ","?`
fn match_arm(p: &mut Parser)
    requires
        old(p).wf(),
    ensures
        final(p).grows_from(*old(p)),
        old(p).cur() == K::FatArrow || pattern::spec_can_start_pattern(old(p).cur()) ==> final(p).pos
            > old(p).pos,
    decreases old(p).remaining(), 7int,
{
    let m = p.start();
    pattern::pattern(p);
    if !p.eat(K::FatArrow) {
        p.error_expecting("expected `=>` after the pattern", &[K::FatArrow]);
    }
    if expr(p).is_none() {
        p.error_expecting("expected an expression after `=>`", &[]);
    }
    if !p.eat(K::Comma) && !p.at(K::RBrace) && !p.at_eof() && !at_item_start(p) {
        if pattern::can_start(p.current()) {
            unexpected_after_expr(p, "`,` after this match arm");
        } else {
            unexpected_after_expr(p, "`,` or `}` after this match arm");
            p.skip_until(&[K::Comma, K::RBrace, K::KwConcept, K::KwMapping, K::KwEnum]);
            p.eat(K::Comma);
        }
    }
    m.complete(p, K::MatchArm);
}

/// `BlockExpr ::= "{" LetStmt* Expr? "}"`
fn block_expr(p: &mut Parser) -> (r: CompletedMarker)
    requires
        old(p).wf(),
        old(p).cur() == K::LBrace,
    ensures
        final(p).grows_from(*old(p)),
        r.valid(*final(p)),
        final(p).pos > old(p).pos,
    decreases old(p).remaining(), 1int,
{
    let m = p.start();
    p.bump();  // {
    let mut has_tail = false;
    loop
        invariant
            p.grows_from(*old(p)),
            p.pos > old(p).pos,
            m.valid(*p),
        decreases p.remaining(),
    {
        if p.at(K::RBrace) || p.at_eof() {
            break;
        }
        if at_item_start(p) {
            p.error_expecting("expected `}` to close this block", &[K::RBrace]);
            return m.complete(p, K::BlockExpr);
        }
        if p.at(K::KwLet) {
            if has_tail {
                p.error(
                    SyntaxErrorCode::Unexpected,
                    String::from_str("a `let` cannot follow the block's final expression"),
                );
                p.hint(
                    String::from_str(
                        "Move the `let` above, or end the previous expression with `;` if it was meant as a `let`.",
                    ),
                );
            }
            let_stmt(p);
            continue;
        }
        if p.at(K::Semi) {
            p.error_and_bump(
                SyntaxErrorCode::Unexpected,
                "only a `let` ends with `;`; the block's final expression has none",
            );
            continue;
        }
        if has_tail {
            unexpected_after_expr(p, "`}` to close this block");
        }
        if expr(p).is_some() {
            has_tail = true;
        } else if p.at(K::Error) {
            p.bump_as_error();
        } else {
            p.error_and_bump(
                SyntaxErrorCode::Expected,
                "expected `let` or an expression in this block",
            );
        }
    }
    if !has_tail {
        p.error_expecting("this block has no final expression to be its value", &[]);
        p.hint(
            String::from_str(
                "A block ends with the expression it stands for, after any `let`s: `{ let x = …; x + 1 }`.",
            ),
        );
    }
    p.expect(K::RBrace, "expected `}` to close this block");
    m.complete(p, K::BlockExpr)
}

/// `LetStmt ::= "let" Pattern "=" Expr ";"`
fn let_stmt(p: &mut Parser)
    requires
        old(p).wf(),
        old(p).cur() == K::KwLet,
    ensures
        final(p).grows_from(*old(p)),
        final(p).pos > old(p).pos,
    decreases old(p).remaining(), 1int,
{
    let m = p.start();
    p.bump();  // let
    if !pattern::pattern(p) {
        p.error_expecting("expected a name after `let`", &[K::Ident]);
    }
    if !p.eat(K::Eq) {
        p.error_expecting("expected `=` after the name in this `let`", &[K::Eq]);
    }
    if expr(p).is_none() {
        p.error_expecting("expected an expression after `=`", &[]);
    }
    p.expect(K::Semi, "expected `;` to end this `let`");
    m.complete(p, K::LetStmt);
}


/// The documented order of the binary operators, loosest first: `||`,
/// `&&`, equality, ordering and membership, ranges, `??`, sums, products.
pub open spec fn precedence_level(k: SyntaxKind) -> int {
    match k {
        K::OrOr => 1,
        K::AndAnd => 2,
        K::EqEq | K::Ne => 3,
        K::Lt | K::Le | K::Gt | K::Ge | K::KwIn => 4,
        K::DotDot => 5,
        K::QuestionQuestion => 6,
        K::Plus | K::Minus => 7,
        K::Star | K::Slash => 8,
        _ => 0,
    }
}

/// With `b` written after `a` (`x a y b z`), `b` takes `y` first
/// (`x a (y b z)`); and with `a` after `b`, `b` still takes `y` first
/// (`(x b y) a z`).
pub open spec fn binds_tighter(b: SyntaxKind, a: SyntaxKind) -> bool {
    spec_infix(a) matches Some(pa) && spec_infix(b) matches Some(pb) && pb.0 >= pa.1 && pa.0 < pb.1
}

/// The binary operators are exactly those with a level; an operator of a
/// higher level binds tighter than one of a lower level; every operator
/// but `??` groups to the left (`1 - 2 - 3` is `(1 - 2) - 3`), and `??`
/// groups to the right (`a ?? b ?? c` is `a ?? (b ?? c)`).
pub proof fn lemma_operator_precedence(a: SyntaxKind, b: SyntaxKind)
    ensures
        spec_infix(a) is Some <==> precedence_level(a) > 0,
        precedence_level(b) > precedence_level(a) > 0 ==> binds_tighter(b, a),
        a != K::QuestionQuestion ==> (spec_infix(a) matches Some(p) ==> p.0 < p.1),
        a == K::QuestionQuestion ==> (spec_infix(a) matches Some(p) && p.0 >= p.1),
{
}

} // verus!
