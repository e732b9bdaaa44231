//! The BDL textual syntax: lexer, lossless tree, parser, typed views,
//! lowering to the surface tree, the formatter and the source migrations,
//! plus the identity bookkeeping of systems.
//!
//! [`parser::parse_module`] parses a whole file and [`parser::parse_formula`]
//! one expression; both are total, giving a lossless tree plus diagnostics.
//! [`parse`] and [`formula`] are the shortcuts the formula path uses.
pub mod span;
pub mod text;
pub mod kind;
pub mod diagnostics;
pub mod lexer;
pub mod syntax;
pub mod parser;
pub mod literal;
pub mod ast;
pub mod migrate;
pub mod format;
pub mod system;
pub mod lower;
pub mod units;

use crate::diagnostics::{SyntaxError, SyntaxErrorCode};
use crate::kind::SyntaxKind;
use crate::lower::items::{err_view, formula_outcome, incomplete_view, lower_formula, ErrView};
use crate::lower::SurfaceExpr;
use crate::parser::parse_formula;
use crate::span::Span;
use crate::syntax::{node_text, Parse};
use vstd::prelude::*;

verus! {

/// A syntax error, under the name the formula path has always used.
pub type ParseError = SyntaxError;

/// `r` is the formula outcome `all` cut to its first error; an empty error
/// list, which lowering never gives, reads as an empty formula.
pub open spec fn first_error(all: Result<SurfaceExpr, Vec<SyntaxError>>, r: Result<SurfaceExpr, ParseError>) -> bool {
    match all {
        Ok(s) => r == Ok::<SurfaceExpr, ParseError>(s),
        Err(es) => r matches Err(e) && if es@.len() > 0 {
            err_view(e) == err_view(es@[0])
        } else {
            err_view(e) == (ErrView {
                code: SyntaxErrorCode::Empty,
                span: Span { start: 0, end: 0 },
                message: "the formula is empty"@,
                expected: Seq::empty(),
                found: "nothing"@,
                hint: None,
            })
        },
    }
}

/// Parse and lower one formula, reporting every syntax error.
pub fn formula(src: &str) -> (r: Result<SurfaceExpr, Vec<SyntaxError>>)
    ensures
        exists|p: Parse|
            p.root.kind == SyntaxKind::Formula && node_text(p.root) == src@
                && crate::format::leaf_pairs(crate::format::leaves(p.root)) == crate::lexer::lexed_pairs(src@)
                && p.errors@.len() >= crate::lexer::lex_diagnostics(src@).len()
                && (crate::lexer::one_name(src@) && crate::lexer::lex_diagnostics(src@).len() == 0
                ==> p.errors@.len() == 0) && #[trigger] formula_outcome(p, r),
        crate::lexer::lex_diagnostics(src@).len() > 0 ==> r is Err,
        crate::lexer::one_name(src@) && crate::lexer::lex_diagnostics(src@).len() == 0 ==> (r is Ok || (
        r matches Err(es) && es@.len() == 1 && err_view(es@[0]) == incomplete_view(
            Span { start: 0, end: crate::lexer::span_bound(src@, src@.len() as int) },
        ))),
{
    let p = parse_formula(src);
    let r = lower_formula(&p);
    assert(formula_outcome(p, r));
    r
}

/// Parse and lower one formula, reporting the first syntax error.
pub fn parse(src: &str) -> (r: Result<SurfaceExpr, ParseError>)
    ensures
        exists|p: Parse, all: Result<SurfaceExpr, Vec<SyntaxError>>|
            p.root.kind == SyntaxKind::Formula && node_text(p.root) == src@
                && crate::format::leaf_pairs(crate::format::leaves(p.root)) == crate::lexer::lexed_pairs(src@)
                && p.errors@.len() >= crate::lexer::lex_diagnostics(src@).len()
                && (crate::lexer::one_name(src@) && crate::lexer::lex_diagnostics(src@).len() == 0
                ==> p.errors@.len() == 0) && #[trigger] formula_outcome(p, all) && first_error(all, r),
        crate::lexer::lex_diagnostics(src@).len() > 0 ==> r is Err,
        crate::lexer::one_name(src@) && crate::lexer::lex_diagnostics(src@).len() == 0 ==> (r is Ok || (
        r matches Err(e) && err_view(e) == incomplete_view(
            Span { start: 0, end: crate::lexer::span_bound(src@, src@.len() as int) },
        ))),
{
    let all = formula(src);
    let ghost whole = all;
    let ghost p = choose|p: Parse|
        p.root.kind == SyntaxKind::Formula && node_text(p.root) == src@
            && crate::format::leaf_pairs(crate::format::leaves(p.root)) == crate::lexer::lexed_pairs(src@)
            && p.errors@.len() >= crate::lexer::lex_diagnostics(src@).len()
            && (crate::lexer::one_name(src@) && crate::lexer::lex_diagnostics(src@).len() == 0
            ==> p.errors@.len() == 0) && #[trigger] formula_outcome(p, whole);
    let r = match all {
        Ok(s) => Ok(s),
        Err(mut es) => {
            if es.len() > 0 {
                Err(es.remove(0))
            } else {
                Err(
                    SyntaxError::new(
                        SyntaxErrorCode::Empty,
                        Span::new(0, 0),
                        String::from_str("the formula is empty"),
                        String::from_str("nothing"),
                    ),
                )
            }
        },
    };
    assert(formula_outcome(p, whole) && first_error(whole, r));
    r
}

} // verus!
