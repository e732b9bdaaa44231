//! Lowering: typed syntax views → the *surface tree*, a plain, id-free data
//! structure of what was written (names, spans, exact literals).  Nothing
//! semantic happens here: no name resolution, no ids, no types.
//!
//! Lowering is total on error-free trees.  It refuses trees with syntax
//! errors (the errors are returned) rather than guessing at missing parts.
//! Each lowering function is exact: it succeeds precisely when the
//! relation it is specified by has a witness, and then returns it.
use crate::ast::nodes::{Expr, LetStmt, LiteralExpr, MatchArm, Name, NameRef, Pattern, Type};
use crate::ast::reading::{
    first_in, section_in, spec_binary_op, spec_ident, spec_ident_text, BinaryOp, LiteralKind, TokSet,
    UnaryOp,
};
use crate::ast::support::{
    first_kid, first_tok, kids, last_kid, lemma_kid_smaller, nth_kid, toks, KindClass,
};
use crate::kind::SyntaxKind;
use crate::literal::NumberLiteral;
use crate::span::Span;
use crate::syntax::SyntaxNode;
use vstd::prelude::*;

pub mod items;

verus! {

// ---- names -------------------------------------------------------------------

/// A name at a definition site.
#[derive(Debug, PartialEq)]
pub struct Ident {
    pub name: String,
    pub span: Span,
}

/// `i` is the identifier of the `Name`/`NameRef` node `n`.
pub open spec fn ident_of(n: SyntaxNode, i: Ident) -> bool {
    spec_ident(n) matches Some(t) && i.name@ == t.text@ && i.span == t.span
}

/// Whether the `Name`/`NameRef` node `n` has an identifier to lower.
pub open spec fn has_ident(n: SyntaxNode) -> bool {
    spec_ident(n) is Some
}

fn ident_from(n: &SyntaxNode) -> (r: Option<Ident>)
    ensures
        r matches Some(i) ==> ident_of(*n, i),
        r is None <==> !has_ident(*n),
{
    match Name(n).ident() {
        Some(t) => Some(Ident { name: t.text.clone(), span: t.span }),
        None => None,
    }
}

/// The identifier of a definition-site name.
pub fn ident(name: &Name) -> (r: Option<Ident>)
    ensures
        r matches Some(i) ==> ident_of(name@, i),
        r is None <==> !has_ident(name@),
{
    ident_from(name.0)
}

/// The identifier of a reference-site name.
pub fn ident_ref(name: &NameRef) -> (r: Option<Ident>)
    ensures
        r matches Some(i) ==> ident_of(name@, i),
        r is None <==> !has_ident(name@),
{
    ident_from(name.0)
}

/// `is` are the identifiers of the name nodes `ns`, one for one.
pub open spec fn idents_of(ns: Seq<SyntaxNode>, is: Seq<Ident>) -> bool {
    ns.len() == is.len() && forall|i: int| 0 <= i < ns.len() ==> ident_of(#[trigger] ns[i], is[i])
}

/// The identifiers of the name nodes `ns`; `None` when one has none.
fn idents(ns: Vec<Name>) -> (r: Option<Vec<Ident>>)
    ensures
        r matches Some(v) ==> idents_of(crate::ast::support::views(ns@), v@),
        r is None <==> exists|i: int| 0 <= i < ns@.len() && !has_ident(#[trigger] ns@[i]@),
{
    let ghost vs = crate::ast::support::views(ns@);
    let mut out: Vec<Ident> = Vec::new();
    let mut i: usize = 0;
    while i < ns.len()
        invariant
            i <= ns@.len(),
            vs == crate::ast::support::views(ns@),
            out@.len() == i,
            forall|j: int| 0 <= j < i ==> ident_of(#[trigger] vs[j], out@[j]),
            forall|j: int| 0 <= j < i ==> has_ident(#[trigger] ns@[j]@),
        decreases ns@.len() - i,
    {
        assert(vs[i as int] == ns@[i as int]@);
        match ident(&ns[i]) {
            Some(id) => {
                out.push(id);
            },
            None => {
                return None;
            },
        }
        i = i + 1;
    }
    Some(out)
}

// ---- types -------------------------------------------------------------------

/// A type as written.
#[derive(Debug, PartialEq)]
pub struct SurfaceType {
    pub kind: TypeKind,
    pub span: Span,
}

#[derive(Debug, PartialEq)]
pub enum TypeKind {
    Named { name: String, args: Vec<SurfaceType> },
    Function { domain: Box<SurfaceType>, codomain: Box<SurfaceType> },
    /// `()`: the empty product, the domain of a relationship without inputs.
    Unit,
    /// `(A, B)`: a product, spelled as a relationship's domain.
    Tuple(Vec<SurfaceType>),
}

/// The type argument nodes of a `NamedType`.
pub open spec fn type_arg_nodes(n: SyntaxNode) -> Seq<SyntaxNode> {
    match first_kid(n, KindClass::Is(SyntaxKind::TypeArgList)) {
        Some(l) => kids(l, KindClass::Type),
        None => Seq::empty(),
    }
}

/// `t` is what the type node `n` lowers to.
pub open spec fn type_lowers(n: SyntaxNode, t: SurfaceType) -> bool
    decreases t, n, 1int,
{
    t.span == n.span && type_kind_lowers(n, t.kind)
}

/// `k` is what the type node `n` says, a parenthesised type saying what
/// its inner type says.
pub open spec fn type_kind_lowers(n: SyntaxNode, k: TypeKind) -> bool
    decreases k, n, 0int,
{
    if n.kind == SyntaxKind::ParenType {
        match first_kid(n, KindClass::Type) {
            Some(c) => {
                proof {
                    lemma_kid_smaller(n, KindClass::Type, 0);
                }
                type_kind_lowers(c, k)
            },
            None => false,
        }
    } else {
        match k {
            TypeKind::Named { name, args } => {
                &&& n.kind == SyntaxKind::NamedType
                &&& first_kid(n, KindClass::Is(SyntaxKind::NameRef)) matches Some(r)
                &&& name@ == spec_ident_text(r)
                &&& type_arg_nodes(n).len() == args@.len()
                &&& forall|i: int|
                    0 <= i < args@.len() ==> type_lowers(type_arg_nodes(n)[i], #[trigger] args@[i])
            },
            TypeKind::Function { domain, codomain } => {
                &&& n.kind == SyntaxKind::FunctionType
                &&& nth_kid(n, KindClass::Type, 0) matches Some(d)
                &&& nth_kid(n, KindClass::Type, 1) matches Some(c)
                &&& type_lowers(d, *domain)
                &&& type_lowers(c, *codomain)
            },
            TypeKind::Unit => n.kind == SyntaxKind::UnitType,
            TypeKind::Tuple(parts) => {
                &&& n.kind == SyntaxKind::TupleType
                &&& kids(n, KindClass::Type).len() == parts@.len()
                &&& forall|i: int|
                    0 <= i < parts@.len() ==> type_lowers(kids(n, KindClass::Type)[i], #[trigger] parts@[i])
            },
        }
    }
}

/// Lower a type.
pub fn lower_type(t: &Type) -> (r: Option<SurfaceType>)
    requires
        t.shaped(),
    ensures
        r matches Some(s) ==> type_lowers(t@, s),
        r is None ==> forall|s: SurfaceType| !type_lowers(t@, s),
    decreases t@, 1int,
{
    let span = t.syntax().span;
    match t {
        Type::Named(n) => {
            let args_in = n.type_args();
            proof {
                if first_kid(t@, KindClass::Is(SyntaxKind::TypeArgList)) is Some {
                    crate::ast::support::lemma_grandkids_smaller(
                        t@,
                        KindClass::Is(SyntaxKind::TypeArgList),
                        KindClass::Type,
                    );
                }
                assert(crate::ast::support::views(args_in@) == type_arg_nodes(t@));
                assert forall|i: int| 0 <= i < args_in@.len() implies #[trigger] args_in@[i]@
                    == type_arg_nodes(t@)[i] by {
                    assert(crate::ast::support::views(args_in@)[i] == args_in@[i]@);
                }
            }
            let ghost av = args_in@;
            let args = lower_types(t.syntax(), args_in);
            let name = n.name();
            if name.is_none() {
                return None;
            }
            match args {
                Some(args) => {
                    let nm = name.unwrap();
                    let r = SurfaceType { kind: TypeKind::Named { name: nm.as_str(), args }, span };
                    Some(r)
                },
                None => {
                    proof {
                        assert forall|s: SurfaceType| !type_lowers(t@, s) by {
                            if type_lowers(t@, s) {
                                if let TypeKind::Named { name, args } = s.kind {
                                    assert(types_lower(crate::ast::support::views(av), args@));
                                }
                            }
                        }
                    }
                    None
                },
            }
        },
        Type::Function(f) => {
            let d = f.domain();
            let c = f.codomain();
            match (d, c) {
                (Some(d), Some(c)) => {
                    proof {
                        lemma_kid_smaller(t@, KindClass::Type, 0);
                        lemma_kid_smaller(t@, KindClass::Type, 1);
                    }
                    let ld = lower_type(&d);
                    let lc = lower_type(&c);
                    match (ld, lc) {
                        (Some(ld), Some(lc)) => Some(
                            SurfaceType {
                                kind: TypeKind::Function { domain: Box::new(ld), codomain: Box::new(lc) },
                                span,
                            },
                        ),
                        _ => {
                            proof {
                                assert forall|s: SurfaceType| !type_lowers(t@, s) by {
                                    if type_lowers(t@, s) {
                                        if let TypeKind::Function { domain, codomain } = s.kind {
                                            assert(type_lowers(d@, *domain));
                                            assert(type_lowers(c@, *codomain));
                                        }
                                    }
                                }
                            }
                            None
                        },
                    }
                },
                _ => None,
            }
        },
        Type::Paren(p) => match p.inner() {
            Some(i) => {
                proof {
                    lemma_kid_smaller(t@, KindClass::Type, 0);
                }
                match lower_type(&i) {
                    Some(inner) => Some(SurfaceType { kind: inner.kind, span }),
                    None => {
                        proof {
                            assert forall|s: SurfaceType| !type_lowers(t@, s) by {
                                if type_lowers(t@, s) {
                                    assert(type_kind_lowers(i@, s.kind));
                                    let w = SurfaceType { kind: s.kind, span: i@.span };
                                    assert(type_lowers(i@, w));
                                }
                            }
                        }
                        None
                    },
                }
            },
            None => None,
        },
        Type::Unit(_) => Some(SurfaceType { kind: TypeKind::Unit, span }),
        Type::Tuple(tt) => {
            let parts_in = tt.parts();
            proof {
                crate::ast::support::lemma_kids_smaller(t@, KindClass::Type);
                assert forall|i: int| 0 <= i < parts_in@.len() implies #[trigger] parts_in@[i]@
                    == kids(t@, KindClass::Type)[i] by {
                    assert(crate::ast::support::views(parts_in@)[i] == parts_in@[i]@);
                }
            }
            let ghost pv = parts_in@;
            match lower_types(t.syntax(), parts_in) {
                Some(parts) => Some(SurfaceType { kind: TypeKind::Tuple(parts), span }),
                None => {
                    proof {
                        assert forall|s: SurfaceType| !type_lowers(t@, s) by {
                            if type_lowers(t@, s) {
                                if let TypeKind::Tuple(parts) = s.kind {
                                    assert(types_lower(crate::ast::support::views(pv), parts@));
                                }
                            }
                        }
                    }
                    None
                },
            }
        },
    }
}

/// `v` is what the type nodes `ns` lower to, one for one.
pub open spec fn types_lower(ns: Seq<SyntaxNode>, v: Seq<SurfaceType>) -> bool {
    ns.len() == v.len() && forall|i: int| 0 <= i < ns.len() ==> type_lowers(ns[i], #[trigger] v[i])
}

/// Lower the types `ts`, each below `owner`; `None` when one does not lower.
fn lower_types(owner: &SyntaxNode, ts: Vec<Type>) -> (r: Option<Vec<SurfaceType>>)
    requires
        forall|i: int| 0 <= i < ts@.len() ==> decreases_to!(*owner => (#[trigger] ts@[i])@),
        forall|i: int| 0 <= i < ts@.len() ==> (#[trigger] ts@[i]).shaped(),
    ensures
        r matches Some(v) ==> types_lower(crate::ast::support::views(ts@), v@),
        r is None ==> forall|v: Seq<SurfaceType>| !types_lower(crate::ast::support::views(ts@), v),
    decreases *owner, 0int,
{
    let ghost ns = crate::ast::support::views(ts@);
    let mut out: Vec<SurfaceType> = Vec::new();
    let mut i: usize = 0;
    while i < ts.len()
        invariant
            i <= ts@.len(),
            ns == crate::ast::support::views(ts@),
            out@.len() == i,
            forall|j: int| 0 <= j < ts@.len() ==> decreases_to!(*owner => (#[trigger] ts@[j])@),
            forall|j: int| 0 <= j < ts@.len() ==> (#[trigger] ts@[j]).shaped(),
            forall|j: int| 0 <= j < i ==> type_lowers(ns[j], #[trigger] out@[j]),
        decreases ts@.len() - i,
    {
        assert(decreases_to!(*owner => ts@[i as int]@));
        assert(ns[i as int] == ts@[i as int]@);
        match lower_type(&ts[i]) {
            Some(s) => {
                out.push(s);
            },
            None => {
                assert forall|v: Seq<SurfaceType>| !types_lower(ns, v) by {
                    if types_lower(ns, v) {
                        assert(type_lowers(ns[i as int], v[i as int]));
                    }
                }
                return None;
            },
        }
        i = i + 1;
    }
    Some(out)
}

// ---- patterns ----------------------------------------------------------------

#[derive(Debug, PartialEq)]
pub struct SurfacePattern {
    pub kind: PatternKind,
    pub span: Span,
}

#[derive(Debug, PartialEq)]
pub enum PatternKind {
    Wildcard,
    /// A bare name: binding or nullary constructor.
    Ident(String),
    Bool(bool),
    Number { negative: bool, literal: NumberLiteral },
    Constructor { name: String, fields: Vec<SurfacePattern> },
}

/// The field pattern nodes of a `ConstructorPattern`.
pub open spec fn field_nodes(n: SyntaxNode) -> Seq<SyntaxNode> {
    match first_kid(n, KindClass::Is(SyntaxKind::PatternList)) {
        Some(l) => kids(l, KindClass::Pattern),
        None => Seq::empty(),
    }
}

/// `p` is what the pattern node `n` lowers to.
pub open spec fn pattern_lowers(n: SyntaxNode, p: SurfacePattern) -> bool
    decreases p,
{
    &&& p.span == n.span
    &&& match p.kind {
        PatternKind::Wildcard => n.kind == SyntaxKind::WildcardPattern,
        PatternKind::Ident(x) => {
            &&& n.kind == SyntaxKind::IdentPattern
            &&& first_kid(n, KindClass::Is(SyntaxKind::Name)) matches Some(m)
            &&& x@ == spec_ident_text(m)
        },
        PatternKind::Bool(b) => {
            &&& n.kind == SyntaxKind::LiteralPattern
            &&& if first_tok(n, SyntaxKind::KwTrue) is Some {
                b
            } else {
                first_tok(n, SyntaxKind::KwFalse) is Some && !b
            }
        },
        PatternKind::Number { negative, literal } => {
            &&& n.kind == SyntaxKind::LiteralPattern
            &&& first_tok(n, SyntaxKind::KwTrue) is None
            &&& first_tok(n, SyntaxKind::KwFalse) is None
            &&& first_tok(n, SyntaxKind::Number) matches Some(t)
            &&& literal.text@ == t.text@
            &&& negative == first_tok(n, SyntaxKind::Minus) is Some
        },
        PatternKind::Constructor { name, fields } => {
            &&& n.kind == SyntaxKind::ConstructorPattern
            &&& first_kid(n, KindClass::Is(SyntaxKind::NameRef)) matches Some(r)
            &&& name@ == spec_ident_text(r)
            &&& field_nodes(n).len() == fields@.len()
            &&& forall|i: int|
                0 <= i < fields@.len() ==> pattern_lowers(field_nodes(n)[i], #[trigger] fields@[i])
        },
    }
}

/// `v` is what the pattern nodes `ns` lower to, one for one.
pub open spec fn patterns_lower(ns: Seq<SyntaxNode>, v: Seq<SurfacePattern>) -> bool {
    ns.len() == v.len() && forall|i: int| 0 <= i < ns.len() ==> pattern_lowers(ns[i], #[trigger] v[i])
}

/// Lower a pattern.
pub fn lower_pattern(p: &Pattern) -> (r: Option<SurfacePattern>)
    requires
        p.shaped(),
    ensures
        r matches Some(s) ==> pattern_lowers(p@, s),
        r is None ==> forall|s: SurfacePattern| !pattern_lowers(p@, s),
    decreases p@, 1int,
{
    let span = p.syntax().span;
    match p {
        Pattern::Wildcard(_) => Some(SurfacePattern { kind: PatternKind::Wildcard, span }),
        Pattern::Ident(i) => match i.name() {
            Some(m) => Some(SurfacePattern { kind: PatternKind::Ident(m.as_str()), span }),
            None => None,
        },
        Pattern::Literal(l) => match l.kind() {
            Some(crate::ast::reading::LiteralPatternKind::Bool(b)) => Some(
                SurfacePattern { kind: PatternKind::Bool(b), span },
            ),
            Some(crate::ast::reading::LiteralPatternKind::Number { negative, number }) => Some(
                SurfacePattern { kind: PatternKind::Number { negative, literal: number.literal() }, span },
            ),
            None => None,
        },
        Pattern::Constructor(c) => {
            let fields_in = c.fields();
            proof {
                if first_kid(p@, KindClass::Is(SyntaxKind::PatternList)) is Some {
                    crate::ast::support::lemma_grandkids_smaller(
                        p@,
                        KindClass::Is(SyntaxKind::PatternList),
                        KindClass::Pattern,
                    );
                }
                assert(crate::ast::support::views(fields_in@) == field_nodes(p@));
                assert forall|i: int| 0 <= i < fields_in@.len() implies #[trigger] fields_in@[i]@
                    == field_nodes(p@)[i] by {
                    assert(crate::ast::support::views(fields_in@)[i] == fields_in@[i]@);
                }
            }
            let ghost fv = fields_in@;
            let fields = lower_patterns(p.syntax(), fields_in);
            let name = c.name();
            if name.is_none() {
                return None;
            }
            match fields {
                Some(fields) => {
                    let nm = name.unwrap();
                    Some(SurfacePattern { kind: PatternKind::Constructor { name: nm.as_str(), fields }, span })
                },
                None => {
                    proof {
                        assert forall|s: SurfacePattern| !pattern_lowers(p@, s) by {
                            if pattern_lowers(p@, s) {
                                if let PatternKind::Constructor { name, fields } = s.kind {
                                    assert(patterns_lower(crate::ast::support::views(fv), fields@));
                                }
                            }
                        }
                    }
                    None
                },
            }
        },
    }
}

/// Lower the patterns `ps`, each below `owner`; `None` when one does not.
fn lower_patterns(owner: &SyntaxNode, ps: Vec<Pattern>) -> (r: Option<Vec<SurfacePattern>>)
    requires
        forall|i: int| 0 <= i < ps@.len() ==> decreases_to!(*owner => (#[trigger] ps@[i])@),
        forall|i: int| 0 <= i < ps@.len() ==> (#[trigger] ps@[i]).shaped(),
    ensures
        r matches Some(v) ==> patterns_lower(crate::ast::support::views(ps@), v@),
        r is None ==> forall|v: Seq<SurfacePattern>| !patterns_lower(crate::ast::support::views(ps@), v),
    decreases *owner, 0int,
{
    let ghost ns = crate::ast::support::views(ps@);
    let mut out: Vec<SurfacePattern> = Vec::new();
    let mut i: usize = 0;
    while i < ps.len()
        invariant
            i <= ps@.len(),
            ns == crate::ast::support::views(ps@),
            out@.len() == i,
            forall|j: int| 0 <= j < ps@.len() ==> decreases_to!(*owner => (#[trigger] ps@[j])@),
            forall|j: int| 0 <= j < ps@.len() ==> (#[trigger] ps@[j]).shaped(),
            forall|j: int| 0 <= j < i ==> pattern_lowers(ns[j], #[trigger] out@[j]),
        decreases ps@.len() - i,
    {
        assert(decreases_to!(*owner => ps@[i as int]@));
        assert(ns[i as int] == ps@[i as int]@);
        match lower_pattern(&ps[i]) {
            Some(s) => {
                out.push(s);
            },
            None => {
                assert forall|v: Seq<SurfacePattern>| !patterns_lower(ns, v) by {
                    if patterns_lower(ns, v) {
                        assert(pattern_lowers(ns[i as int], v[i as int]));
                    }
                }
                return None;
            },
        }
        i = i + 1;
    }
    Some(out)
}

// ---- expressions -------------------------------------------------------------

/// The four binder words.
#[derive(Clone, Copy, Debug, PartialEq, Eq, Structural)]
pub enum BinderForm {
    All,
    Any,
    Mapped,
    Filter,
}

pub open spec fn spec_binder_word(f: BinderForm) -> Seq<char> {
    match f {
        BinderForm::All => "all"@,
        BinderForm::Any => "any"@,
        BinderForm::Mapped => "map"@,
        BinderForm::Filter => "filter"@,
    }
}

pub open spec fn spec_binder_form(w: Seq<char>) -> Option<BinderForm> {
    if w == "all"@ {
        Some(BinderForm::All)
    } else if w == "any"@ {
        Some(BinderForm::Any)
    } else if w == "map"@ {
        Some(BinderForm::Mapped)
    } else if w == "filter"@ {
        Some(BinderForm::Filter)
    } else {
        None
    }
}

impl BinderForm {
    pub fn word(self) -> (r: &'static str)
        ensures
            r@ == spec_binder_word(self),
    {
        match self {
            BinderForm::All => "all",
            BinderForm::Any => "any",
            BinderForm::Mapped => "map",
            BinderForm::Filter => "filter",
        }
    }

    pub fn from_word(w: &str) -> (r: Option<BinderForm>)
        ensures
            r == spec_binder_form(w@),
    {
        if crate::text::str_eq(w, "all") {
            Some(BinderForm::All)
        } else if crate::text::str_eq(w, "any") {
            Some(BinderForm::Any)
        } else if crate::text::str_eq(w, "map") {
            Some(BinderForm::Mapped)
        } else if crate::text::str_eq(w, "filter") {
            Some(BinderForm::Filter)
        } else {
            None
        }
    }
}

/// One factor of a unit: a symbol and the power it is raised to (`s^2`).
#[derive(Debug, PartialEq)]
pub struct SurfaceUnitFactor {
    pub symbol: String,
    pub exponent: i64,
}

/// A unit written after a number (`90 deg`, `kg * m per s^2`): its
/// canonical spelling, its span, and its factors above and below `per`.
#[derive(Debug, PartialEq)]
pub struct Unit {
    pub name: String,
    pub span: Span,
    pub numerator: Vec<SurfaceUnitFactor>,
    pub denominator: Vec<SurfaceUnitFactor>,
}

/// An expression as written, with spans.  Parentheses are dropped (their
/// span is kept on the inner expression).
#[derive(Debug, PartialEq)]
pub struct SurfaceExpr {
    pub kind: ExprKind,
    pub span: Span,
}

#[derive(Debug, PartialEq)]
pub enum ExprKind {
    /// A reference, resolved by the elaborator.
    Name(String),
    /// A numeric literal, exactly as spelled, optionally with a unit
    /// written after it.  No machine value lives here.
    Number { literal: NumberLiteral, unit: Option<Unit> },
    Bool(bool),
    Unary { op: UnaryOp, expr: Box<SurfaceExpr> },
    Binary { op: BinaryOp, lhs: Box<SurfaceExpr>, rhs: Box<SurfaceExpr> },
    If { cond: Box<SurfaceExpr>, then: Box<SurfaceExpr>, els: Box<SurfaceExpr> },
    Call { callee: Box<SurfaceExpr>, args: Vec<SurfaceExpr> },
    Match { scrutinee: Box<SurfaceExpr>, arms: Vec<SurfaceArm> },
    Block { lets: Vec<SurfaceLet>, tail: Box<SurfaceExpr> },
    /// `[a, b, c]`: a collection literal.
    List(Vec<SurfaceExpr>),
    /// `(a, b)`: a grouped value.
    Tuple(Vec<SurfaceExpr>),
    /// `x => e`: a rule given to an equation; never a value on its own.
    Lambda { params: Vec<Ident>, body: Box<SurfaceExpr> },
    /// `?`: a slot, an expression not yet written.
    Hole,
    /// `()`: the unique value of the empty product.
    Unit,
    /// `all x in xs: body`: the binder family; the binder is the rule's
    /// parameter, scoped to the body.
    Binder {
        form: BinderForm,
        param: Ident,
        collection: Box<SurfaceExpr>,
        body: Box<SurfaceExpr>,
    },
    /// `lo .. hi`: a closed range.
    Range { lo: Box<SurfaceExpr>, hi: Box<SurfaceExpr> },
}

#[derive(Debug, PartialEq)]
pub struct SurfaceArm {
    pub pattern: SurfacePattern,
    pub body: SurfaceExpr,
    pub span: Span,
}

#[derive(Debug, PartialEq)]
pub struct SurfaceLet {
    pub pattern: SurfacePattern,
    pub value: SurfaceExpr,
    pub span: Span,
}

pub open spec fn call_arg_nodes(n: SyntaxNode) -> Seq<SyntaxNode> {
    match first_kid(n, KindClass::Is(SyntaxKind::ArgList)) {
        Some(l) => kids(l, KindClass::Expr),
        None => Seq::empty(),
    }
}

pub open spec fn arm_nodes(n: SyntaxNode) -> Seq<SyntaxNode> {
    match first_kid(n, KindClass::Is(SyntaxKind::MatchArmList)) {
        Some(l) => kids(l, KindClass::Is(SyntaxKind::MatchArm)),
        None => Seq::empty(),
    }
}

pub open spec fn lambda_param_nodes(n: SyntaxNode) -> Seq<SyntaxNode> {
    match first_kid(n, KindClass::Is(SyntaxKind::LambdaParams)) {
        Some(l) => kids(l, KindClass::Is(SyntaxKind::Name)),
        None => Seq::empty(),
    }
}

/// The unary operator of a `UnaryExpr` node.
pub open spec fn spec_unary(n: SyntaxNode) -> Option<UnaryOp> {
    match first_in(toks(n), TokSet::UnarySign) {
        Some(t) => Some(
            if t.kind == SyntaxKind::Bang {
                UnaryOp::Not
            } else {
                UnaryOp::Neg
            },
        ),
        None => None,
    }
}

/// The binary operator of a `BinaryExpr` node.
pub open spec fn spec_binary(n: SyntaxNode) -> Option<BinaryOp> {
    match first_in(toks(n), TokSet::BinarySign) {
        Some(t) => spec_binary_op(t.kind),
        None => None,
    }
}

/// The unit after a number literal node `n`, as lowered.
pub open spec fn unit_lowers(n: SyntaxNode, u: Option<Unit>) -> bool {
    match first_kid(n, KindClass::Is(SyntaxKind::UnitSuffix)) {
        Some(us) => u matches Some(x) && crate::units::unit_reads(us, x),
        None => u is None,
    }
}

/// The node under the parentheses around `n` (`n` itself when there are
/// none); `None` when a pair of parentheses holds no expression.
pub open spec fn unparen(n: SyntaxNode) -> Option<SyntaxNode>
    decreases n,
{
    if n.kind == SyntaxKind::ParenExpr {
        match first_kid(n, KindClass::Expr) {
            Some(c) => {
                proof {
                    lemma_kid_smaller(n, KindClass::Expr, 0);
                }
                unparen(c)
            },
            None => None,
        }
    } else {
        Some(n)
    }
}

/// `s` is what the expression node `n` lowers to: the span of `n`, and
/// what the expression under its parentheses says.
pub open spec fn expr_lowers(n: SyntaxNode, s: SurfaceExpr) -> bool
    decreases s, 1int,
{
    &&& s.span == n.span
    &&& unparen(n) matches Some(m)
    &&& expr_kind_lowers(m, s.kind)
}

/// `v` is what the expression nodes `ns` lower to, one for one.
pub open spec fn exprs_lower(ns: Seq<SyntaxNode>, v: Seq<SurfaceExpr>) -> bool
    decreases v, 0int,
{
    ns.len() == v.len() && forall|i: int| 0 <= i < ns.len() ==> expr_lowers(ns[i], #[trigger] v[i])
}

/// `a` is what the match arm node `n` lowers to.
pub open spec fn arm_lowers(n: SyntaxNode, a: SurfaceArm) -> bool
    decreases a, 0int,
{
    &&& a.span == n.span
    &&& first_kid(n, KindClass::Pattern) matches Some(p)
    &&& pattern_lowers(p, a.pattern)
    &&& first_kid(n, KindClass::Expr) matches Some(b)
    &&& expr_lowers(b, a.body)
}

pub open spec fn arms_lower(ns: Seq<SyntaxNode>, v: Seq<SurfaceArm>) -> bool
    decreases v, 0int,
{
    ns.len() == v.len() && forall|i: int| 0 <= i < ns.len() ==> arm_lowers(ns[i], #[trigger] v[i])
}

/// `l` is what the `let` node `n` lowers to.
pub open spec fn let_lowers(n: SyntaxNode, l: SurfaceLet) -> bool
    decreases l, 0int,
{
    &&& l.span == n.span
    &&& first_kid(n, KindClass::Pattern) matches Some(p)
    &&& pattern_lowers(p, l.pattern)
    &&& first_kid(n, KindClass::Expr) matches Some(v)
    &&& expr_lowers(v, l.value)
}

pub open spec fn lets_lower(ns: Seq<SyntaxNode>, v: Seq<SurfaceLet>) -> bool
    decreases v, 0int,
{
    ns.len() == v.len() && forall|i: int| 0 <= i < ns.len() ==> let_lowers(ns[i], #[trigger] v[i])
}

/// `k` is what the (unparenthesised) expression node `n` says.
pub open spec fn expr_kind_lowers(n: SyntaxNode, k: ExprKind) -> bool
    decreases k, 0int,
{
    {
        match k {
            ExprKind::Name(x) => {
                &&& n.kind == SyntaxKind::NameExpr
                &&& first_kid(n, KindClass::Is(SyntaxKind::NameRef)) matches Some(r)
                &&& x@ == spec_ident_text(r)
            },
            ExprKind::Number { literal, unit } => {
                &&& n.kind == SyntaxKind::LiteralExpr
                &&& first_tok(n, SyntaxKind::Number) matches Some(t)
                &&& literal.text@ == t.text@
                &&& unit_lowers(n, unit)
            },
            ExprKind::Bool(b) => {
                &&& n.kind == SyntaxKind::LiteralExpr
                &&& first_tok(n, SyntaxKind::Number) is None
                &&& if first_tok(n, SyntaxKind::KwTrue) is Some {
                    b
                } else {
                    first_tok(n, SyntaxKind::KwFalse) is Some && !b
                }
            },
            ExprKind::Unary { op, expr } => {
                &&& n.kind == SyntaxKind::UnaryExpr
                &&& spec_unary(n) == Some(op)
                &&& first_kid(n, KindClass::Expr) matches Some(c)
                &&& expr_lowers(c, *expr)
            },
            ExprKind::Binary { op, lhs, rhs } => {
                &&& n.kind == SyntaxKind::BinaryExpr
                &&& spec_binary(n) == Some(op)
                &&& nth_kid(n, KindClass::Expr, 0) matches Some(l)
                &&& nth_kid(n, KindClass::Expr, 1) matches Some(r)
                &&& expr_lowers(l, *lhs)
                &&& expr_lowers(r, *rhs)
            },
            ExprKind::If { cond, then, els } => {
                &&& n.kind == SyntaxKind::IfExpr
                &&& section_in(n.children@, SyntaxKind::KwIf, false) matches Some(c)
                &&& section_in(n.children@, SyntaxKind::KwThen, false) matches Some(t)
                &&& section_in(n.children@, SyntaxKind::KwElse, false) matches Some(e)
                &&& expr_lowers(c, *cond)
                &&& expr_lowers(t, *then)
                &&& expr_lowers(e, *els)
            },
            ExprKind::Call { callee, args } => {
                &&& n.kind == SyntaxKind::CallExpr
                &&& first_kid(n, KindClass::Expr) matches Some(c)
                &&& expr_lowers(c, *callee)
                &&& exprs_lower(call_arg_nodes(n), args@)
            },
            ExprKind::Match { scrutinee, arms } => {
                &&& n.kind == SyntaxKind::MatchExpr
                &&& first_kid(n, KindClass::Expr) matches Some(c)
                &&& expr_lowers(c, *scrutinee)
                &&& arms_lower(arm_nodes(n), arms@)
            },
            ExprKind::Block { lets, tail } => {
                &&& n.kind == SyntaxKind::BlockExpr
                &&& lets_lower(kids(n, KindClass::Is(SyntaxKind::LetStmt)), lets@)
                &&& last_kid(n, KindClass::Expr) matches Some(t)
                &&& expr_lowers(t, *tail)
            },
            ExprKind::List(items) => {
                &&& n.kind == SyntaxKind::ListExpr
                &&& exprs_lower(kids(n, KindClass::Expr), items@)
            },
            ExprKind::Tuple(items) => {
                &&& n.kind == SyntaxKind::TupleExpr
                &&& exprs_lower(kids(n, KindClass::Expr), items@)
            },
            ExprKind::Lambda { params, body } => {
                &&& n.kind == SyntaxKind::LambdaExpr
                &&& idents_of(lambda_param_nodes(n), params@)
                &&& first_kid(n, KindClass::Expr) matches Some(b)
                &&& expr_lowers(b, *body)
            },
            ExprKind::Hole => n.kind == SyntaxKind::SlotExpr,
            ExprKind::Unit => n.kind == SyntaxKind::UnitExpr,
            ExprKind::Binder { form, param, collection, body } => {
                &&& n.kind == SyntaxKind::BinderExpr
                &&& first_tok(n, SyntaxKind::Ident) matches Some(w)
                &&& spec_binder_form(w.text@) == Some(form)
                &&& first_kid(n, KindClass::Is(SyntaxKind::Name)) matches Some(p)
                &&& ident_of(p, param)
                &&& nth_kid(n, KindClass::Expr, 0) matches Some(c)
                &&& nth_kid(n, KindClass::Expr, 1) matches Some(b)
                &&& expr_lowers(c, *collection)
                &&& expr_lowers(b, *body)
            },
            ExprKind::Range { lo, hi } => {
                &&& n.kind == SyntaxKind::RangeExpr
                &&& nth_kid(n, KindClass::Expr, 0) matches Some(l)
                &&& nth_kid(n, KindClass::Expr, 1) matches Some(h)
                &&& expr_lowers(l, *lo)
                &&& expr_lowers(h, *hi)
            },
        }
    }
}

/// Lower an expression.
pub fn lower_expr(e: &Expr) -> (r: Option<SurfaceExpr>)
    requires
        e.shaped(),
    ensures
        r matches Some(s) ==> expr_lowers(e@, s),
        r is None ==> forall|s: SurfaceExpr| !expr_lowers(e@, s),
    decreases e@, 2int,
{
    let span = e.syntax().span;
    if let Expr::Paren(p) = e {
        match p.inner() {
            Some(c) => {
                proof {
                    lemma_kid_smaller(e@, KindClass::Expr, 0);
                }
                match lower_expr(&c) {
                    Some(inner) => {
                        return Some(SurfaceExpr { kind: inner.kind, span });
                    },
                    None => {
                        proof {
                            assert forall|s: SurfaceExpr| !expr_lowers(e@, s) by {
                                if expr_lowers(e@, s) {
                                    let w = SurfaceExpr { kind: s.kind, span: c@.span };
                                    assert(expr_lowers(c@, w));
                                }
                            }
                        }
                        return None;
                    },
                }
            },
            None => {
                assert(unparen(e@) is None);
                return None;
            },
        }
    }
    assert(unparen(e@) == Some(e@));
    match lower_kind(e) {
        Some(k) => Some(SurfaceExpr { kind: k, span }),
        None => {
            assert forall|s: SurfaceExpr| !expr_lowers(e@, s) by {
                if expr_lowers(e@, s) {
                    assert(expr_kind_lowers(e@, s.kind));
                }
            }
            None
        },
    }
}

/// What an expression that is not parenthesised says.
#[verifier::spinoff_prover]
#[verifier::rlimit(60)]
fn lower_kind(e: &Expr) -> (r: Option<ExprKind>)
    requires
        e.shaped(),
        e@.kind != SyntaxKind::ParenExpr,
    ensures
        r matches Some(k) ==> expr_kind_lowers(e@, k),
        r is None ==> forall|k: ExprKind| !expr_kind_lowers(e@, k),
    decreases e@, 1int,
{
    match e {
        Expr::Name(n) => match n.name() {
            Some(r) => Some(ExprKind::Name(r.as_str())),
            None => None,
        },
        Expr::Literal(l) => lower_literal(l),
        Expr::Paren(_) => None,
        Expr::Slot(_) => Some(ExprKind::Hole),
        Expr::Unit(_) => Some(ExprKind::Unit),
        Expr::Call(c) => {
            let callee = c.callee();
            let args_in = c.arguments();
            let ghost av = args_in@;
            proof {
                if first_kid(e@, KindClass::Is(SyntaxKind::ArgList)) is Some {
                    crate::ast::support::lemma_grandkids_smaller(
                        e@,
                        KindClass::Is(SyntaxKind::ArgList),
                        KindClass::Expr,
                    );
                }
                assert(crate::ast::support::views(av) == call_arg_nodes(e@));
                assert forall|i: int| 0 <= i < av.len() implies #[trigger] av[i]@
                    == call_arg_nodes(e@)[i] by {
                    assert(crate::ast::support::views(av)[i] == av[i]@);
                }
            }
            let args = lower_exprs(e.syntax(), args_in);
            let callee = match callee {
                Some(x) => x,
                None => {
                    return None;
                },
            };
            proof {
                lemma_kid_smaller(e@, KindClass::Expr, 0);
            }
            let lc = lower_expr(&callee);
            match (lc, args) {
                (Some(lc), Some(args)) => Some(ExprKind::Call { callee: Box::new(lc), args }),
                _ => {
                    proof {
                        assert forall|k: ExprKind| !expr_kind_lowers(e@, k) by {
                            if let ExprKind::Call { callee: ce, args: ae } = k {
                                if expr_kind_lowers(e@, k) {
                                    assert(expr_lowers(callee@, *ce));
                                    assert(exprs_lower(crate::ast::support::views(av), ae@));
                                }
                            }
                        }
                    }
                    None
                },
            }
        },
        Expr::Unary(u) => {
            let op = u.op();
            let operand = u.operand();
            match (op, operand) {
                (Some(op), Some(o)) => {
                    proof {
                        lemma_kid_smaller(e@, KindClass::Expr, 0);
                    }
                    match lower_expr(&o) {
                        Some(x) => Some(ExprKind::Unary { op, expr: Box::new(x) }),
                        None => {
                            proof {
                                assert forall|k: ExprKind| !expr_kind_lowers(e@, k) by {
                                    if let ExprKind::Unary { op: _, expr } = k {
                                        if expr_kind_lowers(e@, k) {
                                            assert(expr_lowers(o@, *expr));
                                        }
                                    }
                                }
                            }
                            None
                        },
                    }
                },
                _ => None,
            }
        },
        Expr::Binary(bx) => {
            let op = bx.op();
            let l = bx.lhs();
            let r = bx.rhs();
            match (op, l, r) {
                (Some(op), Some(l), Some(r)) => {
                    proof {
                        lemma_kid_smaller(e@, KindClass::Expr, 0);
                        lemma_kid_smaller(e@, KindClass::Expr, 1);
                    }
                    let ll = lower_expr(&l);
                    let lr = lower_expr(&r);
                    match (ll, lr) {
                        (Some(ll), Some(lr)) => Some(
                            ExprKind::Binary { op, lhs: Box::new(ll), rhs: Box::new(lr) },
                        ),
                        _ => {
                            proof {
                                assert forall|k: ExprKind| !expr_kind_lowers(e@, k) by {
                                    if let ExprKind::Binary { op: _, lhs, rhs } = k {
                                        if expr_kind_lowers(e@, k) {
                                            assert(expr_lowers(l@, *lhs));
                                            assert(expr_lowers(r@, *rhs));
                                        }
                                    }
                                }
                            }
                            None
                        },
                    }
                },
                _ => None,
            }
        },
        Expr::If(i) => {
            let c = i.condition();
            let t = i.then_branch();
            let x = i.else_branch();
            match (c, t, x) {
                (Some(c), Some(t), Some(x)) => {
                    proof {
                        crate::ast::reading::lemma_section_smaller(e@, SyntaxKind::KwIf);
                        crate::ast::reading::lemma_section_smaller(e@, SyntaxKind::KwThen);
                        crate::ast::reading::lemma_section_smaller(e@, SyntaxKind::KwElse);
                    }
                    let lc = lower_expr(&c);
                    let lt = lower_expr(&t);
                    let lx = lower_expr(&x);
                    match (lc, lt, lx) {
                        (Some(lc), Some(lt), Some(lx)) => Some(
                            ExprKind::If { cond: Box::new(lc), then: Box::new(lt), els: Box::new(lx) },
                        ),
                        _ => {
                            proof {
                                assert forall|k: ExprKind| !expr_kind_lowers(e@, k) by {
                                    if let ExprKind::If { cond, then, els } = k {
                                        if expr_kind_lowers(e@, k) {
                                            assert(expr_lowers(c@, *cond));
                                            assert(expr_lowers(t@, *then));
                                            assert(expr_lowers(x@, *els));
                                        }
                                    }
                                }
                            }
                            None
                        },
                    }
                },
                _ => None,
            }
        },
        Expr::Match(m) => {
            let scrutinee = m.scrutinee();
            let arms_in = m.arms();
            let ghost av = arms_in@;
            proof {
                if first_kid(e@, KindClass::Is(SyntaxKind::MatchArmList)) is Some {
                    crate::ast::support::lemma_grandkids_smaller(
                        e@,
                        KindClass::Is(SyntaxKind::MatchArmList),
                        KindClass::Is(SyntaxKind::MatchArm),
                    );
                }
                assert(crate::ast::support::views(av) == arm_nodes(e@));
                assert forall|i: int| 0 <= i < av.len() implies #[trigger] av[i]@ == arm_nodes(e@)[i] by {
                    assert(crate::ast::support::views(av)[i] == av[i]@);
                }
            }
            let arms = lower_arms(e.syntax(), arms_in);
            let scrutinee = match scrutinee {
                Some(x) => x,
                None => {
                    return None;
                },
            };
            proof {
                lemma_kid_smaller(e@, KindClass::Expr, 0);
            }
            let ls = lower_expr(&scrutinee);
            match (ls, arms) {
                (Some(ls), Some(arms)) => Some(ExprKind::Match { scrutinee: Box::new(ls), arms }),
                _ => {
                    proof {
                        assert forall|k: ExprKind| !expr_kind_lowers(e@, k) by {
                            if let ExprKind::Match { scrutinee: se, arms: ae } = k {
                                if expr_kind_lowers(e@, k) {
                                    assert(expr_lowers(scrutinee@, *se));
                                    assert(arms_lower(crate::ast::support::views(av), ae@));
                                }
                            }
                        }
                    }
                    None
                },
            }
        },
        Expr::Block(bl) => {
            let lets_in = bl.lets();
            let ghost lv = lets_in@;
            proof {
                crate::ast::support::lemma_kids_smaller(e@, KindClass::Is(SyntaxKind::LetStmt));
                assert forall|i: int| 0 <= i < lv.len() implies #[trigger] lv[i]@ == kids(
                    e@,
                    KindClass::Is(SyntaxKind::LetStmt),
                )[i] by {
                    assert(crate::ast::support::views(lv)[i] == lv[i]@);
                }
            }
            let lets = lower_lets(e.syntax(), lets_in);
            let tail = match bl.tail() {
                Some(t) => t,
                None => {
                    return None;
                },
            };
            proof {
                let n = kids(e@, KindClass::Expr).len();
                lemma_kid_smaller(e@, KindClass::Expr, n - 1);
            }
            let lt = lower_expr(&tail);
            match (lets, lt) {
                (Some(lets), Some(lt)) => Some(ExprKind::Block { lets, tail: Box::new(lt) }),
                _ => {
                    proof {
                        assert forall|k: ExprKind| !expr_kind_lowers(e@, k) by {
                            if let ExprKind::Block { lets: le, tail: te } = k {
                                if expr_kind_lowers(e@, k) {
                                    assert(expr_lowers(tail@, *te));
                                    assert(lets_lower(crate::ast::support::views(lv), le@));
                                }
                            }
                        }
                    }
                    None
                },
            }
        },
        Expr::List(l) => {
            let items_in = l.items();
            let ghost iv = items_in@;
            proof {
                crate::ast::support::lemma_kids_smaller(e@, KindClass::Expr);
                assert forall|i: int| 0 <= i < iv.len() implies #[trigger] iv[i]@ == kids(e@, KindClass::Expr)[i] by {
                    assert(crate::ast::support::views(iv)[i] == iv[i]@);
                }
            }
            match lower_exprs(e.syntax(), items_in) {
                Some(items) => Some(ExprKind::List(items)),
                None => {
                    proof {
                        assert forall|k: ExprKind| !expr_kind_lowers(e@, k) by {
                            if let ExprKind::List(items) = k {
                                if expr_kind_lowers(e@, k) {
                                    assert(exprs_lower(crate::ast::support::views(iv), items@));
                                }
                            }
                        }
                    }
                    None
                },
            }
        },
        Expr::Tuple(t) => {
            let items_in = t.items();
            let ghost iv = items_in@;
            proof {
                crate::ast::support::lemma_kids_smaller(e@, KindClass::Expr);
                assert forall|i: int| 0 <= i < iv.len() implies #[trigger] iv[i]@ == kids(e@, KindClass::Expr)[i] by {
                    assert(crate::ast::support::views(iv)[i] == iv[i]@);
                }
            }
            match lower_exprs(e.syntax(), items_in) {
                Some(items) => Some(ExprKind::Tuple(items)),
                None => {
                    proof {
                        assert forall|k: ExprKind| !expr_kind_lowers(e@, k) by {
                            if let ExprKind::Tuple(items) = k {
                                if expr_kind_lowers(e@, k) {
                                    assert(exprs_lower(crate::ast::support::views(iv), items@));
                                }
                            }
                        }
                    }
                    None
                },
            }
        },
        Expr::Lambda(l) => {
            let params_in = l.params();
            let ghost pv = params_in@;
            let params = idents(params_in);
            let body = match l.body() {
                Some(b) => b,
                None => {
                    return None;
                },
            };
            proof {
                lemma_kid_smaller(e@, KindClass::Expr, 0);
            }
            let lb = lower_expr(&body);
            match (params, lb) {
                (Some(params), Some(lb)) => Some(ExprKind::Lambda { params, body: Box::new(lb) }),
                _ => {
                    proof {
                        assert forall|k: ExprKind| !expr_kind_lowers(e@, k) by {
                            if let ExprKind::Lambda { params: pe, body: be } = k {
                                if expr_kind_lowers(e@, k) {
                                    assert(expr_lowers(body@, *be));
                                    assert(idents_of(crate::ast::support::views(pv), pe@));
                                    if params is None {
                                        let i = choose|i: int| 0 <= i < pv.len() && !has_ident(#[trigger] pv[i]@);
                                        assert(crate::ast::support::views(pv)[i] == pv[i]@);
                                        assert(ident_of(crate::ast::support::views(pv)[i], pe@[i]));
                                    }
                                }
                            }
                        }
                    }
                    None
                },
            }
        },
        Expr::Binder(bn) => {
            let word = match bn.word() {
                Some(w) => w,
                None => {
                    return None;
                },
            };
            let form = match BinderForm::from_word(word.text.as_str()) {
                Some(f) => f,
                None => {
                    return None;
                },
            };
            let param = match bn.param() {
                Some(p) => p,
                None => {
                    return None;
                },
            };
            let pid = match ident(&param) {
                Some(i) => i,
                None => {
                    return None;
                },
            };
            let c = bn.collection();
            let b = bn.body();
            match (c, b) {
                (Some(c), Some(b)) => {
                    proof {
                        lemma_kid_smaller(e@, KindClass::Expr, 0);
                        lemma_kid_smaller(e@, KindClass::Expr, 1);
                    }
                    let lc = lower_expr(&c);
                    let lb = lower_expr(&b);
                    match (lc, lb) {
                        (Some(lc), Some(lb)) => Some(
                            ExprKind::Binder {
                                form,
                                param: pid,
                                collection: Box::new(lc),
                                body: Box::new(lb),
                            },
                        ),
                        _ => {
                            proof {
                                assert forall|k: ExprKind| !expr_kind_lowers(e@, k) by {
                                    if let ExprKind::Binder { form: _, param: _, collection, body } = k {
                                        if expr_kind_lowers(e@, k) {
                                            assert(expr_lowers(c@, *collection));
                                            assert(expr_lowers(b@, *body));
                                        }
                                    }
                                }
                            }
                            None
                        },
                    }
                },
                _ => None,
            }
        },
        Expr::Range(rg) => {
            let l = rg.lo();
            let h = rg.hi();
            match (l, h) {
                (Some(l), Some(h)) => {
                    proof {
                        lemma_kid_smaller(e@, KindClass::Expr, 0);
                        lemma_kid_smaller(e@, KindClass::Expr, 1);
                    }
                    let ll = lower_expr(&l);
                    let lh = lower_expr(&h);
                    match (ll, lh) {
                        (Some(ll), Some(lh)) => Some(ExprKind::Range { lo: Box::new(ll), hi: Box::new(lh) }),
                        _ => {
                            proof {
                                assert forall|k: ExprKind| !expr_kind_lowers(e@, k) by {
                                    if let ExprKind::Range { lo, hi } = k {
                                        if expr_kind_lowers(e@, k) {
                                            assert(expr_lowers(l@, *lo));
                                            assert(expr_lowers(h@, *hi));
                                        }
                                    }
                                }
                            }
                            None
                        },
                    }
                },
                _ => None,
            }
        },
    }
}

/// A literal expression: a number (with its unit, when one is written and
/// has a name) or a truth value.
fn lower_literal(l: &LiteralExpr) -> (r: Option<ExprKind>)
    requires
        l@.kind == SyntaxKind::LiteralExpr,
    ensures
        r matches Some(k) ==> expr_kind_lowers(l@, k),
        r is None ==> forall|k: ExprKind| !expr_kind_lowers(l@, k),
{
    match l.kind() {
        Some(LiteralKind::Bool(b)) => Some(ExprKind::Bool(b)),
        Some(LiteralKind::Number(n)) => {
            let unit = match l.unit() {
                Some(u) => Some(crate::units::read_unit(u.0)),
                None => None,
            };
            Some(ExprKind::Number { literal: n.literal(), unit })
        },
        None => None,
    }
}

/// Lower the expressions `es`, each below `owner`; `None` when one does not.
fn lower_exprs(owner: &SyntaxNode, es: Vec<Expr>) -> (r: Option<Vec<SurfaceExpr>>)
    requires
        forall|i: int| 0 <= i < es@.len() ==> decreases_to!(*owner => (#[trigger] es@[i])@),
        forall|i: int| 0 <= i < es@.len() ==> (#[trigger] es@[i]).shaped(),
    ensures
        r matches Some(v) ==> exprs_lower(crate::ast::support::views(es@), v@),
        r is None ==> forall|v: Seq<SurfaceExpr>| !exprs_lower(crate::ast::support::views(es@), v),
    decreases *owner, 0int,
{
    let ghost ns = crate::ast::support::views(es@);
    let mut out: Vec<SurfaceExpr> = Vec::new();
    let mut i: usize = 0;
    while i < es.len()
        invariant
            i <= es@.len(),
            ns == crate::ast::support::views(es@),
            out@.len() == i,
            forall|j: int| 0 <= j < es@.len() ==> decreases_to!(*owner => (#[trigger] es@[j])@),
            forall|j: int| 0 <= j < es@.len() ==> (#[trigger] es@[j]).shaped(),
            forall|j: int| 0 <= j < i ==> expr_lowers(ns[j], #[trigger] out@[j]),
        decreases es@.len() - i,
    {
        assert(decreases_to!(*owner => es@[i as int]@));
        assert(ns[i as int] == es@[i as int]@);
        match lower_expr(&es[i]) {
            Some(s) => {
                out.push(s);
            },
            None => {
                assert forall|v: Seq<SurfaceExpr>| !exprs_lower(ns, v) by {
                    if exprs_lower(ns, v) {
                        assert(expr_lowers(ns[i as int], v[i as int]));
                    }
                }
                return None;
            },
        }
        i = i + 1;
    }
    Some(out)
}

/// Lower the match arms `arms`, each below `owner`.
fn lower_arms(owner: &SyntaxNode, arms: Vec<MatchArm>) -> (r: Option<Vec<SurfaceArm>>)
    requires
        forall|i: int| 0 <= i < arms@.len() ==> decreases_to!(*owner => (#[trigger] arms@[i])@),
    ensures
        r matches Some(v) ==> arms_lower(crate::ast::support::views(arms@), v@),
        r is None ==> forall|v: Seq<SurfaceArm>| !arms_lower(crate::ast::support::views(arms@), v),
    decreases *owner, 0int,
{
    let ghost ns = crate::ast::support::views(arms@);
    let mut out: Vec<SurfaceArm> = Vec::new();
    let mut i: usize = 0;
    while i < arms.len()
        invariant
            i <= arms@.len(),
            ns == crate::ast::support::views(arms@),
            out@.len() == i,
            forall|j: int| 0 <= j < arms@.len() ==> decreases_to!(*owner => (#[trigger] arms@[j])@),
            forall|j: int| 0 <= j < i ==> arm_lowers(ns[j], #[trigger] out@[j]),
        decreases arms@.len() - i,
    {
        let a = arms[i];
        assert(decreases_to!(*owner => a@));
        assert(ns[i as int] == a@);
        let p = a.pattern();
        let body = a.body();
        let lowered = match (p, body) {
            (Some(p), Some(body)) => {
                proof {
                    lemma_kid_smaller(a@, KindClass::Expr, 0);
                }
                let lp = lower_pattern(&p);
                let lb = lower_expr(&body);
                match (lp, lb) {
                    (Some(lp), Some(lb)) => Some(SurfaceArm { pattern: lp, body: lb, span: a.0.span }),
                    _ => {
                        proof {
                            assert forall|x: SurfaceArm| !arm_lowers(a@, x) by {
                                if arm_lowers(a@, x) {
                                    assert(pattern_lowers(p@, x.pattern));
                                    assert(expr_lowers(body@, x.body));
                                }
                            }
                        }
                        None
                    },
                }
            },
            _ => None,
        };
        match lowered {
            Some(x) => {
                out.push(x);
            },
            None => {
                assert forall|v: Seq<SurfaceArm>| !arms_lower(ns, v) by {
                    if arms_lower(ns, v) {
                        assert(arm_lowers(ns[i as int], v[i as int]));
                    }
                }
                return None;
            },
        }
        i = i + 1;
    }
    Some(out)
}

/// Lower the `let`s `lets`, each below `owner`.
fn lower_lets(owner: &SyntaxNode, lets: Vec<LetStmt>) -> (r: Option<Vec<SurfaceLet>>)
    requires
        forall|i: int| 0 <= i < lets@.len() ==> decreases_to!(*owner => (#[trigger] lets@[i])@),
    ensures
        r matches Some(v) ==> lets_lower(crate::ast::support::views(lets@), v@),
        r is None ==> forall|v: Seq<SurfaceLet>| !lets_lower(crate::ast::support::views(lets@), v),
    decreases *owner, 0int,
{
    let ghost ns = crate::ast::support::views(lets@);
    let mut out: Vec<SurfaceLet> = Vec::new();
    let mut i: usize = 0;
    while i < lets.len()
        invariant
            i <= lets@.len(),
            ns == crate::ast::support::views(lets@),
            out@.len() == i,
            forall|j: int| 0 <= j < lets@.len() ==> decreases_to!(*owner => (#[trigger] lets@[j])@),
            forall|j: int| 0 <= j < i ==> let_lowers(ns[j], #[trigger] out@[j]),
        decreases lets@.len() - i,
    {
        let l = lets[i];
        assert(decreases_to!(*owner => l@));
        assert(ns[i as int] == l@);
        let p = l.pattern();
        let value = l.value();
        let lowered = match (p, value) {
            (Some(p), Some(value)) => {
                proof {
                    lemma_kid_smaller(l@, KindClass::Expr, 0);
                }
                let lp = lower_pattern(&p);
                let lv = lower_expr(&value);
                match (lp, lv) {
                    (Some(lp), Some(lv)) => Some(SurfaceLet { pattern: lp, value: lv, span: l.0.span }),
                    _ => {
                        proof {
                            assert forall|x: SurfaceLet| !let_lowers(l@, x) by {
                                if let_lowers(l@, x) {
                                    assert(pattern_lowers(p@, x.pattern));
                                    assert(expr_lowers(value@, x.value));
                                }
                            }
                        }
                        None
                    },
                }
            },
            _ => None,
        };
        match lowered {
            Some(x) => {
                out.push(x);
            },
            None => {
                assert forall|v: Seq<SurfaceLet>| !lets_lower(ns, v) by {
                    if lets_lower(ns, v) {
                        assert(let_lowers(ns[i as int], v[i as int]));
                    }
                }
                return None;
            },
        }
        i = i + 1;
    }
    Some(out)
}

// ---- describing and reading surface values ------------------------------------

/// How a pattern reads back, for messages: `_`, `x`, `true`, `-1`,
/// `Manual(v)`.
pub open spec fn describe(p: SurfacePattern) -> Seq<char>
    decreases p, 1int,
{
    match p.kind {
        PatternKind::Wildcard => "_"@,
        PatternKind::Ident(n) => n@,
        PatternKind::Bool(b) => if b {
            "true"@
        } else {
            "false"@
        },
        PatternKind::Number { negative, literal } => (if negative {
            "-"@
        } else {
            ""@
        }) + literal.text@,
        PatternKind::Constructor { name, fields } => name@ + "("@ + crate::diagnostics::spec_join(
            describe_all(fields@),
            ", "@,
        ) + ")"@,
    }
}

/// The descriptions of `ps`, in order.
pub open spec fn describe_all(ps: Seq<SurfacePattern>) -> Seq<Seq<char>>
    decreases ps, 0int,
{
    if ps.len() == 0 {
        Seq::empty()
    } else {
        describe_all(ps.drop_last()).push(describe(ps.last()))
    }
}

impl SurfacePattern {
    pub fn describe(&self) -> (r: String)
        ensures
            r@ == describe(*self),
        decreases *self,
    {
        match &self.kind {
            PatternKind::Wildcard => String::from_str("_"),
            PatternKind::Ident(n) => n.clone(),
            PatternKind::Bool(b) => if *b {
                String::from_str("true")
            } else {
                String::from_str("false")
            },
            PatternKind::Number { negative, literal } => {
                let mut s = if *negative {
                    String::from_str("-")
                } else {
                    String::new()
                };
                proof {
                    reveal_strlit("");
                }
                s.append(literal.text.as_str());
                s
            },
            PatternKind::Constructor { name, fields } => {
                let mut s = name.clone();
                s.append("(");
                let inner = describe_joined(fields);
                s.append(inner.as_str());
                s.append(")");
                s
            },
        }
    }
}

/// The descriptions of `ps` joined by `, `.
pub fn describe_joined(ps: &Vec<SurfacePattern>) -> (r: String)
    ensures
        r@ == crate::diagnostics::spec_join(describe_all(ps@), ", "@),
    decreases ps@, 0int,
{
    let mut out = String::new();
    let mut i: usize = 0;
    while i < ps.len()
        invariant
            i <= ps@.len(),
            out@ == crate::diagnostics::spec_join(describe_all(ps@.subrange(0, i as int)), ", "@),
        decreases ps@.len() - i,
    {
        proof {
            assert(ps@.subrange(0, i + 1).drop_last() =~= ps@.subrange(0, i as int));
            assert(describe_all(ps@.subrange(0, i + 1)) == describe_all(ps@.subrange(0, i as int)).push(
                describe(ps@[i as int]),
            ));
            assert(describe_all(ps@.subrange(0, i + 1)).drop_last() =~= describe_all(
                ps@.subrange(0, i as int),
            ));
            assert(decreases_to!(ps@ => ps@[i as int]));
        }
        let d = ps[i].describe();
        if i > 0 {
            out.append(", ");
        }
        out.append(d.as_str());
        i = i + 1;
    }
    assert(ps@.subrange(0, i as int) =~= ps@);
    out
}

/// The inputs and output a signature spells, as the one canonical type
/// `domain(inputs) -> B`, reading from `t` with `ins` read so far: `A -> B
/// -> C` and `(A, B) -> C` are `([A, B], C)`; `() -> B` and a bare `B` are
/// `([], B)`.  A `()` after an input, or a product after one, stays an
/// input for the caller to refuse.
pub open spec fn uncurried(t: SurfaceType, ins: Seq<SurfaceType>) -> (Seq<SurfaceType>, SurfaceType)
    decreases t,
{
    match t.kind {
        TypeKind::Function { domain, codomain } => {
            let more = match domain.kind {
                TypeKind::Unit => if ins.len() == 0 {
                    ins
                } else {
                    ins.push(*domain)
                },
                TypeKind::Tuple(parts) => if ins.len() == 0 {
                    parts@
                } else {
                    ins.push(*domain)
                },
                _ => ins.push(*domain),
            };
            uncurried(*codomain, more)
        },
        _ => (ins, t),
    }
}

impl SurfaceType {
    /// The inputs and output of the signature this type spells.
    pub fn uncurry(&self) -> (r: (Vec<&SurfaceType>, &SurfaceType))
        ensures
            r.0@.map_values(|x: &SurfaceType| *x) == uncurried(*self, Seq::empty()).0,
            *r.1 == uncurried(*self, Seq::empty()).1,
    {
        let mut inputs: Vec<&SurfaceType> = Vec::new();
        assert(inputs@.map_values(|x: &SurfaceType| *x) =~= Seq::<SurfaceType>::empty());
        let out = uncurry_from(self, &mut inputs);
        (inputs, out)
    }
}

fn uncurry_from<'a>(t: &'a SurfaceType, ins: &mut Vec<&'a SurfaceType>) -> (r: &'a SurfaceType)
    ensures
        final(ins)@.map_values(|x: &SurfaceType| *x) == uncurried(
            *t,
            old(ins)@.map_values(|x: &SurfaceType| *x),
        ).0,
        *r == uncurried(*t, old(ins)@.map_values(|x: &SurfaceType| *x)).1,
    decreases *t,
{
    let ghost before = ins@.map_values(|x: &SurfaceType| *x);
    match &t.kind {
        TypeKind::Function { domain, codomain } => {
            let d: &'a SurfaceType = domain;
            match &d.kind {
                TypeKind::Unit => {
                    if ins.len() > 0 {
                        ins.push(d);
                    }
                },
                TypeKind::Tuple(parts) => {
                    if ins.len() == 0 {
                        let mut i: usize = 0;
                        while i < parts.len()
                            invariant
                                i <= parts@.len(),
                                ins@.map_values(|x: &SurfaceType| *x) == parts@.subrange(0, i as int),
                            decreases parts@.len() - i,
                        {
                            let ghost b = ins@.map_values(|x: &SurfaceType| *x);
                            ins.push(&parts[i]);
                            assert(ins@.map_values(|x: &SurfaceType| *x) =~= b.push(parts@[i as int]));
                            assert(ins@.map_values(|x: &SurfaceType| *x) =~= parts@.subrange(0, i + 1));
                            i = i + 1;
                        }
                        assert(parts@.subrange(0, i as int) =~= parts@);
                    } else {
                        ins.push(d);
                    }
                },
                _ => {
                    ins.push(d);
                },
            }
            proof {
                let now = ins@.map_values(|x: &SurfaceType| *x);
                if d.kind is Unit {
                    if before.len() == 0 {
                        assert(now =~= before);
                    } else {
                        assert(now =~= before.push(*d));
                    }
                } else if d.kind is Tuple {
                    if before.len() != 0 {
                        assert(now =~= before.push(*d));
                    }
                } else {
                    assert(now =~= before.push(*d));
                }
            }
            uncurry_from(codomain, ins)
        },
        _ => t,
    }
}

// ---- walking a surface expression ----------------------------------------------

/// Every subexpression of `e`, `e` first, in source order (the bodies of
/// match arms and the values of `let`s included).
pub open spec fn subexprs(e: SurfaceExpr) -> Seq<SurfaceExpr>
    decreases e, 1int,
{
    seq![e] + match e.kind {
        ExprKind::Unary { op: _, expr } => subexprs(*expr),
        ExprKind::Binary { op: _, lhs, rhs } => subexprs(*lhs) + subexprs(*rhs),
        ExprKind::If { cond, then, els } => subexprs(*cond) + subexprs(*then) + subexprs(*els),
        ExprKind::Call { callee, args } => subexprs(*callee) + subexprs_all(args@),
        ExprKind::Match { scrutinee, arms } => subexprs(*scrutinee) + subexprs_arms(arms@),
        ExprKind::Block { lets, tail } => subexprs_lets(lets@) + subexprs(*tail),
        ExprKind::List(items) => subexprs_all(items@),
        ExprKind::Tuple(items) => subexprs_all(items@),
        ExprKind::Lambda { params: _, body } => subexprs(*body),
        ExprKind::Binder { form: _, param: _, collection, body } => subexprs(*collection) + subexprs(*body),
        ExprKind::Range { lo, hi } => subexprs(*lo) + subexprs(*hi),
        _ => Seq::empty(),
    }
}

pub open spec fn subexprs_all(es: Seq<SurfaceExpr>) -> Seq<SurfaceExpr>
    decreases es, 0int,
{
    if es.len() == 0 {
        Seq::empty()
    } else {
        subexprs_all(es.drop_last()) + subexprs(es.last())
    }
}

pub open spec fn subexprs_arms(arms: Seq<SurfaceArm>) -> Seq<SurfaceExpr>
    decreases arms, 0int,
{
    if arms.len() == 0 {
        Seq::empty()
    } else {
        subexprs_arms(arms.drop_last()) + subexprs(arms.last().body)
    }
}

pub open spec fn subexprs_lets(lets: Seq<SurfaceLet>) -> Seq<SurfaceExpr>
    decreases lets, 0int,
{
    if lets.len() == 0 {
        Seq::empty()
    } else {
        subexprs_lets(lets.drop_last()) + subexprs(lets.last().value)
    }
}

pub open spec fn deref_exprs(s: Seq<&SurfaceExpr>) -> Seq<SurfaceExpr> {
    s.map_values(|x: &SurfaceExpr| *x)
}

fn push_walk<'a>(e: &'a SurfaceExpr, out: &mut Vec<&'a SurfaceExpr>)
    ensures
        deref_exprs(final(out)@) == deref_exprs(old(out)@) + subexprs(*e),
    decreases *e, 1int,
{
    let ghost start = deref_exprs(out@);
    out.push(e);
    assert(deref_exprs(out@) =~= start + seq![*e]);
    match &e.kind {
        ExprKind::Unary { op: _, expr } => {
            push_walk(expr, out);
        },
        ExprKind::Binary { op: _, lhs, rhs } => {
            push_walk(lhs, out);
            push_walk(rhs, out);
        },
        ExprKind::If { cond, then, els } => {
            push_walk(cond, out);
            push_walk(then, out);
            push_walk(els, out);
        },
        ExprKind::Call { callee, args } => {
            push_walk(callee, out);
            push_walk_all(args, out);
        },
        ExprKind::Match { scrutinee, arms } => {
            push_walk(scrutinee, out);
            let ghost mid = deref_exprs(out@);
            proof {
                assert forall|j: int| 0 <= j < arms@.len() implies decreases_to!(*e => (#[trigger] arms@[j]).body) by {
                    assert(decreases_to!(*e => e.kind));
                    assert(decreases_to!(e.kind => *arms));
                    assert(decreases_to!(*arms => arms@));
                    assert(decreases_to!(arms@ => arms@[j]));
                    assert(decreases_to!(arms@[j] => arms@[j].body));
                }
            }
            let mut i: usize = 0;
            while i < arms.len()
                invariant
                    forall|j: int| 0 <= j < arms@.len() ==> decreases_to!(*e => (#[trigger] arms@[j]).body),
                    i <= arms@.len(),
                    deref_exprs(out@) == mid + subexprs_arms(arms@.subrange(0, i as int)),
                decreases arms@.len() - i,
            {
                assert(arms@.subrange(0, i + 1).drop_last() =~= arms@.subrange(0, i as int));
                assert(decreases_to!(*e => arms@[i as int].body));
                push_walk(&arms[i].body, out);
                i = i + 1;
            }
            assert(arms@.subrange(0, i as int) =~= arms@);
        },
        ExprKind::Block { lets, tail } => {
            let ghost mid = deref_exprs(out@);
            proof {
                assert forall|j: int| 0 <= j < lets@.len() implies decreases_to!(*e => (#[trigger] lets@[j]).value) by {
                    assert(decreases_to!(*e => e.kind));
                    assert(decreases_to!(e.kind => *lets));
                    assert(decreases_to!(*lets => lets@));
                    assert(decreases_to!(lets@ => lets@[j]));
                    assert(decreases_to!(lets@[j] => lets@[j].value));
                }
            }
            let mut i: usize = 0;
            while i < lets.len()
                invariant
                    forall|j: int| 0 <= j < lets@.len() ==> decreases_to!(*e => (#[trigger] lets@[j]).value),
                    i <= lets@.len(),
                    deref_exprs(out@) == mid + subexprs_lets(lets@.subrange(0, i as int)),
                decreases lets@.len() - i,
            {
                assert(lets@.subrange(0, i + 1).drop_last() =~= lets@.subrange(0, i as int));
                assert(decreases_to!(*e => lets@[i as int].value));
                push_walk(&lets[i].value, out);
                i = i + 1;
            }
            assert(lets@.subrange(0, i as int) =~= lets@);
            push_walk(tail, out);
        },
        ExprKind::List(items) => {
            push_walk_all(items, out);
        },
        ExprKind::Tuple(items) => {
            push_walk_all(items, out);
        },
        ExprKind::Lambda { params: _, body } => {
            push_walk(body, out);
        },
        ExprKind::Binder { form: _, param: _, collection, body } => {
            push_walk(collection, out);
            push_walk(body, out);
        },
        ExprKind::Range { lo, hi } => {
            push_walk(lo, out);
            push_walk(hi, out);
        },
        _ => {},
    }
}

fn push_walk_all<'a>(es: &'a Vec<SurfaceExpr>, out: &mut Vec<&'a SurfaceExpr>)
    ensures
        deref_exprs(final(out)@) == deref_exprs(old(out)@) + subexprs_all(es@),
    decreases es@, 0int,
{
    let ghost mid = deref_exprs(out@);
    let mut i: usize = 0;
    while i < es.len()
        invariant
            i <= es@.len(),
            deref_exprs(out@) == mid + subexprs_all(es@.subrange(0, i as int)),
        decreases es@.len() - i,
    {
        assert(es@.subrange(0, i + 1).drop_last() =~= es@.subrange(0, i as int));
        assert(decreases_to!(es@ => es@[i as int]));
        push_walk(&es[i], out);
        i = i + 1;
    }
    assert(es@.subrange(0, i as int) =~= es@);
}

impl SurfaceExpr {
    /// Every subexpression, this one first, in source order.
    pub fn walk(&self) -> (r: Vec<&SurfaceExpr>)
        ensures
            deref_exprs(r@) == subexprs(*self),
    {
        let mut out: Vec<&SurfaceExpr> = Vec::new();
        push_walk(self, &mut out);
        assert(deref_exprs(out@) =~= subexprs(*self));
        out
    }

    /// Every `Name` in the expression, left to right, with spans.
    pub fn names(&self) -> (r: Vec<(&str, Span)>)
        ensures
            r@.map_values(|p: (&str, Span)| (p.0@, p.1)) == names_in(subexprs(*self)),
    {
        let all = self.walk();
        let ghost sv = deref_exprs(all@);
        let mut out: Vec<(&str, Span)> = Vec::new();
        let mut i: usize = 0;
        while i < all.len()
            invariant
                i <= all@.len(),
                sv == deref_exprs(all@),
                out@.map_values(|p: (&str, Span)| (p.0@, p.1)) == names_in(sv.subrange(0, i as int)),
            decreases all@.len() - i,
        {
            assert(sv.subrange(0, i + 1).drop_last() =~= sv.subrange(0, i as int));
            assert(sv[i as int] == *all@[i as int]);
            let e = all[i];
            let ghost before = out@;
            if let ExprKind::Name(n) = &e.kind {
                out.push((n.as_str(), e.span));
                assert(out@.map_values(|p: (&str, Span)| (p.0@, p.1)) =~= before.map_values(
                    |p: (&str, Span)| (p.0@, p.1),
                ).push((n@, e.span)));
            }
            i = i + 1;
        }
        assert(sv.subrange(0, i as int) =~= sv);
        out
    }
}

/// The names among `es`, with their spans, in order.
pub open spec fn names_in(es: Seq<SurfaceExpr>) -> Seq<(Seq<char>, Span)>
    decreases es.len(),
{
    if es.len() == 0 {
        Seq::empty()
    } else {
        match es.last().kind {
            ExprKind::Name(n) => names_in(es.drop_last()).push((n@, es.last().span)),
            _ => names_in(es.drop_last()),
        }
    }
}

} // verus!
