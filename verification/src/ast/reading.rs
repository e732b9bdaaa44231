//! The views that read tokens: names, operators, literals, and the few
//! accessors that look at more than one child.
use super::nodes::{
    BinaryExpr, BinderExpr, DeviceDecl, DriveDecl, Expr, FunctionType, IfExpr, LiteralExpr, LiteralPattern,
    Name, NameRef, OutputDecl, PinFix, PortDecl, Type, UnaryExpr, UnitSuffix,
};
use super::support::{
    child_token, child_tokens, deref_tok, first_kid, first_leaf, first_leaf_token, first_tok,
    nth_child_node, nth_kid, opt_view, toks, token_string, KindClass,
};
use crate::kind::{spec_is_keyword, SyntaxKind};
use crate::literal::NumberLiteral;
use crate::syntax::{SyntaxElement, SyntaxNode, SyntaxToken};
use vstd::prelude::*;

verus! {

// ---- names -----------------------------------------------------------------

/// The identifier of a `Name` or `NameRef` node: its `Ident` token, or else
/// its first token when that is a keyword (a keyword used as a name is
/// diagnosed, but still names something).
pub open spec fn spec_ident(n: SyntaxNode) -> Option<SyntaxToken> {
    match first_tok(n, SyntaxKind::Ident) {
        Some(t) => Some(t),
        None => match first_leaf(n) {
            Some(t) => if spec_is_keyword(t.kind) {
                Some(t)
            } else {
                None
            },
            None => None,
        },
    }
}

/// The spelling of that identifier; empty when there is none.
pub open spec fn spec_ident_text(n: SyntaxNode) -> Seq<char> {
    match spec_ident(n) {
        Some(t) => t.text@,
        None => Seq::empty(),
    }
}

fn ident_of<'a>(n: &'a SyntaxNode) -> (r: Option<&'a SyntaxToken>)
    ensures
        deref_tok(r) == spec_ident(*n),
{
    match child_token(n, SyntaxKind::Ident) {
        Some(t) => Some(t),
        None => match first_leaf_token(n) {
            Some(t) => if t.kind.is_keyword() {
                Some(t)
            } else {
                None
            },
            None => None,
        },
    }
}

fn ident_text(n: &SyntaxNode) -> (r: String)
    ensures
        r@ == spec_ident_text(*n),
{
    match ident_of(n) {
        Some(t) => token_string(t),
        None => String::new(),
    }
}

impl<'a> Name<'a> {
    pub fn ident(&self) -> (r: Option<&'a SyntaxToken>)
        ensures
            deref_tok(r) == spec_ident(self@),
    {
        ident_of(self.0)
    }

    pub fn as_str(&self) -> (r: String)
        ensures
            r@ == spec_ident_text(self@),
    {
        ident_text(self.0)
    }
}

impl<'a> NameRef<'a> {
    pub fn ident(&self) -> (r: Option<&'a SyntaxToken>)
        ensures
            deref_tok(r) == spec_ident(self@),
    {
        ident_of(self.0)
    }

    pub fn as_str(&self) -> (r: String)
        ensures
            r@ == spec_ident_text(self@),
    {
        ident_text(self.0)
    }
}

impl<'a> UnitSuffix<'a> {
    pub fn ident(&self) -> (r: Option<&'a SyntaxToken>)
        ensures
            deref_tok(r) == first_tok(self@, SyntaxKind::Ident),
    {
        child_token(self.0, SyntaxKind::Ident)
    }

    pub fn as_str(&self) -> (r: String)
        ensures
            r@ == match first_tok(self@, SyntaxKind::Ident) {
                Some(t) => t.text@,
                None => Seq::<char>::empty(),
            },
    {
        match child_token(self.0, SyntaxKind::Ident) {
            Some(t) => token_string(t),
            None => String::new(),
        }
    }
}

// ---- tokens picked by a set of kinds -----------------------------------------

/// The token classes some views search for.
#[derive(Clone, Copy, Debug, PartialEq, Eq, Structural)]
pub enum TokSet {
    /// `requires`, `provides`, `param`.
    PortWord,
    /// `!`, `-`.
    UnarySign,
    /// Every token that is a binary operator.
    BinarySign,
}

impl TokSet {
    pub open spec fn spec_has(self, k: SyntaxKind) -> bool {
        match self {
            TokSet::PortWord => matches!(
                k,
                SyntaxKind::KwRequires | SyntaxKind::KwProvides | SyntaxKind::KwParam
            ),
            TokSet::UnarySign => matches!(k, SyntaxKind::Bang | SyntaxKind::Minus),
            TokSet::BinarySign => spec_binary_op(k) is Some,
        }
    }

    pub fn has(self, k: SyntaxKind) -> (r: bool)
        ensures
            r == self.spec_has(k),
    {
        match self {
            TokSet::PortWord => matches!(
                k,
                SyntaxKind::KwRequires | SyntaxKind::KwProvides | SyntaxKind::KwParam
            ),
            TokSet::UnarySign => matches!(k, SyntaxKind::Bang | SyntaxKind::Minus),
            TokSet::BinarySign => BinaryOp::from_kind(k).is_some(),
        }
    }
}

/// The first of `ts` whose kind is in `c`.
pub open spec fn first_in(ts: Seq<SyntaxToken>, c: TokSet) -> Option<SyntaxToken>
    decreases ts.len(),
{
    if ts.len() == 0 {
        None
    } else if c.spec_has(ts[0].kind) {
        Some(ts[0])
    } else {
        first_in(ts.subrange(1, ts.len() as int), c)
    }
}

/// The first child token of `n` whose kind is in `c`.
fn first_token_in<'a>(n: &'a SyntaxNode, c: TokSet) -> (r: Option<&'a SyntaxToken>)
    ensures
        deref_tok(r) == first_in(toks(*n), c),
        r matches Some(t) ==> c.spec_has(t.kind),
{
    let ts = child_tokens(n);
    let ghost s = toks(*n);
    assert(s.subrange(0, s.len() as int) =~= s);
    let mut i: usize = 0;
    while i < ts.len()
        invariant
            ts@.map_values(|x: &SyntaxToken| *x) == s,
            s == toks(*n),
            i <= ts@.len(),
            first_in(s, c) == first_in(s.subrange(i as int, s.len() as int), c),
        decreases ts@.len() - i,
    {
        let ghost rest = s.subrange(i as int, s.len() as int);
        assert(rest[0] == s[i as int]);
        assert(s[i as int] == *ts@[i as int]);
        assert(rest.subrange(1, rest.len() as int) =~= s.subrange(i + 1, s.len() as int));
        let t = ts[i];
        if c.has(t.kind) {
            assert(*t == rest[0]);
            assert(first_in(rest, c) == Some(rest[0]));
            return Some(t);
        }
        i = i + 1;
    }
    None
}

// ---- items -------------------------------------------------------------------

/// Which port a `PortDecl` declares.
#[derive(Clone, Copy, Debug, PartialEq, Eq, Hash, Structural)]
pub enum PortWord {
    Requires,
    Provides,
    Param,
}

pub open spec fn spec_port_word(k: SyntaxKind) -> Option<PortWord> {
    match k {
        SyntaxKind::KwRequires => Some(PortWord::Requires),
        SyntaxKind::KwProvides => Some(PortWord::Provides),
        SyntaxKind::KwParam => Some(PortWord::Param),
        _ => None,
    }
}

impl<'a> PortDecl<'a> {
    /// The keyword the declaration starts with, looked up by kind, because
    /// a comment directly above the port is attached inside the node and is
    /// then its first token.
    pub fn word(&self) -> (r: Option<PortWord>)
        ensures
            r == match first_in(toks(self@), TokSet::PortWord) {
                Some(t) => spec_port_word(t.kind),
                None => None,
            },
    {
        match first_token_in(self.0, TokSet::PortWord) {
            Some(t) => match t.kind {
                SyntaxKind::KwRequires => Some(PortWord::Requires),
                SyntaxKind::KwProvides => Some(PortWord::Provides),
                _ => Some(PortWord::Param),
            },
            None => None,
        }
    }
}

/// The realization profile a device body names, if it names one: the
/// reference written directly in the body (pins hold theirs inside).
pub open spec fn realization_node(n: SyntaxNode) -> Option<SyntaxNode> {
    match first_kid(n, KindClass::Is(SyntaxKind::DeviceBody)) {
        Some(b) => first_kid(b, KindClass::Is(SyntaxKind::NameRef)),
        None => None,
    }
}

impl<'a> DeviceDecl<'a> {
    /// `realization profile` in the body: how the output is realized.
    pub fn realization(&self) -> (r: Option<NameRef<'a>>)
        ensures
            opt_view(r) == realization_node(self@),
    {
        match nth_child_node(self.0, KindClass::Is(SyntaxKind::DeviceBody), 0) {
            Some(b) => match nth_child_node(b, KindClass::Is(SyntaxKind::NameRef), 0) {
                Some(x) => Some(NameRef(x)),
                None => None,
            },
            None => None,
        }
    }
}

/// Whether one of `ts` is the contextual word `optional`.
pub open spec fn spec_has_optional(ts: Seq<SyntaxToken>) -> bool {
    exists|i: int|
        0 <= i < ts.len() && #[trigger] ts[i].kind == SyntaxKind::Ident && ts[i].text@
            == "optional"@
}

impl<'a> OutputDecl<'a> {
    /// `true` when the item ends with the contextual word `optional`.
    pub fn is_optional(&self) -> (r: bool)
        ensures
            r == spec_has_optional(toks(self@)),
    {
        let ts = child_tokens(self.0);
        let ghost s = toks(*self.0);
        let mut i: usize = 0;
        while i < ts.len()
            invariant
                ts@.map_values(|x: &SyntaxToken| *x) == s,
                s == toks(self@),
                i <= ts@.len(),
                forall|j: int|
                    0 <= j < i ==> !(#[trigger] s[j].kind == SyntaxKind::Ident && s[j].text@
                        == "optional"@),
            decreases ts@.len() - i,
        {
            assert(s[i as int] == *ts@[i as int]);
            let t = ts[i];
            if t.kind == SyntaxKind::Ident && crate::text::str_eq(t.text.as_str(), "optional") {
                assert(s[i as int].kind == SyntaxKind::Ident && s[i as int].text@ == "optional"@);
                return true;
            }
            i = i + 1;
        }
        false
    }
}

impl<'a> DriveDecl<'a> {
    /// The `=` of the older spelling `drive o = m`; `None` for `drive o by m`.
    pub fn legacy_eq(&self) -> (r: Option<&'a SyntaxToken>)
        ensures
            deref_tok(r) == first_tok(self@, SyntaxKind::Eq),
    {
        child_token(self.0, SyntaxKind::Eq)
    }
}

impl<'a> PinFix<'a> {
    pub fn index(&self) -> (r: Option<&'a SyntaxToken>)
        ensures
            deref_tok(r) == first_tok(self@, SyntaxKind::Number),
    {
        child_token(self.0, SyntaxKind::Number)
    }
}

impl<'a> BinderExpr<'a> {
    /// The word: `all`, `any`, `map` or `filter` (an identifier token).
    pub fn word(&self) -> (r: Option<&'a SyntaxToken>)
        ensures
            deref_tok(r) == first_tok(self@, SyntaxKind::Ident),
    {
        child_token(self.0, SyntaxKind::Ident)
    }
}

// ---- types -------------------------------------------------------------------

/// `A -> B -> C` read as its inputs and its result: `ins` are the domains
/// along the chain of function types from `t`, `res` is where it ends.
pub open spec fn uncurries(t: SyntaxNode, ins: Seq<SyntaxNode>, res: SyntaxNode) -> bool
    decreases ins.len(),
{
    if t.kind == SyntaxKind::FunctionType && nth_kid(t, KindClass::Type, 1) is Some {
        &&& ins.len() > 0
        &&& Some(ins[0]) == nth_kid(t, KindClass::Type, 0)
        &&& uncurries(
            nth_kid(t, KindClass::Type, 1)->0,
            ins.subrange(1, ins.len() as int),
            res,
        )
    } else {
        ins.len() == 0 && res == t
    }
}

/// The inputs the first domain of a signature stands for: none for `()`,
/// the parts of a product `(A, B)`, else the domain itself.
pub open spec fn first_inputs(d: SyntaxNode) -> Seq<SyntaxNode> {
    if d.kind == SyntaxKind::UnitType {
        Seq::empty()
    } else if d.kind == SyntaxKind::TupleType {
        super::support::kids(d, KindClass::Type)
    } else {
        seq![d]
    }
}

/// A signature read as its inputs and its result: `() -> B` and a bare `B`
/// have no inputs, a product domain `(A, B) -> C` reads as `A -> B -> C`;
/// a `()` or a product after the first input stays an input.
pub open spec fn signature_reads(t: SyntaxNode, ins: Seq<SyntaxNode>, res: SyntaxNode) -> bool {
    if t.kind == SyntaxKind::FunctionType && nth_kid(t, KindClass::Type, 1) is Some {
        let f = first_inputs(nth_kid(t, KindClass::Type, 0)->0);
        &&& ins.len() >= f.len()
        &&& ins.subrange(0, f.len() as int) == f
        &&& uncurries(
            nth_kid(t, KindClass::Type, 1)->0,
            ins.subrange(f.len() as int, ins.len() as int),
            res,
        )
    } else {
        ins.len() == 0 && res == t
    }
}

impl<'a> Type<'a> {
    /// `A -> B -> C` as `([A, B], C)`; `() -> B` and a bare `B` are
    /// `([], B)`; a product domain `(A, B) -> C` is `([A, B], C)`.
    pub fn uncurry(&self) -> (r: (Vec<Type<'a>>, Type<'a>))
        requires
            self.shaped(),
        ensures
            signature_reads(self@, super::support::views(r.0@), r.1@),
            r.1.shaped(),
            forall|i: int| 0 <= i < r.0@.len() ==> #[trigger] r.0@[i].shaped(),
    {
        let mut inputs: Vec<Type<'a>> = Vec::new();
        if let Type::Function(f) = *self {
            match f.codomain() {
                Some(cod) => {
                    proof {
                        super::support::lemma_kid_smaller(self@, KindClass::Type, 1);
                    }
                    let dom = f.domain();
                    match dom {
                        Some(Type::Unit(_)) => {},
                        Some(Type::Tuple(t)) => {
                            inputs = t.parts();
                        },
                        Some(d) => {
                            inputs.push(d);
                        },
                        None => {},
                    }
                    let ghost first = inputs@;
                    assert(super::support::views(first) == first_inputs(
                        nth_kid(self@, KindClass::Type, 0)->0,
                    )) by {
                        if first.len() == 1 {
                            assert(super::support::views(first) =~= seq![first[0]@]);
                        } else if first.len() == 0 {
                            assert(super::support::views(first) =~= Seq::<SyntaxNode>::empty());
                        }
                    }
                    let res = uncurry_into(cod, &mut inputs);
                    proof {
                        let all = inputs@;
                        let n = first.len() as int;
                        assert(super::support::views(all).subrange(0, n) =~= super::support::views(
                            all.subrange(0, n),
                        ));
                        assert(super::support::views(all).subrange(n, all.len() as int)
                            =~= super::support::views(all.subrange(n, all.len() as int)));
                    }
                    return (inputs, res);
                },
                None => {},
            }
        }
        assert(super::support::views(inputs@) =~= Seq::<SyntaxNode>::empty());
        (inputs, *self)
    }
}

fn uncurry_into<'a>(t: Type<'a>, inputs: &mut Vec<Type<'a>>) -> (r: Type<'a>)
    requires
        t.shaped(),
        forall|i: int| 0 <= i < old(inputs)@.len() ==> #[trigger] old(inputs)@[i].shaped(),
    ensures
        final(inputs)@.len() >= old(inputs)@.len(),
        final(inputs)@.subrange(0, old(inputs)@.len() as int) == old(inputs)@,
        uncurries(
            t@,
            super::support::views(final(inputs)@.subrange(old(inputs)@.len() as int, final(inputs)@.len() as int)),
            r@,
        ),
        r.shaped(),
        forall|i: int| 0 <= i < final(inputs)@.len() ==> #[trigger] final(inputs)@[i].shaped(),
    decreases t@,
{
    let ghost start = inputs@;
    if let Type::Function(f) = t {
        match f.codomain() {
            Some(cod) => {
                let dom = f.domain();
                proof {
                    super::support::lemma_kid_smaller(t@, KindClass::Type, 1);
                    assert(super::support::kids(t@, KindClass::Type).len() >= 2);
                }
                match dom {
                    Some(d) => {
                        inputs.push(d);
                    },
                    None => {},
                }
                let ghost mid = inputs@;
                let r = uncurry_into(cod, inputs);
                proof {
                    let s = start.len() as int;
                    let all = inputs@;
                    assert(all.subrange(0, s) =~= all.subrange(0, s + 1).subrange(0, s));
                    assert(all.subrange(0, s + 1) == mid);
                    let vs = super::support::views(all.subrange(s, all.len() as int));
                    assert(vs.subrange(1, vs.len() as int) =~= super::support::views(
                        all.subrange(s + 1, all.len() as int),
                    ));
                    assert(vs[0] == mid[s]@);
                }
                r
            },
            None => {
                assert(super::support::views(inputs@.subrange(start.len() as int, inputs@.len() as int)) =~= Seq::<SyntaxNode>::empty());
                assert(inputs@.subrange(0, start.len() as int) =~= start);
                t
            },
        }
    } else {
        assert(super::support::views(inputs@.subrange(start.len() as int, inputs@.len() as int)) =~= Seq::<SyntaxNode>::empty());
        assert(inputs@.subrange(0, start.len() as int) =~= start);
        t
    }
}

// ---- operators ---------------------------------------------------------------

#[derive(Clone, Copy, Debug, PartialEq, Eq, Hash, Structural)]
pub enum UnaryOp {
    Not,
    Neg,
}

#[derive(Clone, Copy, Debug, PartialEq, Eq, Hash, Structural)]
pub enum BinaryOp {
    Add,
    Sub,
    Mul,
    Div,
    Lt,
    Le,
    Gt,
    Ge,
    Eq,
    Ne,
    And,
    Or,
    /// `x in xs`: membership in a collection.
    In,
    /// `x ?? d`: the value when present, `d` when absent.
    Coalesce,
}

/// The binary operator a token spells, if it spells one.
pub open spec fn spec_binary_op(kind: SyntaxKind) -> Option<BinaryOp> {
    match kind {
        SyntaxKind::Plus => Some(BinaryOp::Add),
        SyntaxKind::Minus => Some(BinaryOp::Sub),
        SyntaxKind::Star => Some(BinaryOp::Mul),
        SyntaxKind::Slash => Some(BinaryOp::Div),
        SyntaxKind::Lt => Some(BinaryOp::Lt),
        SyntaxKind::Le => Some(BinaryOp::Le),
        SyntaxKind::Gt => Some(BinaryOp::Gt),
        SyntaxKind::Ge => Some(BinaryOp::Ge),
        SyntaxKind::EqEq => Some(BinaryOp::Eq),
        SyntaxKind::Ne => Some(BinaryOp::Ne),
        SyntaxKind::AndAnd => Some(BinaryOp::And),
        SyntaxKind::OrOr => Some(BinaryOp::Or),
        SyntaxKind::KwIn => Some(BinaryOp::In),
        SyntaxKind::QuestionQuestion => Some(BinaryOp::Coalesce),
        _ => None,
    }
}

/// How an operator is written.
pub open spec fn spec_symbol(op: BinaryOp) -> Seq<char> {
    match op {
        BinaryOp::Add => "+"@,
        BinaryOp::Sub => "-"@,
        BinaryOp::Mul => "*"@,
        BinaryOp::Div => "/"@,
        BinaryOp::Lt => "<"@,
        BinaryOp::Le => "<="@,
        BinaryOp::Gt => ">"@,
        BinaryOp::Ge => ">="@,
        BinaryOp::Eq => "=="@,
        BinaryOp::Ne => "!="@,
        BinaryOp::And => "&&"@,
        BinaryOp::Or => "||"@,
        BinaryOp::In => "in"@,
        BinaryOp::Coalesce => "??"@,
    }
}

/// The operator a token reads as is spelled exactly as the token was
/// written: reading a binary operator never turns it into another one.
pub proof fn lemma_binary_op_spelled_as_written(k: SyntaxKind)
    ensures
        spec_binary_op(k) matches Some(op) ==> crate::kind::spec_fixed_text(k) == Some(spec_symbol(op)),
{
}

/// Different operator tokens read as different operators.
pub proof fn lemma_binary_op_injective(k1: SyntaxKind, k2: SyntaxKind)
    ensures
        spec_binary_op(k1) is Some && spec_binary_op(k1) == spec_binary_op(k2) ==> k1 == k2,
{
}

impl BinaryOp {
    pub fn from_kind(kind: SyntaxKind) -> (r: Option<BinaryOp>)
        ensures
            r == spec_binary_op(kind),
    {
        match kind {
            SyntaxKind::Plus => Some(BinaryOp::Add),
            SyntaxKind::Minus => Some(BinaryOp::Sub),
            SyntaxKind::Star => Some(BinaryOp::Mul),
            SyntaxKind::Slash => Some(BinaryOp::Div),
            SyntaxKind::Lt => Some(BinaryOp::Lt),
            SyntaxKind::Le => Some(BinaryOp::Le),
            SyntaxKind::Gt => Some(BinaryOp::Gt),
            SyntaxKind::Ge => Some(BinaryOp::Ge),
            SyntaxKind::EqEq => Some(BinaryOp::Eq),
            SyntaxKind::Ne => Some(BinaryOp::Ne),
            SyntaxKind::AndAnd => Some(BinaryOp::And),
            SyntaxKind::OrOr => Some(BinaryOp::Or),
            SyntaxKind::KwIn => Some(BinaryOp::In),
            SyntaxKind::QuestionQuestion => Some(BinaryOp::Coalesce),
            _ => None,
        }
    }

    pub fn symbol(self) -> (r: &'static str)
        ensures
            r@ == spec_symbol(self),
    {
        match self {
            BinaryOp::Add => "+",
            BinaryOp::Sub => "-",
            BinaryOp::Mul => "*",
            BinaryOp::Div => "/",
            BinaryOp::Lt => "<",
            BinaryOp::Le => "<=",
            BinaryOp::Gt => ">",
            BinaryOp::Ge => ">=",
            BinaryOp::Eq => "==",
            BinaryOp::Ne => "!=",
            BinaryOp::And => "&&",
            BinaryOp::Or => "||",
            BinaryOp::In => "in",
            BinaryOp::Coalesce => "??",
        }
    }

    pub fn is_comparison(self) -> (r: bool)
        ensures
            r == matches!(
                self,
                BinaryOp::Lt | BinaryOp::Le | BinaryOp::Gt | BinaryOp::Ge | BinaryOp::Eq
                    | BinaryOp::Ne | BinaryOp::In
            ),
    {
        matches!(
            self,
            BinaryOp::Lt | BinaryOp::Le | BinaryOp::Gt | BinaryOp::Ge | BinaryOp::Eq | BinaryOp::Ne
                | BinaryOp::In
        )
    }
}

impl<'a> UnaryExpr<'a> {
    pub fn op_token(&self) -> (r: Option<&'a SyntaxToken>)
        ensures
            deref_tok(r) == first_in(toks(self@), TokSet::UnarySign),
    {
        first_token_in(self.0, TokSet::UnarySign)
    }

    pub fn op(&self) -> (r: Option<UnaryOp>)
        ensures
            r == match first_in(toks(self@), TokSet::UnarySign) {
                Some(t) => Some(
                    if t.kind == SyntaxKind::Bang {
                        UnaryOp::Not
                    } else {
                        UnaryOp::Neg
                    },
                ),
                None => None,
            },
    {
        match self.op_token() {
            Some(t) => Some(
                if t.kind == SyntaxKind::Bang {
                    UnaryOp::Not
                } else {
                    UnaryOp::Neg
                },
            ),
            None => None,
        }
    }
}

impl<'a> BinaryExpr<'a> {
    pub fn op_token(&self) -> (r: Option<&'a SyntaxToken>)
        ensures
            deref_tok(r) == first_in(toks(self@), TokSet::BinarySign),
    {
        first_token_in(self.0, TokSet::BinarySign)
    }

    pub fn op(&self) -> (r: Option<BinaryOp>)
        ensures
            r == match first_in(toks(self@), TokSet::BinarySign) {
                Some(t) => spec_binary_op(t.kind),
                None => None,
            },
    {
        match self.op_token() {
            Some(t) => BinaryOp::from_kind(t.kind),
            None => None,
        }
    }
}

// ---- if ----------------------------------------------------------------------

/// The first expression node after the keyword `kw` and before the next
/// `then`/`else`, reading `s` with `inside` telling whether `kw` was seen.
pub open spec fn section_in(s: Seq<SyntaxElement>, kw: SyntaxKind, inside: bool) -> Option<
    SyntaxNode,
>
    decreases s.len(),
{
    if s.len() == 0 {
        None
    } else {
        let rest = s.subrange(1, s.len() as int);
        match s[0] {
            SyntaxElement::Token(t) => if t.kind == kw {
                section_in(rest, kw, true)
            } else if (t.kind == SyntaxKind::KwThen || t.kind == SyntaxKind::KwElse) && inside {
                None
            } else {
                section_in(rest, kw, inside)
            },
            SyntaxElement::Node(n) => if inside && KindClass::Expr.spec_has(n.kind) {
                Some(n)
            } else {
                section_in(rest, kw, inside)
            },
        }
    }
}

/// The node a section finds is one of the elements.
pub proof fn lemma_section_from(s: Seq<SyntaxElement>, kw: SyntaxKind, inside: bool) -> (j: int)
    requires
        section_in(s, kw, inside) is Some,
    ensures
        0 <= j < s.len(),
        s[j] == SyntaxElement::Node(section_in(s, kw, inside)->0),
    decreases s.len(),
{
    let rest = s.subrange(1, s.len() as int);
    match s[0] {
        SyntaxElement::Token(t) => {
            let inside2 = if t.kind == kw { true } else { inside };
            let j = lemma_section_from(rest, kw, inside2);
            j + 1
        },
        SyntaxElement::Node(n) => {
            if inside && KindClass::Expr.spec_has(n.kind) {
                0
            } else {
                let j = lemma_section_from(rest, kw, inside);
                j + 1
            }
        },
    }
}

/// A section of `n` lies directly under `n`, and so is smaller than it.
pub proof fn lemma_section_smaller(n: SyntaxNode, kw: SyntaxKind)
    requires
        section_in(n.children@, kw, false) is Some,
    ensures
        decreases_to!(n => section_in(n.children@, kw, false)->0),
{
    let s = n.children@;
    let j = lemma_section_from(s, kw, false);
    assert(decreases_to!(n => n.children));
    assert(decreases_to!(n.children => s));
    assert(decreases_to!(s => s[j]));
    assert(s[j]->Node_0 == section_in(s, kw, false)->0);
    assert(decreases_to!(s[j] => s[j]->Node_0));
}

impl<'a> IfExpr<'a> {
    /// The first expression after `kw` and before the next keyword, so a
    /// missing branch in a malformed `if` does not shift the others.
    fn section(&self, kw: SyntaxKind) -> (r: Option<Expr<'a>>)
        ensures
            super::support::opt_view(r) == section_in(self@.children@, kw, false),
            r matches Some(e) ==> e.shaped(),
    {
        let ghost s = self.0.children@;
        assert(s.subrange(0, s.len() as int) =~= s);
        let mut inside = false;
        let mut i: usize = 0;
        while i < self.0.children.len()
            invariant
                s == self.0.children@,
                i <= s.len(),
                section_in(s, kw, false) == section_in(s.subrange(i as int, s.len() as int), kw, inside),
            decreases s.len() - i,
        {
            let ghost rest = s.subrange(i as int, s.len() as int);
            assert(rest[0] == s[i as int]);
            assert(rest.subrange(1, rest.len() as int) =~= s.subrange(i + 1, s.len() as int));
            match &self.0.children[i] {
                SyntaxElement::Token(t) => {
                    if t.kind == kw {
                        inside = true;
                    } else if t.kind == SyntaxKind::KwThen || t.kind == SyntaxKind::KwElse {
                        if inside {
                            return None;
                        }
                    }
                },
                SyntaxElement::Node(n) => {
                    if inside && KindClass::Expr.has(n.kind) {
                        return Some(Expr::from_node(n));
                    }
                },
            }
            i = i + 1;
        }
        None
    }

    pub fn condition(&self) -> (r: Option<Expr<'a>>)
        ensures
            super::support::opt_view(r) == section_in(self@.children@, SyntaxKind::KwIf, false),
            r matches Some(e) ==> e.shaped(),
    {
        self.section(SyntaxKind::KwIf)
    }

    pub fn then_branch(&self) -> (r: Option<Expr<'a>>)
        ensures
            super::support::opt_view(r) == section_in(self@.children@, SyntaxKind::KwThen, false),
            r matches Some(e) ==> e.shaped(),
    {
        self.section(SyntaxKind::KwThen)
    }

    pub fn else_branch(&self) -> (r: Option<Expr<'a>>)
        ensures
            super::support::opt_view(r) == section_in(self@.children@, SyntaxKind::KwElse, false),
            r matches Some(e) ==> e.shaped(),
    {
        self.section(SyntaxKind::KwElse)
    }
}

// ---- literals ----------------------------------------------------------------

/// The spelling of a number literal; never a machine number.
#[derive(Clone, Copy, Debug)]
pub struct NumberToken<'a>(pub &'a SyntaxToken);

impl<'a> NumberToken<'a> {
    pub fn text(&self) -> (r: &'a str)
        ensures
            r@ == self.0.text@,
    {
        self.0.text.as_str()
    }

    pub fn literal(&self) -> (r: NumberLiteral)
        ensures
            r.text@ == self.0.text@,
    {
        NumberLiteral::new(self.0.text.as_str())
    }
}

/// What a `LiteralExpr` is.
#[derive(Clone, Copy, Debug)]
pub enum LiteralKind<'a> {
    Number(NumberToken<'a>),
    Bool(bool),
}

impl<'a> LiteralExpr<'a> {
    pub fn number(&self) -> (r: Option<NumberToken<'a>>)
        ensures
            r matches Some(t) ==> first_tok(self@, SyntaxKind::Number) == Some(*t.0),
            r is None ==> first_tok(self@, SyntaxKind::Number) is None,
    {
        match child_token(self.0, SyntaxKind::Number) {
            Some(t) => Some(NumberToken(t)),
            None => None,
        }
    }

    pub fn kind(&self) -> (r: Option<LiteralKind<'a>>)
        ensures
            first_tok(self@, SyntaxKind::Number) matches Some(n) ==> (r matches Some(
                LiteralKind::Number(t),
            ) && *t.0 == n),
            first_tok(self@, SyntaxKind::Number) is None ==> r == (if first_tok(
                self@,
                SyntaxKind::KwTrue,
            ) is Some {
                Some(LiteralKind::Bool(true))
            } else if first_tok(self@, SyntaxKind::KwFalse) is Some {
                Some(LiteralKind::Bool(false))
            } else {
                None
            }),
    {
        if let Some(n) = self.number() {
            return Some(LiteralKind::Number(n));
        }
        if child_token(self.0, SyntaxKind::KwTrue).is_some() {
            return Some(LiteralKind::Bool(true));
        }
        if child_token(self.0, SyntaxKind::KwFalse).is_some() {
            return Some(LiteralKind::Bool(false));
        }
        None
    }
}

/// What a `LiteralPattern` matches.
#[derive(Clone, Copy, Debug)]
pub enum LiteralPatternKind<'a> {
    Bool(bool),
    /// `negative` when written with a leading `-`.
    Number { negative: bool, number: NumberToken<'a> },
}

impl<'a> LiteralPattern<'a> {
    pub fn kind(&self) -> (r: Option<LiteralPatternKind<'a>>)
        ensures
            first_tok(self@, SyntaxKind::KwTrue) is Some ==> r == Some(
                LiteralPatternKind::Bool(true),
            ),
            first_tok(self@, SyntaxKind::KwTrue) is None && first_tok(self@, SyntaxKind::KwFalse)
                is Some ==> r == Some(LiteralPatternKind::Bool(false)),
            first_tok(self@, SyntaxKind::KwTrue) is None && first_tok(self@, SyntaxKind::KwFalse)
                is None ==> match first_tok(self@, SyntaxKind::Number) {
                Some(n) => r matches Some(LiteralPatternKind::Number { negative, number }) && *number.0
                    == n && negative == first_tok(self@, SyntaxKind::Minus) is Some,
                None => r is None,
            },
    {
        if child_token(self.0, SyntaxKind::KwTrue).is_some() {
            return Some(LiteralPatternKind::Bool(true));
        }
        if child_token(self.0, SyntaxKind::KwFalse).is_some() {
            return Some(LiteralPatternKind::Bool(false));
        }
        match child_token(self.0, SyntaxKind::Number) {
            Some(t) => Some(
                LiteralPatternKind::Number {
                    negative: child_token(self.0, SyntaxKind::Minus).is_some(),
                    number: NumberToken(t),
                },
            ),
            None => None,
        }
    }
}

} // verus!
