//! The child and token queries that every typed view is made of, each with
//! its meaning as a function of the tree.
use crate::kind::SyntaxKind;
use crate::syntax::{SyntaxElement, SyntaxNode, SyntaxToken};
use vstd::prelude::*;

verus! {

/// A set of node kinds: one kind, or the kinds one typed enum covers.
#[derive(Clone, Copy, Debug, PartialEq, Eq, Structural)]
pub enum KindClass {
    Is(SyntaxKind),
    Item,
    ComponentItem,
    Type,
    Expr,
    Pattern,
}

pub open spec fn spec_is_item(k: SyntaxKind) -> bool {
    matches!(
        k,
        SyntaxKind::ConceptDecl | SyntaxKind::MappingDecl | SyntaxKind::EnumDecl
            | SyntaxKind::ClockDecl | SyntaxKind::OutputDecl | SyntaxKind::DriveDecl
            | SyntaxKind::DeviceDecl | SyntaxKind::ComponentDecl | SyntaxKind::InstanceDecl
            | SyntaxKind::BindDecl | SyntaxKind::ExportDecl
    )
}

pub open spec fn spec_is_component_item(k: SyntaxKind) -> bool {
    matches!(
        k,
        SyntaxKind::ConceptDecl | SyntaxKind::MappingDecl | SyntaxKind::EnumDecl
            | SyntaxKind::ClockDecl | SyntaxKind::OutputDecl | SyntaxKind::DriveDecl
            | SyntaxKind::DeviceDecl | SyntaxKind::UseDecl | SyntaxKind::ParamClockDecl
            | SyntaxKind::PortDecl
    )
}

pub open spec fn spec_is_type(k: SyntaxKind) -> bool {
    matches!(
        k,
        SyntaxKind::NamedType | SyntaxKind::FunctionType | SyntaxKind::ParenType
            | SyntaxKind::UnitType | SyntaxKind::TupleType
    )
}

pub open spec fn spec_is_expr(k: SyntaxKind) -> bool {
    matches!(
        k,
        SyntaxKind::NameExpr | SyntaxKind::LiteralExpr | SyntaxKind::ParenExpr
            | SyntaxKind::CallExpr | SyntaxKind::UnaryExpr | SyntaxKind::BinaryExpr
            | SyntaxKind::IfExpr | SyntaxKind::MatchExpr | SyntaxKind::BlockExpr
            | SyntaxKind::ListExpr | SyntaxKind::TupleExpr | SyntaxKind::LambdaExpr
            | SyntaxKind::SlotExpr | SyntaxKind::BinderExpr | SyntaxKind::RangeExpr
            | SyntaxKind::UnitExpr
    )
}

pub open spec fn spec_is_pattern(k: SyntaxKind) -> bool {
    matches!(
        k,
        SyntaxKind::WildcardPattern | SyntaxKind::IdentPattern | SyntaxKind::LiteralPattern
            | SyntaxKind::ConstructorPattern
    )
}

impl KindClass {
    pub open spec fn spec_has(self, k: SyntaxKind) -> bool {
        match self {
            KindClass::Is(kind) => k == kind,
            KindClass::Item => spec_is_item(k),
            KindClass::ComponentItem => spec_is_component_item(k),
            KindClass::Type => spec_is_type(k),
            KindClass::Expr => spec_is_expr(k),
            KindClass::Pattern => spec_is_pattern(k),
        }
    }

    pub fn has(self, k: SyntaxKind) -> (r: bool)
        ensures
            r == self.spec_has(k),
    {
        match self {
            KindClass::Is(kind) => k == kind,
            KindClass::Item => matches!(
                k,
                SyntaxKind::ConceptDecl | SyntaxKind::MappingDecl | SyntaxKind::EnumDecl
                    | SyntaxKind::ClockDecl | SyntaxKind::OutputDecl | SyntaxKind::DriveDecl
                    | SyntaxKind::DeviceDecl | SyntaxKind::ComponentDecl
                    | SyntaxKind::InstanceDecl | SyntaxKind::BindDecl | SyntaxKind::ExportDecl
            ),
            KindClass::ComponentItem => matches!(
                k,
                SyntaxKind::ConceptDecl | SyntaxKind::MappingDecl | SyntaxKind::EnumDecl
                    | SyntaxKind::ClockDecl | SyntaxKind::OutputDecl | SyntaxKind::DriveDecl
                    | SyntaxKind::DeviceDecl | SyntaxKind::UseDecl | SyntaxKind::ParamClockDecl
                    | SyntaxKind::PortDecl
            ),
            KindClass::Type => matches!(
                k,
                SyntaxKind::NamedType | SyntaxKind::FunctionType | SyntaxKind::ParenType
                    | SyntaxKind::UnitType | SyntaxKind::TupleType
            ),
            KindClass::Expr => matches!(
                k,
                SyntaxKind::NameExpr | SyntaxKind::LiteralExpr | SyntaxKind::ParenExpr
                    | SyntaxKind::CallExpr | SyntaxKind::UnaryExpr | SyntaxKind::BinaryExpr
                    | SyntaxKind::IfExpr | SyntaxKind::MatchExpr | SyntaxKind::BlockExpr
                    | SyntaxKind::ListExpr | SyntaxKind::TupleExpr | SyntaxKind::LambdaExpr
                    | SyntaxKind::SlotExpr | SyntaxKind::BinderExpr | SyntaxKind::RangeExpr
                    | SyntaxKind::UnitExpr
            ),
            KindClass::Pattern => matches!(
                k,
                SyntaxKind::WildcardPattern | SyntaxKind::IdentPattern
                    | SyntaxKind::LiteralPattern | SyntaxKind::ConstructorPattern
            ),
        }
    }
}

/// The child nodes among `s` whose kind is in `c`, in order.
pub open spec fn nodes_in(s: Seq<SyntaxElement>, c: KindClass) -> Seq<SyntaxNode>
    decreases s.len(),
{
    if s.len() == 0 {
        Seq::empty()
    } else {
        let r = nodes_in(s.drop_last(), c);
        match s.last() {
            SyntaxElement::Node(n) => if c.spec_has(n.kind) {
                r.push(n)
            } else {
                r
            },
            SyntaxElement::Token(_) => r,
        }
    }
}

/// The child nodes of `n` whose kind is in `c`, in order.
pub open spec fn kids(n: SyntaxNode, c: KindClass) -> Seq<SyntaxNode> {
    nodes_in(n.children@, c)
}

/// The `i`-th of them, if there are that many.
pub open spec fn nth_kid(n: SyntaxNode, c: KindClass, i: int) -> Option<SyntaxNode> {
    if 0 <= i < kids(n, c).len() {
        Some(kids(n, c)[i])
    } else {
        None
    }
}

/// The first of them.
pub open spec fn first_kid(n: SyntaxNode, c: KindClass) -> Option<SyntaxNode> {
    nth_kid(n, c, 0)
}

/// The last of them.
pub open spec fn last_kid(n: SyntaxNode, c: KindClass) -> Option<SyntaxNode> {
    nth_kid(n, c, kids(n, c).len() - 1)
}

/// The first child token among `s` whose kind is `k`.
pub open spec fn first_tok_in(s: Seq<SyntaxElement>, k: SyntaxKind) -> Option<SyntaxToken>
    decreases s.len(),
{
    if s.len() == 0 {
        None
    } else {
        match s[0] {
            SyntaxElement::Token(t) => if t.kind == k {
                Some(t)
            } else {
                first_tok_in(s.subrange(1, s.len() as int), k)
            },
            SyntaxElement::Node(_) => first_tok_in(s.subrange(1, s.len() as int), k),
        }
    }
}

/// The first child token of `n` of kind `k`.
pub open spec fn first_tok(n: SyntaxNode, k: SyntaxKind) -> Option<SyntaxToken> {
    first_tok_in(n.children@, k)
}

/// The child tokens among `s`, in order.
pub open spec fn toks_in(s: Seq<SyntaxElement>) -> Seq<SyntaxToken>
    decreases s.len(),
{
    if s.len() == 0 {
        Seq::empty()
    } else {
        let r = toks_in(s.drop_last());
        match s.last() {
            SyntaxElement::Token(t) => r.push(t),
            SyntaxElement::Node(_) => r,
        }
    }
}

/// The child tokens of `n`, in order.
pub open spec fn toks(n: SyntaxNode) -> Seq<SyntaxToken> {
    toks_in(n.children@)
}

/// The first token of the subtree of `n`: its first child if that is a
/// token, else the first token of its first child node.
pub open spec fn first_leaf(n: SyntaxNode) -> Option<SyntaxToken>
    decreases n, 1int,
{
    if n.children@.len() == 0 {
        None
    } else {
        first_leaf_of(n.children@[0])
    }
}

pub open spec fn first_leaf_of(e: SyntaxElement) -> Option<SyntaxToken>
    decreases e, 0int,
{
    match e {
        SyntaxElement::Token(t) => Some(t),
        SyntaxElement::Node(n) => first_leaf(n),
    }
}

pub open spec fn deref_nodes(s: Seq<&SyntaxNode>) -> Seq<SyntaxNode> {
    s.map_values(|x: &SyntaxNode| *x)
}

pub open spec fn deref_opt(o: Option<&SyntaxNode>) -> Option<SyntaxNode> {
    match o {
        Some(x) => Some(*x),
        None => None,
    }
}

pub open spec fn deref_tok(o: Option<&SyntaxToken>) -> Option<SyntaxToken> {
    match o {
        Some(x) => Some(*x),
        None => None,
    }
}

/// What a typed view stands for, as an optional node.
pub open spec fn opt_view<N: View<V = SyntaxNode>>(o: Option<N>) -> Option<SyntaxNode> {
    match o {
        Some(x) => Some(x@),
        None => None,
    }
}

/// What a list of typed views stands for, as nodes.
pub open spec fn views<N: View<V = SyntaxNode>>(s: Seq<N>) -> Seq<SyntaxNode> {
    s.map_values(|x: N| x@)
}

/// Every node among the kids of `n` in class `c` lies directly under `n`,
/// and so is smaller than `n`.
pub proof fn lemma_kid_smaller(n: SyntaxNode, c: KindClass, i: int)
    requires
        0 <= i < kids(n, c).len(),
    ensures
        decreases_to!(n => kids(n, c)[i]),
{
    let j = lemma_nodes_in_from(n.children@, c, i);
    let s = n.children@;
    assert(decreases_to!(n => n.children));
    assert(decreases_to!(n.children => s));
    assert(decreases_to!(s => s[j]));
    assert(s[j]->Node_0 == kids(n, c)[i]);
    assert(decreases_to!(s[j] => s[j]->Node_0));
}

/// Every kid of `n` in class `c` is smaller than `n`.
pub proof fn lemma_kids_smaller(n: SyntaxNode, c: KindClass)
    ensures
        forall|i: int| 0 <= i < kids(n, c).len() ==> decreases_to!(n => #[trigger] kids(n, c)[i]),
{
    assert forall|i: int| 0 <= i < kids(n, c).len() implies decreases_to!(n => #[trigger] kids(n, c)[i]) by {
        lemma_kid_smaller(n, c, i);
    }
}

/// Every kid in class `c2` of the first kid of `n` in class `c1` is
/// smaller than `n`.
pub proof fn lemma_grandkids_smaller(n: SyntaxNode, c1: KindClass, c2: KindClass)
    requires
        first_kid(n, c1) is Some,
    ensures
        forall|i: int|
            0 <= i < kids(first_kid(n, c1)->0, c2).len() ==> decreases_to!(n => #[trigger] kids(first_kid(n, c1)->0, c2)[i]),
{
    let m = first_kid(n, c1)->0;
    lemma_kid_smaller(n, c1, 0);
    lemma_kids_smaller(m, c2);
}

/// The `i`-th node of `nodes_in(s, c)` is `s[j]` for some `j`.
pub proof fn lemma_nodes_in_from(s: Seq<SyntaxElement>, c: KindClass, i: int) -> (j: int)
    requires
        0 <= i < nodes_in(s, c).len(),
    ensures
        0 <= j < s.len(),
        s[j] == SyntaxElement::Node(nodes_in(s, c)[i]),
    decreases s.len(),
{
    let r = nodes_in(s.drop_last(), c);
    if i < r.len() {
        let j = lemma_nodes_in_from(s.drop_last(), c, i);
        j
    } else {
        (s.len() - 1) as int
    }
}

/// The nodes among `parent`'s children whose kind is in `c`.
pub fn child_nodes<'a>(parent: &'a SyntaxNode, c: KindClass) -> (r: Vec<&'a SyntaxNode>)
    ensures
        deref_nodes(r@) == kids(*parent, c),
        forall|i: int| 0 <= i < r@.len() ==> c.spec_has(#[trigger] r@[i].kind),
{
    let mut out: Vec<&'a SyntaxNode> = Vec::new();
    let mut i: usize = 0;
    while i < parent.children.len()
        invariant
            i <= parent.children@.len(),
            deref_nodes(out@) == nodes_in(parent.children@.subrange(0, i as int), c),
            forall|j: int| 0 <= j < out@.len() ==> c.spec_has(#[trigger] out@[j].kind),
        decreases parent.children@.len() - i,
    {
        let ghost pre = parent.children@.subrange(0, i as int);
        assert(parent.children@.subrange(0, i + 1).drop_last() =~= pre);
        assert(parent.children@.subrange(0, i + 1).last() == parent.children@[i as int]);
        match &parent.children[i] {
            SyntaxElement::Node(n) => {
                if c.has(n.kind) {
                    let ghost before = out@;
                    out.push(n);
                    assert(deref_nodes(out@) =~= deref_nodes(before).push(*n));
                }
            },
            SyntaxElement::Token(_) => {},
        }
        i = i + 1;
    }
    assert(parent.children@.subrange(0, i as int) =~= parent.children@);
    out
}

/// The `n`-th node among `parent`'s children whose kind is in `c`.
pub fn nth_child_node<'a>(parent: &'a SyntaxNode, c: KindClass, n: usize) -> (r: Option<
    &'a SyntaxNode,
>)
    ensures
        deref_opt(r) == nth_kid(*parent, c, n as int),
        r matches Some(x) ==> c.spec_has(x.kind),
{
    let v = child_nodes(parent, c);
    if n < v.len() {
        assert(deref_nodes(v@)[n as int] == *v@[n as int]);
        Some(v[n])
    } else {
        None
    }
}

/// The last node among `parent`'s children whose kind is in `c`.
pub fn last_child_node<'a>(parent: &'a SyntaxNode, c: KindClass) -> (r: Option<&'a SyntaxNode>)
    ensures
        deref_opt(r) == last_kid(*parent, c),
        r matches Some(x) ==> c.spec_has(x.kind),
{
    let v = child_nodes(parent, c);
    if v.len() > 0 {
        let k = v.len() - 1;
        assert(deref_nodes(v@)[k as int] == *v@[k as int]);
        Some(v[k])
    } else {
        None
    }
}

/// The first child token of `parent` of kind `k`.
pub fn child_token<'a>(parent: &'a SyntaxNode, k: SyntaxKind) -> (r: Option<&'a SyntaxToken>)
    ensures
        deref_tok(r) == first_tok(*parent, k),
{
    let ghost s = parent.children@;
    assert(s.subrange(0, s.len() as int) =~= s);
    let mut i: usize = 0;
    while i < parent.children.len()
        invariant
            i <= s.len(),
            s == parent.children@,
            first_tok_in(s, k) == first_tok_in(s.subrange(i as int, s.len() as int), k),
        decreases s.len() - i,
    {
        let ghost rest = s.subrange(i as int, s.len() as int);
        assert(rest[0] == s[i as int]);
        assert(rest.subrange(1, rest.len() as int) =~= s.subrange(i + 1, s.len() as int));
        match &parent.children[i] {
            SyntaxElement::Token(t) => {
                if t.kind == k {
                    return Some(t);
                }
            },
            SyntaxElement::Node(_) => {},
        }
        i = i + 1;
    }
    None
}

/// The child tokens of `parent`, in order.
pub fn child_tokens<'a>(parent: &'a SyntaxNode) -> (r: Vec<&'a SyntaxToken>)
    ensures
        r@.map_values(|x: &SyntaxToken| *x) == toks(*parent),
{
    let mut out: Vec<&'a SyntaxToken> = Vec::new();
    let mut i: usize = 0;
    while i < parent.children.len()
        invariant
            i <= parent.children@.len(),
            out@.map_values(|x: &SyntaxToken| *x) == toks_in(
                parent.children@.subrange(0, i as int),
            ),
        decreases parent.children@.len() - i,
    {
        let ghost pre = parent.children@.subrange(0, i as int);
        assert(parent.children@.subrange(0, i + 1).drop_last() =~= pre);
        assert(parent.children@.subrange(0, i + 1).last() == parent.children@[i as int]);
        match &parent.children[i] {
            SyntaxElement::Token(t) => {
                let ghost before = out@;
                out.push(t);
                assert(out@.map_values(|x: &SyntaxToken| *x) =~= before.map_values(
                    |x: &SyntaxToken| *x,
                ).push(*t));
            },
            SyntaxElement::Node(_) => {},
        }
        i = i + 1;
    }
    assert(parent.children@.subrange(0, i as int) =~= parent.children@);
    out
}

/// The first token of the subtree of `n`.
pub fn first_leaf_token<'a>(n: &'a SyntaxNode) -> (r: Option<&'a SyntaxToken>)
    ensures
        deref_tok(r) == first_leaf(*n),
    decreases *n,
{
    if n.children.len() == 0 {
        None
    } else {
        match &n.children[0] {
            SyntaxElement::Token(t) => Some(t),
            SyntaxElement::Node(m) => {
                proof {
                    let s = n.children@;
                    assert(decreases_to!(*n => n.children));
                    assert(decreases_to!(n.children => s));
                    assert(decreases_to!(s => s[0]));
                }
                first_leaf_token(m)
            },
        }
    }
}

/// The text of a token, as an owned string.
pub fn token_string(t: &SyntaxToken) -> (r: String)
    ensures
        r@ == t.text@,
{
    t.text.clone()
}

/// Every node of the subtree of `n`, `n` first, in source order.
pub open spec fn desc(n: SyntaxNode) -> Seq<SyntaxNode>
    decreases n, 2int,
{
    seq![n] + desc_elems(n.children@)
}

pub open spec fn desc_elems(s: Seq<SyntaxElement>) -> Seq<SyntaxNode>
    decreases s, 1int,
{
    if s.len() == 0 {
        Seq::empty()
    } else {
        desc_elems(s.drop_last()) + desc_elem(s.last())
    }
}

pub open spec fn desc_elem(e: SyntaxElement) -> Seq<SyntaxNode>
    decreases e, 0int,
{
    match e {
        SyntaxElement::Node(n) => desc(n),
        SyntaxElement::Token(_) => Seq::empty(),
    }
}

/// Append every node of the subtree of `n` to `out`, `n` first, in source
/// order.
pub fn push_descendants<'a>(n: &'a SyntaxNode, out: &mut Vec<&'a SyntaxNode>)
    ensures
        deref_nodes(final(out)@) == deref_nodes(old(out)@) + desc(*n),
    decreases *n, 1int,
{
    let ghost start = deref_nodes(out@);
    out.push(n);
    assert(deref_nodes(out@) =~= start + seq![*n]);
    let mut i: usize = 0;
    while i < n.children.len()
        invariant
            i <= n.children@.len(),
            deref_nodes(out@) == start + seq![*n] + desc_elems(n.children@.subrange(0, i as int)),
        decreases n.children@.len() - i,
    {
        proof {
            assert(n.children@.subrange(0, i + 1).drop_last() =~= n.children@.subrange(0, i as int));
        }
        let ghost before = deref_nodes(out@);
        match &n.children[i] {
            SyntaxElement::Node(m) => {
                push_descendants(m, out);
            },
            SyntaxElement::Token(_) => {},
        }
        assert(deref_nodes(out@) =~= before + desc_elem(n.children@[i as int]));
        i = i + 1;
    }
    assert(n.children@.subrange(0, i as int) =~= n.children@);
}

/// Every node of the subtree of `n`, `n` first, in source order.
pub fn descendants<'a>(n: &'a SyntaxNode) -> (r: Vec<&'a SyntaxNode>)
    ensures
        deref_nodes(r@) == desc(*n),
{
    let mut out: Vec<&'a SyntaxNode> = Vec::new();
    push_descendants(n, &mut out);
    assert(deref_nodes(out@) =~= desc(*n));
    out
}

} // verus!
