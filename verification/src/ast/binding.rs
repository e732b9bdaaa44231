//! Where a name used in an expression is bound locally.  The tree has no
//! parent links, so the enclosing nodes of a name are found by descending
//! from the root of its tree towards the name's span.
use super::nodes::{Name, NameExpr};
use super::reading::spec_ident_text;
use super::support::{
    child_nodes, deref_nodes, descendants, desc, kids, nth_child_node, nth_kid, opt_view,
    KindClass,
};
use crate::kind::SyntaxKind;
use crate::span::Span;
use crate::syntax::{SyntaxElement, SyntaxNode};
use crate::text::str_eq;
use vstd::prelude::*;

verus! {

/// `a` lies within `b`.
pub open spec fn within(a: Span, b: Span) -> bool {
    b.start <= a.start && a.end <= b.end
}

/// The name expression spanning `here`.
pub open spec fn is_name_at(n: SyntaxNode, here: Span) -> bool {
    n.kind == SyntaxKind::NameExpr && n.span == here
}

/// The nodes enclosing the name expression at `here` under `n`, outermost
/// first (the name itself not included): at each level the descent goes
/// into the first child node whose span holds `here`.  `None` when the
/// descent does not reach such a name.
pub open spec fn enclosing(n: SyntaxNode, here: Span) -> Option<Seq<SyntaxNode>>
    decreases n, 2int,
{
    if is_name_at(n, here) {
        Some(Seq::empty())
    } else {
        match enclosing_in(n.children@, here) {
            Some(p) => Some(seq![n] + p),
            None => None,
        }
    }
}

pub open spec fn enclosing_in(s: Seq<SyntaxElement>, here: Span) -> Option<Seq<SyntaxNode>>
    decreases s, 1int,
{
    if s.len() == 0 {
        None
    } else {
        match s[0] {
            SyntaxElement::Node(c) => if within(here, c.span) {
                enclosing(c, here)
            } else {
                enclosing_in(s.subrange(1, s.len() as int), here)
            },
            SyntaxElement::Token(_) => enclosing_in(s.subrange(1, s.len() as int), here),
        }
    }
}

/// The first of `ns` spelled `text`.
pub open spec fn first_named(ns: Seq<SyntaxNode>, text: Seq<char>) -> Option<SyntaxNode>
    decreases ns.len(),
{
    if ns.len() == 0 {
        None
    } else if spec_ident_text(ns[0]) == text {
        Some(ns[0])
    } else {
        first_named(ns.subrange(1, ns.len() as int), text)
    }
}

/// The first name among `ns` that an identifier pattern binds and that is
/// spelled `text`.
pub open spec fn bound_in(ns: Seq<SyntaxNode>, text: Seq<char>) -> Option<SyntaxNode>
    decreases ns.len(),
{
    if ns.len() == 0 {
        None
    } else {
        match nth_kid(ns[0], KindClass::Is(SyntaxKind::Name), 0) {
            Some(nm) => if ns[0].kind == SyntaxKind::IdentPattern && spec_ident_text(nm) == text {
                Some(nm)
            } else {
                bound_in(ns.subrange(1, ns.len() as int), text)
            },
            None => bound_in(ns.subrange(1, ns.len() as int), text),
        }
    }
}

/// The name spelled `text` that the pattern `p` binds, if it binds one.
pub open spec fn bound_name(p: SyntaxNode, text: Seq<char>) -> Option<SyntaxNode> {
    bound_in(desc(p), text)
}

/// The binding among the `let`s of a block that end before `here`,
/// nearest first.
pub open spec fn let_binding(lets: Seq<SyntaxNode>, here: Span, text: Seq<char>) -> Option<
    SyntaxNode,
>
    decreases lets.len(),
{
    if lets.len() == 0 {
        None
    } else {
        let l = lets.last();
        let found = match nth_kid(l, KindClass::Pattern, 0) {
            Some(p) => bound_name(p, text),
            None => None,
        };
        if l.span.end <= here.start && found is Some {
            found
        } else {
            let_binding(lets.drop_last(), here, text)
        }
    }
}

/// What the enclosing node `n` binds of a name spelled `text` at `here`:
/// a binder's parameter (for a use in its body), a rule's parameter, a
/// name its match arm's pattern binds (for a use in the arm's body), or a
/// name bound by a `let` earlier in its block.
pub open spec fn binding_at(n: SyntaxNode, here: Span, text: Seq<char>) -> Option<SyntaxNode> {
    if n.kind == SyntaxKind::BinderExpr {
        match nth_kid(n, KindClass::Expr, 1) {
            Some(body) => if within(here, body.span) {
                match nth_kid(n, KindClass::Is(SyntaxKind::Name), 0) {
                    Some(p) => if spec_ident_text(p) == text {
                        Some(p)
                    } else {
                        None
                    },
                    None => None,
                }
            } else {
                None
            },
            None => None,
        }
    } else if n.kind == SyntaxKind::LambdaExpr {
        match nth_kid(n, KindClass::Is(SyntaxKind::LambdaParams), 0) {
            Some(b) => first_named(kids(b, KindClass::Is(SyntaxKind::Name)), text),
            None => None,
        }
    } else if n.kind == SyntaxKind::MatchArm {
        match nth_kid(n, KindClass::Expr, 0) {
            Some(body) => if within(here, body.span) {
                match nth_kid(n, KindClass::Pattern, 0) {
                    Some(p) => bound_name(p, text),
                    None => None,
                }
            } else {
                None
            },
            None => None,
        }
    } else if n.kind == SyntaxKind::BlockExpr {
        let_binding(kids(n, KindClass::Is(SyntaxKind::LetStmt)), here, text)
    } else {
        None
    }
}

/// The nearest binding along the enclosing nodes `path`, innermost first.
pub open spec fn binding_on(path: Seq<SyntaxNode>, here: Span, text: Seq<char>) -> Option<
    SyntaxNode,
>
    decreases path.len(),
{
    if path.len() == 0 {
        None
    } else {
        match binding_at(path.last(), here, text) {
            Some(x) => Some(x),
            None => binding_on(path.drop_last(), here, text),
        }
    }
}

/// The nodes enclosing the name expression at `here` under `n`.
fn enclosing_nodes<'a>(n: &'a SyntaxNode, here: Span) -> (r: Option<Vec<&'a SyntaxNode>>)
    ensures
        match r {
            Some(v) => enclosing(*n, here) == Some(deref_nodes(v@)),
            None => enclosing(*n, here) is None,
        },
    decreases *n,
{
    if n.kind == SyntaxKind::NameExpr && n.span == here {
        let v: Vec<&'a SyntaxNode> = Vec::new();
        assert(deref_nodes(v@) =~= Seq::<SyntaxNode>::empty());
        return Some(v);
    }
    let mut i: usize = 0;
    assert(n.children@.subrange(0, n.children@.len() as int) =~= n.children@);
    while i < n.children.len()
        invariant
            i <= n.children@.len(),
            !is_name_at(*n, here),
            enclosing_in(n.children@, here) == enclosing_in(
                n.children@.subrange(i as int, n.children@.len() as int),
                here,
            ),
        decreases n.children@.len() - i,
    {
        let ghost rest = n.children@.subrange(i as int, n.children@.len() as int);
        assert(rest[0] == n.children@[i as int]);
        assert(rest.subrange(1, rest.len() as int) =~= n.children@.subrange(
            i + 1,
            n.children@.len() as int,
        ));
        match &n.children[i] {
            SyntaxElement::Node(c) => {
                if c.span.start <= here.start && here.end <= c.span.end {
                    proof {
                        let s = n.children@;
                        assert(decreases_to!(*n => n.children));
                        assert(decreases_to!(n.children => s));
                        assert(decreases_to!(s => s[i as int]));
                    }
                    let inner = enclosing_nodes(c, here);
                    return match inner {
                        Some(p) => {
                            let mut v: Vec<&'a SyntaxNode> = Vec::new();
                            v.push(n);
                            let mut q = p;
                            v.append(&mut q);
                            assert(deref_nodes(v@) =~= seq![*n] + deref_nodes(p@));
                            Some(v)
                        },
                        None => None,
                    };
                }
            },
            SyntaxElement::Token(_) => {},
        }
        i = i + 1;
    }
    None
}

/// The first of `ns` spelled `text`.
fn first_named_in<'a>(ns: &Vec<&'a SyntaxNode>, text: &str) -> (r: Option<&'a SyntaxNode>)
    ensures
        match r {
            Some(x) => first_named(deref_nodes(ns@), text@) == Some(*x),
            None => first_named(deref_nodes(ns@), text@) is None,
        },
{
    let mut i: usize = 0;
    assert(deref_nodes(ns@).subrange(0, ns@.len() as int) =~= deref_nodes(ns@));
    while i < ns.len()
        invariant
            i <= ns@.len(),
            first_named(deref_nodes(ns@), text@) == first_named(
                deref_nodes(ns@).subrange(i as int, ns@.len() as int),
                text@,
            ),
        decreases ns@.len() - i,
    {
        let ghost rest = deref_nodes(ns@).subrange(i as int, ns@.len() as int);
        assert(rest[0] == *ns@[i as int]);
        assert(rest.subrange(1, rest.len() as int) =~= deref_nodes(ns@).subrange(
            i + 1,
            ns@.len() as int,
        ));
        let t = Name(ns[i]).as_str();
        if str_eq(t.as_str(), text) {
            return Some(ns[i]);
        }
        i = i + 1;
    }
    None
}

/// The name spelled `text` that the pattern `p` binds.
fn bound_name_in<'a>(p: &'a SyntaxNode, text: &str) -> (r: Option<&'a SyntaxNode>)
    ensures
        match r {
            Some(x) => bound_name(*p, text@) == Some(*x),
            None => bound_name(*p, text@) is None,
        },
{
    let ns = descendants(p);
    let mut i: usize = 0;
    assert(deref_nodes(ns@).subrange(0, ns@.len() as int) =~= deref_nodes(ns@));
    while i < ns.len()
        invariant
            i <= ns@.len(),
            deref_nodes(ns@) == desc(*p),
            bound_name(*p, text@) == bound_in(
                deref_nodes(ns@).subrange(i as int, ns@.len() as int),
                text@,
            ),
        decreases ns@.len() - i,
    {
        let ghost rest = deref_nodes(ns@).subrange(i as int, ns@.len() as int);
        assert(rest[0] == *ns@[i as int]);
        assert(rest.subrange(1, rest.len() as int) =~= deref_nodes(ns@).subrange(
            i + 1,
            ns@.len() as int,
        ));
        let x = ns[i];
        match nth_child_node(x, KindClass::Is(SyntaxKind::Name), 0) {
            Some(nm) => {
                if x.kind == SyntaxKind::IdentPattern {
                    let t = Name(nm).as_str();
                    if str_eq(t.as_str(), text) {
                        return Some(nm);
                    }
                }
            },
            None => {},
        }
        i = i + 1;
    }
    None
}

/// What the enclosing node `n` binds of a name spelled `text` at `here`.
fn binding_at_node<'a>(n: &'a SyntaxNode, here: Span, text: &str) -> (r: Option<&'a SyntaxNode>)
    ensures
        match r {
            Some(x) => binding_at(*n, here, text@) == Some(*x),
            None => binding_at(*n, here, text@) is None,
        },
{
    if n.kind == SyntaxKind::BinderExpr {
        match nth_child_node(n, KindClass::Expr, 1) {
            Some(body) => {
                if body.span.start <= here.start && here.end <= body.span.end {
                    match nth_child_node(n, KindClass::Is(SyntaxKind::Name), 0) {
                        Some(p) => {
                            let t = Name(p).as_str();
                            if str_eq(t.as_str(), text) {
                                Some(p)
                            } else {
                                None
                            }
                        },
                        None => None,
                    }
                } else {
                    None
                }
            },
            None => None,
        }
    } else if n.kind == SyntaxKind::LambdaExpr {
        match nth_child_node(n, KindClass::Is(SyntaxKind::LambdaParams), 0) {
            Some(b) => {
                let ps = child_nodes(b, KindClass::Is(SyntaxKind::Name));
                first_named_in(&ps, text)
            },
            None => None,
        }
    } else if n.kind == SyntaxKind::MatchArm {
        match nth_child_node(n, KindClass::Expr, 0) {
            Some(body) => {
                if body.span.start <= here.start && here.end <= body.span.end {
                    match nth_child_node(n, KindClass::Pattern, 0) {
                        Some(p) => bound_name_in(p, text),
                        None => None,
                    }
                } else {
                    None
                }
            },
            None => None,
        }
    } else if n.kind == SyntaxKind::BlockExpr {
        let lets = child_nodes(n, KindClass::Is(SyntaxKind::LetStmt));
        let ghost ls = deref_nodes(lets@);
        let mut k: usize = lets.len();
        assert(ls.subrange(0, k as int) =~= ls);
        while k > 0
            invariant
                k <= lets@.len(),
                ls == deref_nodes(lets@),
                ls == kids(*n, KindClass::Is(SyntaxKind::LetStmt)),
                n.kind == SyntaxKind::BlockExpr,
                let_binding(ls, here, text@) == let_binding(ls.subrange(0, k as int), here, text@),
            decreases k,
        {
            let l = lets[k - 1];
            assert(ls.subrange(0, k as int).last() == *l);
            assert(ls.subrange(0, k as int).drop_last() =~= ls.subrange(0, k - 1));
            let found = match nth_child_node(l, KindClass::Pattern, 0) {
                Some(p) => bound_name_in(p, text),
                None => None,
            };
            let ghost spec_found = match nth_kid(*l, KindClass::Pattern, 0) {
                Some(p) => bound_name(p, text@),
                None => None,
            };
            assert(match found {
                Some(x) => spec_found == Some(*x),
                None => spec_found is None,
            });
            if l.span.end <= here.start && found.is_some() {
                assert(let_binding(ls.subrange(0, k as int), here, text@) == spec_found);
                return found;
            }
            k = k - 1;
        }
        None
    } else {
        None
    }
}

impl<'a> NameExpr<'a> {
    /// The local that binds this name, when one does: the parameter of an
    /// enclosing binder (`all x in xs: … x …`, body only) or rule
    /// (`x => … x …`), a pattern of an enclosing match arm, or a `let`
    /// earlier in an enclosing block.  The nearest wins, so an inner
    /// binder shadows an outer one.  `None` for a name that reaches the
    /// design, or for one that is not found under `root`, the root of the
    /// tree this name belongs to.
    pub fn local_binding(&self, root: &'a SyntaxNode) -> (r: Option<Name<'a>>)
        ensures
            opt_view(r) == match nth_kid(self@, KindClass::Is(SyntaxKind::NameRef), 0) {
                Some(nr) => match enclosing(*root, self@.span) {
                    Some(path) => binding_on(path, self@.span, spec_ident_text(nr)),
                    None => None,
                },
                None => None,
            },
    {
        let nr = match self.name() {
            Some(nr) => nr,
            None => return None,
        };
        let text = nr.as_str();
        let here = self.0.span;
        let path = match enclosing_nodes(root, here) {
            Some(p) => p,
            None => return None,
        };
        let ghost ps = deref_nodes(path@);
        let mut k: usize = path.len();
        assert(ps.subrange(0, k as int) =~= ps);
        while k > 0
            invariant
                k <= path@.len(),
                ps == deref_nodes(path@),
                binding_on(ps, here, text@) == binding_on(ps.subrange(0, k as int), here, text@),
                enclosing(*root, here) == Some(ps),
                here == self@.span,
                nth_kid(self@, KindClass::Is(SyntaxKind::NameRef), 0) == Some(nr@),
                text@ == spec_ident_text(nr@),
            decreases k,
        {
            let n = path[k - 1];
            assert(ps.subrange(0, k as int).last() == *n);
            assert(ps.subrange(0, k as int).drop_last() =~= ps.subrange(0, k - 1));
            match binding_at_node(n, here, text.as_str()) {
                Some(x) => {
                    assert(binding_on(ps.subrange(0, k as int), here, text@) == Some(*x));
                    return Some(Name(x));
                },
                None => {},
            }
            k = k - 1;
        }
        None
    }
}

/// The `let` statement `l` ends before `here` and its pattern binds a name
/// spelled `text`.
pub open spec fn let_binds(l: SyntaxNode, here: Span, text: Seq<char>) -> bool {
    &&& l.span.end <= here.start
    &&& nth_kid(l, KindClass::Pattern, 0) matches Some(p) && bound_name(p, text) is Some
}

/// Among the `let`s of a block, the binding of a name used at `here` comes
/// from the last `let` that ends before the use and binds the name: no
/// later `let` ending before the use binds it (so a `let` shadows the ones
/// before it, and never binds inside its own value).  When none binds it,
/// there is no binding.
pub proof fn lemma_let_binding_is_nearest(lets: Seq<SyntaxNode>, here: Span, text: Seq<char>)
    ensures
        let_binding(lets, here, text) matches Some(b) ==> exists|i: int|
            0 <= i < lets.len() && #[trigger] let_binds(lets[i], here, text) && Some(b) == bound_name(
                nth_kid(lets[i], KindClass::Pattern, 0)->0,
                text,
            ) && forall|j: int| i < j < lets.len() ==> !#[trigger] let_binds(lets[j], here, text),
        let_binding(lets, here, text) is None ==> forall|i: int|
            0 <= i < lets.len() ==> !#[trigger] let_binds(lets[i], here, text),
    decreases lets.len(),
{
    if lets.len() > 0 {
        let q = lets.drop_last();
        lemma_let_binding_is_nearest(q, here, text);
        let n = lets.len() - 1;
        assert forall|j: int| 0 <= j < n implies lets[j] == q[j] by {}
        if let_binds(lets[n], here, text) {
            assert(let_binding(lets, here, text) == bound_name(
                nth_kid(lets[n], KindClass::Pattern, 0)->0,
                text,
            ));
        } else {
            assert(let_binding(lets, here, text) == let_binding(q, here, text));
            match let_binding(q, here, text) {
                Some(b) => {
                    let i = choose|i: int|
                        0 <= i < q.len() && #[trigger] let_binds(q[i], here, text) && Some(b)
                            == bound_name(nth_kid(q[i], KindClass::Pattern, 0)->0, text) && forall|
                            j: int,
                        | i < j < q.len() ==> !#[trigger] let_binds(q[j], here, text);
                    assert(lets[i] == q[i]);
                    assert forall|j: int| i < j < lets.len() implies !#[trigger] let_binds(
                        lets[j],
                        here,
                        text,
                    ) by {
                        if j < n {
                            assert(lets[j] == q[j]);
                        }
                    }
                },
                None => {
                    assert forall|i: int| 0 <= i < lets.len() implies !#[trigger] let_binds(
                        lets[i],
                        here,
                        text,
                    ) by {
                        if i < n {
                            assert(lets[i] == q[i]);
                        }
                    }
                },
            }
        }
    }
}


proof fn lemma_first_named_spelled(ns: Seq<SyntaxNode>, text: Seq<char>)
    ensures
        first_named(ns, text) matches Some(b) ==> spec_ident_text(b) == text,
    decreases ns.len(),
{
    if ns.len() > 0 {
        lemma_first_named_spelled(ns.subrange(1, ns.len() as int), text);
    }
}

proof fn lemma_bound_in_spelled(ns: Seq<SyntaxNode>, text: Seq<char>)
    ensures
        bound_in(ns, text) matches Some(b) ==> spec_ident_text(b) == text,
    decreases ns.len(),
{
    if ns.len() > 0 {
        lemma_bound_in_spelled(ns.subrange(1, ns.len() as int), text);
    }
}

proof fn lemma_let_binding_spelled(lets: Seq<SyntaxNode>, here: Span, text: Seq<char>)
    ensures
        let_binding(lets, here, text) matches Some(b) ==> spec_ident_text(b) == text,
    decreases lets.len(),
{
    if lets.len() > 0 {
        lemma_let_binding_spelled(lets.drop_last(), here, text);
        match nth_kid(lets.last(), KindClass::Pattern, 0) {
            Some(p) => lemma_bound_in_spelled(desc(p), text),
            None => {},
        }
    }
}

/// Whatever a node binds for a name is spelled as that name.
pub proof fn lemma_binding_at_spelled(n: SyntaxNode, here: Span, text: Seq<char>)
    ensures
        binding_at(n, here, text) matches Some(b) ==> spec_ident_text(b) == text,
{
    if n.kind == SyntaxKind::LambdaExpr {
        match nth_kid(n, KindClass::Is(SyntaxKind::LambdaParams), 0) {
            Some(b) => lemma_first_named_spelled(kids(b, KindClass::Is(SyntaxKind::Name)), text),
            None => {},
        }
    } else if n.kind == SyntaxKind::MatchArm {
        match nth_kid(n, KindClass::Pattern, 0) {
            Some(p) => lemma_bound_in_spelled(desc(p), text),
            None => {},
        }
    } else if n.kind == SyntaxKind::BlockExpr {
        lemma_let_binding_spelled(kids(n, KindClass::Is(SyntaxKind::LetStmt)), here, text);
    }
}

/// Along the enclosing nodes, the innermost one that binds the name gives
/// the binding: no node inside it binds the name, the binding is spelled
/// as the name, and when no enclosing node binds it there is none.
pub proof fn lemma_binding_on_innermost(path: Seq<SyntaxNode>, here: Span, text: Seq<char>)
    ensures
        binding_on(path, here, text) matches Some(b) ==> spec_ident_text(b) == text && exists|i: int|
            0 <= i < path.len() && #[trigger] binding_at(path[i], here, text) == Some(b) && forall|j: int|
                i < j < path.len() ==> #[trigger] binding_at(path[j], here, text) is None,
        binding_on(path, here, text) is None ==> forall|i: int|
            0 <= i < path.len() ==> #[trigger] binding_at(path[i], here, text) is None,
    decreases path.len(),
{
    if path.len() > 0 {
        let q = path.drop_last();
        let n = path.len() - 1;
        lemma_binding_on_innermost(q, here, text);
        lemma_binding_at_spelled(path[n], here, text);
        assert forall|j: int| 0 <= j < n implies path[j] == q[j] by {}
        match binding_at(path[n], here, text) {
            Some(x) => {
                assert(binding_at(path[n], here, text) == Some(x));
            },
            None => {
                match binding_on(q, here, text) {
                    Some(b) => {
                        let i = choose|i: int|
                            0 <= i < q.len() && #[trigger] binding_at(q[i], here, text) == Some(b)
                                && forall|j: int|
                                i < j < q.len() ==> #[trigger] binding_at(q[j], here, text) is None;
                        assert(path[i] == q[i]);
                        assert forall|j: int| i < j < path.len() implies #[trigger] binding_at(
                            path[j],
                            here,
                            text,
                        ) is None by {
                            if j < n {
                                assert(path[j] == q[j]);
                            }
                        }
                    },
                    None => {
                        assert forall|i: int| 0 <= i < path.len() implies #[trigger] binding_at(
                            path[i],
                            here,
                            text,
                        ) is None by {
                            if i < n {
                                assert(path[i] == q[i]);
                            }
                        }
                    },
                }
            },
        }
    }
}

} // verus!
