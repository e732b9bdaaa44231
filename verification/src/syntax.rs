//! The lossless tree: nodes own their children, tokens own their text, and
//! the text of a tree is the concatenation of its tokens' texts.
use crate::diagnostics::SyntaxError;
use crate::kind::{kind_name, SyntaxKind};
use crate::text::{decimal_text, u64_text};
use crate::span::Span;
use vstd::prelude::*;

verus! {

/// A leaf of the tree.
#[derive(Debug)]
pub struct SyntaxToken {
    pub kind: SyntaxKind,
    pub span: Span,
    pub text: String,
}

/// A child of a node: a node or a token.
#[derive(Debug)]
pub enum SyntaxElement {
    Node(SyntaxNode),
    Token(SyntaxToken),
}

/// An interior node of the tree.
#[derive(Debug)]
pub struct SyntaxNode {
    pub kind: SyntaxKind,
    pub span: Span,
    pub children: Vec<SyntaxElement>,
}

pub open spec fn node_text(n: SyntaxNode) -> Seq<char>
    decreases n, 2int,
{
    elems_text(n.children@)
}

pub open spec fn elems_text(s: Seq<SyntaxElement>) -> Seq<char>
    decreases s, 1int,
{
    if s.len() == 0 {
        Seq::empty()
    } else {
        elems_text(s.drop_last()) + elem_text(s.last())
    }
}

pub open spec fn elem_text(e: SyntaxElement) -> Seq<char>
    decreases e, 0int,
{
    match e {
        SyntaxElement::Token(t) => t.text@,
        SyntaxElement::Node(n) => node_text(n),
    }
}

/// Where the elements `s`, laid end to end from byte `at`, end: each
/// starts where the one before it ended and every node among them is
/// consistent.  `None` when they are not laid end to end.
pub open spec fn chain_end(s: Seq<SyntaxElement>, at: u32) -> Option<u32>
    decreases s, 1int,
{
    if s.len() == 0 {
        Some(at)
    } else {
        match chain_end(s.drop_last(), at) {
            Some(m) => elem_end(s.last(), m),
            None => None,
        }
    }
}

pub open spec fn elem_end(e: SyntaxElement, at: u32) -> Option<u32>
    decreases e, 0int,
{
    match e {
        SyntaxElement::Token(t) => if t.span.start == at {
            Some(t.span.end)
        } else {
            None
        },
        SyntaxElement::Node(n) => if n.span.start == at && spans_ok(n) {
            Some(n.span.end)
        } else {
            None
        },
    }
}

/// A consistent node: its children lie end to end across its span, and so
/// do theirs, all the way down.
pub open spec fn spans_ok(n: SyntaxNode) -> bool
    decreases n, 2int,
{
    chain_end(n.children@, n.span.start) == Some(n.span.end)
}

/// The outcome of parsing: always a tree, plus diagnostics in source order
/// (lexical and syntactic merged).
#[derive(Debug)]
pub struct Parse {
    pub root: SyntaxNode,
    pub errors: Vec<SyntaxError>,
}

impl Parse {
    pub fn syntax_node(&self) -> (r: &SyntaxNode)
        ensures
            *r == self.root,
    {
        &self.root
    }

    /// Errors in source order.
    pub fn errors(&self) -> (r: &[SyntaxError])
        ensures
            r@ == self.errors@,
    {
        self.errors.as_slice()
    }

    pub fn is_ok(&self) -> (r: bool)
        ensures
            r == (self.errors@.len() == 0),
    {
        self.errors.len() == 0
    }

    /// The tree's text, which is always exactly the parsed source.
    pub fn text(&self) -> (r: String)
        ensures
            r@ == node_text(self.root),
    {
        let mut out = String::new();
        push_node_text(&self.root, &mut out);
        out
    }

    /// The root when nothing was diagnosed, else the diagnostics.
    pub fn ok(self) -> (r: Result<SyntaxNode, Vec<SyntaxError>>)
        ensures
            self.errors@.len() == 0 ==> r == Ok::<SyntaxNode, Vec<SyntaxError>>(self.root),
            self.errors@.len() != 0 ==> (r matches Err(e) && e@ == self.errors@),
    {
        if self.errors.len() == 0 {
            Ok(self.root)
        } else {
            Err(self.errors)
        }
    }
}

impl SyntaxNode {
    /// The source text this node covers.
    pub fn text(&self) -> (r: String)
        ensures
            r@ == node_text(*self),
    {
        let mut out = String::new();
        push_node_text(self, &mut out);
        out
    }
}

/// Append the text of `n` to `out`.
pub fn push_node_text(n: &SyntaxNode, out: &mut String)
    ensures
        final(out)@ == old(out)@ + node_text(*n),
    decreases *n, 1int,
{
    let ghost start = out@;
    let mut i: usize = 0;
    while i < n.children.len()
        invariant
            i <= n.children@.len(),
            out@ == start + elems_text(n.children@.subrange(0, i as int)),
        decreases n.children@.len() - i,
    {
        let ghost before = out@;
        proof {
            assert(n.children@.subrange(0, i + 1).drop_last() =~= n.children@.subrange(0, i as int));
        }
        push_elem_text(&n.children[i], out);
        i = i + 1;
    }
    assert(n.children@.subrange(0, i as int) =~= n.children@);
}

/// Append the text of `e` to `out`.
pub fn push_elem_text(e: &SyntaxElement, out: &mut String)
    ensures
        final(out)@ == old(out)@ + elem_text(*e),
    decreases *e, 0int,
{
    match e {
        SyntaxElement::Token(t) => {
            out.append(t.text.as_str());
        },
        SyntaxElement::Node(n) => {
            push_node_text(n, out);
        },
    }
}


/// A token's kind and text.
pub fn token_text(token: &SyntaxToken) -> (r: (SyntaxKind, String))
    ensures
        r.0 == token.kind,
        r.1@ == token.text@,
{
    (token.kind, token.text.clone())
}

/// What `{:?}` writes for a string: the text in double quotes, with
/// std's escapes for quotes, backslashes and control characters.
pub uninterp spec fn debug_quoted(s: Seq<char>) -> Seq<char>;

/// `{:?}` of a string slice.
#[verifier::external_body]
fn debug_quoted_text(s: &str) -> (r: String)
    ensures
        r@ == debug_quoted(s@),
{
    format!("{:?}", s)
}

/// Two spaces per level of depth.
pub open spec fn indent(depth: nat) -> Seq<char>
    decreases depth,
{
    if depth == 0 {
        Seq::empty()
    } else {
        indent((depth - 1) as nat) + "  "@
    }
}

/// A span as `start..end`.
pub open spec fn range_text(sp: Span) -> Seq<char> {
    decimal_text(sp.start as nat) + ".."@ + decimal_text(sp.end as nat)
}

/// The line of a token in the debug rendering.
pub open spec fn token_line(t: SyntaxToken, depth: nat) -> Seq<char> {
    indent(depth) + kind_name(t.kind) + "@"@ + range_text(t.span) + " "@ + debug_quoted(t.text@)
        + "\n"@
}

/// The debug rendering of a node at `depth`: one line per node and token,
/// in preorder, indented by depth.
pub open spec fn node_dump(n: SyntaxNode, depth: nat) -> Seq<char>
    decreases n, 2int,
{
    indent(depth) + kind_name(n.kind) + "@"@ + range_text(n.span) + "\n"@ + elems_dump(
        n.children@,
        depth + 1,
    )
}

pub open spec fn elems_dump(s: Seq<SyntaxElement>, depth: nat) -> Seq<char>
    decreases s, 1int,
{
    if s.len() == 0 {
        Seq::empty()
    } else {
        elems_dump(s.drop_last(), depth) + elem_dump(s.last(), depth)
    }
}

pub open spec fn elem_dump(e: SyntaxElement, depth: nat) -> Seq<char>
    decreases e, 0int,
{
    match e {
        SyntaxElement::Token(t) => token_line(t, depth),
        SyntaxElement::Node(n) => node_dump(n, depth),
    }
}

fn push_range(out: &mut String, sp: Span)
    ensures
        final(out)@ == old(out)@ + range_text(sp),
{
    let a = u64_text(sp.start as u64);
    let b = u64_text(sp.end as u64);
    out.append(a.as_str());
    out.append("..");
    out.append(b.as_str());
}

fn push_node_dump(n: &SyntaxNode, prefix: &str, Ghost(depth): Ghost<nat>, out: &mut String)
    requires
        prefix@ == indent(depth),
    ensures
        final(out)@ == old(out)@ + node_dump(*n, depth),
    decreases *n, 1int,
{
    let ghost start = out@;
    out.append(prefix);
    out.append(n.kind.name());
    out.append("@");
    push_range(out, n.span);
    out.append("\n");
    let ghost head = out@;
    let inner = String::from_str(prefix).concat("  ");
    assert(inner@ == indent(depth + 1));
    let mut i: usize = 0;
    while i < n.children.len()
        invariant
            i <= n.children@.len(),
            inner@ == indent(depth + 1),
            out@ == head + elems_dump(n.children@.subrange(0, i as int), depth + 1),
        decreases n.children@.len() - i,
    {
        proof {
            assert(n.children@.subrange(0, i + 1).drop_last() =~= n.children@.subrange(0, i as int));
        }
        let ghost prev = out@;
        match &n.children[i] {
            SyntaxElement::Token(t) => {
                let ghost before = out@;
                out.append(inner.as_str());
                out.append(t.kind.name());
                out.append("@");
                push_range(out, t.span);
                out.append(" ");
                let q = debug_quoted_text(t.text.as_str());
                out.append(q.as_str());
                out.append("\n");
                assert(out@ =~= before + token_line(*t, depth + 1));
            },
            SyntaxElement::Node(c) => {
                push_node_dump(c, inner.as_str(), Ghost(depth + 1), out);
            },
        }
        assert(out@ == prev + elem_dump(n.children@[i as int], depth + 1));
        assert(out@ =~= head + elems_dump(n.children@.subrange(0, i + 1), depth + 1));
        i = i + 1;
    }
    assert(n.children@.subrange(0, i as int) =~= n.children@);
}

/// The tree as text, one line per node and token: kind, byte range and,
/// for a token, its quoted text, indented two spaces per level.
pub fn debug_tree(node: &SyntaxNode) -> (r: String)
    ensures
        r@ == node_dump(*node, 0),
{
    let mut out = String::new();
    let top = String::new();
    push_node_dump(node, top.as_str(), Ghost(0), &mut out);
    out
}

} // verus!
