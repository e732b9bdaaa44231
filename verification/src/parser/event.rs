//! The sink that replays the parser's events into the tree.
//!
//! `precede` (wrapping an already-parsed left operand into a `BinaryExpr`
//! or `CallExpr`) is a `forward_parent` link on the earlier `StartNode`,
//! resolved here.  The sink also re-inserts trivia, which the parser
//! skipped, so the tree is lossless: its text is the concatenation of all
//! the tokens, in order.
use super::{errors_within, event_within, Event};
use crate::diagnostics::SyntaxError;
use crate::kind::{spec_is_trivia, SyntaxKind};
use crate::text::newline_count;
use crate::lexer::{tokens_text, Token};
use crate::format::{leaf_pair, leaf_pairs, leaves, leaves_elem, leaves_elems};
use crate::span::Span;
use crate::syntax::{
    chain_end, elem_end, elem_text, elems_text, node_text, spans_ok, SyntaxElement, SyntaxNode,
    SyntaxToken,
};
use vstd::prelude::*;

verus! {

/// Kinds whose leading comments (no blank line between) are attached inside
/// the node rather than left in the parent.
pub open spec fn spec_attaches_leading_comments(kind: SyntaxKind) -> bool {
    matches!(
        kind,
        SyntaxKind::ConceptDecl | SyntaxKind::MappingDecl | SyntaxKind::EnumDecl
            | SyntaxKind::EnumVariant | SyntaxKind::MatchArm | SyntaxKind::LetStmt
            | SyntaxKind::PortDecl
    )
}

pub(crate) fn attaches_leading_comments(kind: SyntaxKind) -> (r: bool)
    ensures
        r == spec_attaches_leading_comments(kind),
{
    matches!(
        kind,
        SyntaxKind::ConceptDecl | SyntaxKind::MappingDecl | SyntaxKind::EnumDecl
            | SyntaxKind::EnumVariant | SyntaxKind::MatchArm | SyntaxKind::LetStmt
            | SyntaxKind::PortDecl
    )
}

/// A node being built: its kind, where it starts, its children so far.
pub struct Frame {
    pub kind: SyntaxKind,
    pub start: u32,
    pub children: Vec<SyntaxElement>,
}

/// The text of the open frames, outermost first.
pub open spec fn frames_text(fs: Seq<Frame>) -> Seq<char>
    decreases fs.len(),
{
    if fs.len() == 0 {
        Seq::empty()
    } else {
        frames_text(fs.drop_last()) + elems_text(fs.last().children@)
    }
}

/// No diagnostic among the events.
pub open spec fn no_error_events(es: Seq<Event>) -> bool {
    forall|i: int| 0 <= i < es.len() ==> !(#[trigger] es[i] is Error)
}

/// A token as its kind and text.
pub open spec fn token_pair(t: Token) -> (SyntaxKind, Seq<char>) {
    (t.kind, t.text@)
}

pub open spec fn token_pairs(ts: Seq<Token>) -> Seq<(SyntaxKind, Seq<char>)> {
    ts.map_values(|t: Token| token_pair(t))
}

/// The leaves of the open frames, outermost first.
pub open spec fn frames_leaves(fs: Seq<Frame>) -> Seq<(SyntaxKind, Seq<char>)>
    decreases fs.len(),
{
    if fs.len() == 0 {
        Seq::empty()
    } else {
        frames_leaves(fs.drop_last()) + leaf_pairs(leaves_elems(fs.last().children@))
    }
}

pub proof fn lemma_leaves_push(s: Seq<SyntaxElement>, e: SyntaxElement)
    ensures
        leaf_pairs(leaves_elems(s.push(e))) == leaf_pairs(leaves_elems(s)) + leaf_pairs(leaves_elem(e)),
{
    assert(s.push(e).drop_last() =~= s);
    assert(leaf_pairs(leaves_elems(s) + leaves_elem(e)) =~= leaf_pairs(leaves_elems(s)) + leaf_pairs(
        leaves_elem(e),
    ));
}

pub proof fn lemma_tokens_text_step(ts: Seq<Token>, i: int)
    requires
        0 <= i < ts.len(),
    ensures
        tokens_text(ts.subrange(0, i + 1)) == tokens_text(ts.subrange(0, i)) + ts[i].text@,
{
    assert(ts.subrange(0, i + 1).drop_last() =~= ts.subrange(0, i));
}

pub proof fn lemma_elems_push(s: Seq<SyntaxElement>, e: SyntaxElement)
    ensures
        elems_text(s.push(e)) == elems_text(s) + elem_text(e),
{
    assert(s.push(e).drop_last() =~= s);
}

pub struct Sink<'s> {
    pub tokens: &'s [Token],
    /// Next token (of any kind) not yet emitted.
    pub pos: usize,
    /// Open nodes; the root is `frames[0]`.
    pub frames: Vec<Frame>,
    pub errors: Vec<SyntaxError>,
    /// Byte offset after the last emitted token.
    pub offset: u32,
}

/// Tokens laid end to end from byte 0.
pub open spec fn contiguous(ts: Seq<Token>) -> bool {
    &&& ts.len() > 0 ==> ts[0].span.start == 0
    &&& forall|j: int| 0 < j < ts.len() ==> #[trigger] ts[j].span.start == ts[j - 1].span.end
}

/// Where the children of open frame `k` must end: where the next frame
/// starts, or (for the innermost) at the current offset.
pub open spec fn frame_end(fs: Seq<Frame>, k: int, offset: u32) -> u32 {
    if k + 1 < fs.len() {
        fs[k + 1].start
    } else {
        offset
    }
}

/// Every open frame's children lie end to end from its start.
pub open spec fn frames_chained(fs: Seq<Frame>, offset: u32) -> bool {
    forall|k: int|
        0 <= k < fs.len() ==> chain_end(#[trigger] fs[k].children@, fs[k].start) == Some(
            frame_end(fs, k, offset),
        )
}

/// A pending trivia token that may go with the node after it: a comment,
/// or white space with at most one line feed.
pub open spec fn attachable(t: Token) -> bool {
    t.kind == SyntaxKind::LineComment || t.kind == SyntaxKind::BlockComment || (t.kind
        == SyntaxKind::Whitespace && newline_count(t.text@) < 2)
}

/// Where the run of attachable tokens that ends at `hi` starts, not before
/// `lo`.
pub open spec fn attached_run_start(ts: Seq<Token>, lo: int, hi: int) -> int
    decreases hi - lo,
{
    if hi > lo && 0 < hi <= ts.len() && attachable(ts[hi - 1]) {
        attached_run_start(ts, lo, hi - 1)
    } else {
        hi
    }
}

/// The first comment among `ts[from..to]`; `to` when there is none.
pub open spec fn first_comment(ts: Seq<Token>, from: int, to: int) -> int
    decreases to - from,
{
    if from >= to {
        to
    } else if 0 <= from < ts.len() && (ts[from].kind == SyntaxKind::LineComment || ts[from].kind
        == SyntaxKind::BlockComment) {
        from
    } else {
        first_comment(ts, from + 1, to)
    }
}

impl<'s> Sink<'s> {
    pub open spec fn inv(&self) -> bool {
        &&& self.frames@.len() >= 1
        &&& self.pos <= self.tokens@.len()
        &&& frames_text(self.frames@) == tokens_text(self.tokens@.subrange(0, self.pos as int))
        &&& frames_leaves(self.frames@) == token_pairs(self.tokens@.subrange(0, self.pos as int))
        &&& self.frames@[0].start == 0
        &&& frames_chained(self.frames@, self.offset)
        &&& contiguous(self.tokens@)
        &&& self.offset == if self.pos == 0 {
            0
        } else {
            self.tokens@[self.pos - 1].span.end
        }
    }

    pub(crate) fn new(tokens: &'s [Token], lexical_errors: Vec<SyntaxError>, root: SyntaxKind) -> (r: Sink<
        's,
    >)
        requires
            contiguous(tokens@),
        ensures
            r.inv(),
            r.tokens@ == tokens@,
            r.pos == 0,
            r.frames@.len() == 1,
            r.frames@[0].kind == root,
            r.errors@ == lexical_errors@,
    {
        let mut frames: Vec<Frame> = Vec::new();
        frames.push(Frame { kind: root, start: 0, children: Vec::new() });
        let r = Sink { tokens, pos: 0, frames, errors: lexical_errors, offset: 0 };
        assert(r.tokens@.subrange(0, 0) =~= Seq::<Token>::empty());
        assert(frames_text(r.frames@.drop_last()) =~= Seq::<char>::empty());
        assert(frames_leaves(r.frames@.drop_last()) =~= Seq::empty());
        assert(leaf_pairs(leaves_elems(r.frames@.last().children@)) =~= Seq::empty());
        assert(token_pairs(r.tokens@.subrange(0, 0)) =~= Seq::empty());
        r
    }

    /// Emit the next token into the innermost open node.
    fn emit(&mut self)
        requires
            old(self).inv(),
            old(self).pos < old(self).tokens@.len(),
        ensures
            final(self).errors == old(self).errors,
            final(self).inv(),
            final(self).tokens == old(self).tokens,
            final(self).pos == old(self).pos + 1,
            final(self).frames@.len() == old(self).frames@.len(),
            final(self).frames@[0].kind == old(self).frames@[0].kind,
    {
        let t = &self.tokens[self.pos];
        let tok = SyntaxToken { kind: t.kind, span: t.span, text: t.text.clone() };
        assert(*t == self.tokens@[self.pos as int]);
        assert(elem_text(SyntaxElement::Token(tok)) == t.text@);
        let ghost fs = self.frames@;
        let mut top = self.frames.pop().unwrap();
        assert(self.frames@ =~= fs.drop_last());
        assert(top == fs.last());
        let ghost before = top.children@;
        top.children.push(SyntaxElement::Token(tok));
        proof {
            lemma_elems_push(before, SyntaxElement::Token(tok));
            lemma_tokens_text_step(self.tokens@, self.pos as int);
            lemma_leaves_push(before, SyntaxElement::Token(tok));
            assert(leaf_pairs(leaves_elem(SyntaxElement::Token(tok))) =~= seq![token_pair(*t)]);
            assert(token_pairs(self.tokens@.subrange(0, self.pos + 1)) =~= token_pairs(
                self.tokens@.subrange(0, self.pos as int),
            ).push(token_pair(*t)));
        }
        let ghost after = top.children@;
        self.frames.push(top);
        assert(self.frames@.drop_last() =~= fs.drop_last());
        assert(frames_text(self.frames@) == frames_text(fs.drop_last()) + elems_text(after));
        assert(frames_text(fs) == frames_text(fs.drop_last()) + elems_text(before));
        assert(frames_leaves(self.frames@) == frames_leaves(fs.drop_last()) + leaf_pairs(leaves_elems(after)));
        assert(frames_leaves(fs) == frames_leaves(fs.drop_last()) + leaf_pairs(leaves_elems(before)));
        assert(frames_leaves(self.frames@) =~= frames_leaves(fs).push(token_pair(*t)));
        self.offset = t.span.end;
        self.pos = self.pos + 1;
        assert(frames_text(self.frames@) == tokens_text(self.tokens@.subrange(0, self.pos as int)));
        proof {
            let fs2 = self.frames@;
            let top_k = fs.len() - 1;
            assert(after.drop_last() =~= before);
            assert(chain_end(before, fs[top_k].start) == Some(frame_end(fs, top_k, old(self).offset)));
            assert(tok.span.start == old(self).offset);
            assert(after.last() == SyntaxElement::Token(tok));
            assert(before == fs[top_k].children@);
            assert(chain_end(after.drop_last(), fs[top_k].start) == Some(old(self).offset));
            assert(elem_end(SyntaxElement::Token(tok), old(self).offset) == Some(tok.span.end));
            assert(after.len() > 0);
            assert(chain_end(after, fs[top_k].start) == match chain_end(after.drop_last(), fs[top_k].start) {
                Some(m) => elem_end(after.last(), m),
                None => None,
            });
            assert(chain_end(after, fs[top_k].start) == Some(tok.span.end));
            assert forall|k: int| 0 <= k < fs2.len() implies chain_end(
                #[trigger] fs2[k].children@,
                fs2[k].start,
            ) == Some(frame_end(fs2, k, self.offset)) by {
                if k < top_k {
                    assert(fs2[k] == fs[k]);
                    assert(chain_end(fs[k].children@, fs[k].start) == Some(frame_end(fs, k, old(self).offset)));
                    if k + 1 < top_k {
                        assert(fs2[k + 1] == fs[k + 1]);
                    }
                }
            }
        }
    }

    /// Open a node.
    fn open(&mut self, kind: SyntaxKind)
        requires
            old(self).inv(),
        ensures
            final(self).errors == old(self).errors,
            final(self).inv(),
            final(self).tokens == old(self).tokens,
            final(self).pos == old(self).pos,
            final(self).frames@.len() == old(self).frames@.len() + 1,
            final(self).frames@[0].kind == old(self).frames@[0].kind,
    {
        let ghost fs = self.frames@;
        self.frames.push(Frame { kind, start: self.offset, children: Vec::new() });
        assert(self.frames@.drop_last() =~= fs);
        assert(elems_text(self.frames@.last().children@) =~= Seq::<char>::empty());
        assert(leaf_pairs(leaves_elems(self.frames@.last().children@)) =~= Seq::empty());
        assert(frames_leaves(self.frames@) =~= frames_leaves(fs));
    }

    /// Close the innermost node (never the root).
    fn close(&mut self)
        requires
            old(self).inv(),
        ensures
            final(self).errors == old(self).errors,
            final(self).inv(),
            final(self).tokens == old(self).tokens,
            final(self).pos == old(self).pos,
            old(self).frames@.len() >= 2 ==> final(self).frames@.len() == old(self).frames@.len() - 1,
            old(self).frames@.len() < 2 ==> final(self).frames@.len() == old(self).frames@.len(),
            final(self).frames@[0].kind == old(self).frames@[0].kind,
    {
        if self.frames.len() < 2 {
            return;
        }
        let ghost fs = self.frames@;
        let child = self.frames.pop().unwrap();
        let mut parent = self.frames.pop().unwrap();
        assert(self.frames@ =~= fs.drop_last().drop_last());
        assert(child == fs.last());
        assert(parent == fs.drop_last().last());
        let node = SyntaxNode {
            kind: child.kind,
            span: Span::new(child.start, self.offset),
            children: child.children,
        };
        let ghost before = parent.children@;
        let ghost nd = node;
        parent.children.push(SyntaxElement::Node(node));
        proof {
            lemma_elems_push(before, SyntaxElement::Node(nd));
            assert(elem_text(SyntaxElement::Node(nd)) == node_text(nd));
            lemma_leaves_push(before, SyntaxElement::Node(nd));
            assert(leaves_elem(SyntaxElement::Node(nd)) == leaves_elems(fs.last().children@));
        }
        let ghost after = parent.children@;
        self.frames.push(parent);
        assert(self.frames@.drop_last() =~= fs.drop_last().drop_last());
        assert(frames_text(self.frames@) == frames_text(fs.drop_last().drop_last()) + elems_text(
            after,
        ));
        assert(frames_text(fs) == frames_text(fs.drop_last()) + elems_text(fs.last().children@));
        assert(frames_text(fs.drop_last()) == frames_text(fs.drop_last().drop_last())
            + elems_text(fs.drop_last().last().children@));
        assert(frames_text(self.frames@) =~= frames_text(fs));
        assert(frames_leaves(self.frames@) == frames_leaves(fs.drop_last().drop_last()) + leaf_pairs(
            leaves_elems(after),
        ));
        assert(frames_leaves(fs) == frames_leaves(fs.drop_last()) + leaf_pairs(
            leaves_elems(fs.last().children@),
        ));
        assert(frames_leaves(fs.drop_last()) == frames_leaves(fs.drop_last().drop_last()) + leaf_pairs(
            leaves_elems(fs.drop_last().last().children@),
        ));
        assert(frames_leaves(self.frames@) =~= frames_leaves(fs));
        proof {
            let fs2 = self.frames@;
            let c = fs.len() - 1;
            assert(chain_end(fs[c].children@, fs[c].start) == Some(frame_end(fs, c, self.offset)));
            assert(spans_ok(nd));
            assert(chain_end(fs[c - 1].children@, fs[c - 1].start) == Some(frame_end(fs, c - 1, self.offset)));
            assert(after.drop_last() =~= before);
            assert(after.last() == SyntaxElement::Node(nd));
            assert(before == fs[c - 1].children@);
            assert(parent.start == fs[c - 1].start);
            assert(nd.span.start == fs[c].start);
            assert(frame_end(fs, c - 1, self.offset) == fs[c].start);
            assert(chain_end(after.drop_last(), parent.start) == Some(nd.span.start));
            assert(elem_end(SyntaxElement::Node(nd), nd.span.start) == Some(self.offset));
            assert(after.len() > 0);
            assert(chain_end(after, parent.start) == match chain_end(after.drop_last(), parent.start) {
                Some(m) => elem_end(after.last(), m),
                None => None,
            });
            assert(chain_end(after, parent.start) == Some(self.offset));
            assert forall|k: int| 0 <= k < fs2.len() implies chain_end(
                #[trigger] fs2[k].children@,
                fs2[k].start,
            ) == Some(frame_end(fs2, k, self.offset)) by {
                if k < c - 1 {
                    assert(fs2[k] == fs[k]);
                    assert(chain_end(fs[k].children@, fs[k].start) == Some(frame_end(fs, k, self.offset)));
                    if k + 1 < c - 1 {
                        assert(fs2[k + 1] == fs[k + 1]);
                    }
                }
            }
        }
    }

    /// How many trivia tokens come next, before the next code token or the
    /// end.
    fn pending_trivia_len(&self) -> (r: usize)
        requires
            self.inv(),
        ensures
            self.pos + r <= self.tokens@.len(),
            forall|j: int| self.pos <= j < self.pos + r ==> #[trigger] spec_is_trivia(self.tokens@[j].kind),
            self.pos + r == self.tokens@.len() || !spec_is_trivia(self.tokens@[self.pos + r].kind),
    {
        let mut n: usize = 0;
        while n < self.tokens.len() - self.pos && self.tokens[self.pos + n].kind.is_trivia()
            invariant
                self.inv(),
                self.pos + n <= self.tokens@.len(),
                forall|j: int| self.pos <= j < self.pos + n ==> #[trigger] spec_is_trivia(self.tokens@[j].kind),
            decreases self.tokens@.len() - self.pos - n,
        {
            n = n + 1;
        }
        n
    }

    /// Emit trivia tokens from `pos` up to (exclusive) `until` or the next
    /// non-trivia token.
    fn eat_trivia(&mut self, until: usize)
        requires
            old(self).inv(),
        ensures
            final(self).errors == old(self).errors,
            final(self).inv(),
            final(self).tokens == old(self).tokens,
            final(self).pos >= old(self).pos,
            final(self).pos == old(self).pos || final(self).pos <= until,
            forall|j: int| old(self).pos <= j < final(self).pos ==> #[trigger] spec_is_trivia(old(self).tokens@[j].kind),
            final(self).pos >= until || final(self).pos == old(self).tokens@.len()
                || !spec_is_trivia(old(self).tokens@[final(self).pos as int].kind),
            final(self).frames@.len() == old(self).frames@.len(),
            final(self).frames@[0].kind == old(self).frames@[0].kind,
    {
        while self.pos < until && self.pos < self.tokens.len()
            && self.tokens[self.pos].kind.is_trivia()
            invariant
                self.inv(),
                self.errors == old(self).errors,
                self.tokens == old(self).tokens,
                self.pos >= old(self).pos,
                self.pos == old(self).pos || self.pos <= until,
                forall|j: int| old(self).pos <= j < self.pos ==> #[trigger] spec_is_trivia(old(self).tokens@[j].kind),
                self.frames@.len() == old(self).frames@.len(),
                self.frames@[0].kind == old(self).frames@[0].kind,
            decreases self.tokens@.len() - self.pos,
        {
            self.emit();
        }
    }

    /// Emit every remaining token, trivia or not.
    fn eat_rest(&mut self)
        requires
            old(self).inv(),
        ensures
            final(self).errors == old(self).errors,
            final(self).inv(),
            final(self).tokens == old(self).tokens,
            final(self).pos == final(self).tokens@.len(),
            final(self).frames@.len() == old(self).frames@.len(),
            final(self).frames@[0].kind == old(self).frames@[0].kind,
    {
        while self.pos < self.tokens.len()
            invariant
                self.inv(),
                self.errors == old(self).errors,
                self.tokens == old(self).tokens,
                self.frames@.len() == old(self).frames@.len(),
                self.frames@[0].kind == old(self).frames@[0].kind,
            decreases self.tokens@.len() - self.pos,
        {
            self.emit();
        }
    }

    /// Count of line feeds in a token's text.
    fn newlines(t: &Token) -> (r: usize)
        ensures
            r == newline_count(t.text@),
    {
        let cs = crate::text::chars_of(t.text.as_str());
        let mut n: usize = 0;
        let mut i: usize = 0;
        while i < cs.len()
            invariant
                i <= cs@.len(),
                cs@ == t.text@,
                n == newline_count(cs@.take(i as int)),
            decreases cs@.len() - i,
        {
            assert(cs@.take(i + 1).drop_last() =~= cs@.take(i as int));
            proof {
                crate::text::lemma_newline_count_le(cs@.take(i as int));
            }
            if cs[i] == '\n' {
                n = n + 1;
            }
            i = i + 1;
        }
        assert(cs@.take(cs@.len() as int) =~= cs@);
        n
    }

    /// Index of the first pending trivia token that should go *inside* the
    /// node about to start: the comments after the last blank line, if any.
    fn attached_start(&self, pending_end: usize) -> (r: usize)
        requires
            self.inv(),
            self.pos <= pending_end <= self.tokens@.len(),
        ensures
            r == first_comment(
                self.tokens@,
                attached_run_start(self.tokens@, self.pos as int, pending_end as int),
                pending_end as int,
            ),
    {
        let ghost ts = self.tokens@;
        let ghost lo = self.pos as int;
        let ghost hi = pending_end as int;
        let mut start = pending_end;
        let mut saw_comment = false;
        let mut i = pending_end;
        while i > self.pos
            invariant
                self.pos <= i <= pending_end <= self.tokens@.len(),
                ts == self.tokens@,
                lo == self.pos,
                hi == pending_end,
                attached_run_start(ts, lo, hi) == attached_run_start(ts, lo, i as int),
                saw_comment ==> start == first_comment(ts, i as int, hi),
                !saw_comment ==> first_comment(ts, i as int, hi) == hi,
                i <= start <= hi,
            ensures
                i == lo || !attachable(ts[i - 1]),
                attached_run_start(ts, lo, hi) == attached_run_start(ts, lo, i as int),
                saw_comment ==> start == first_comment(ts, i as int, hi),
                !saw_comment ==> first_comment(ts, i as int, hi) == hi,
            decreases i,
        {
            let t = &self.tokens[i - 1];
            assert(*t == ts[i - 1]);
            if t.kind == SyntaxKind::Whitespace {
                if Self::newlines(t) >= 2 {
                    break;
                }
            } else if t.kind == SyntaxKind::LineComment || t.kind == SyntaxKind::BlockComment {
                saw_comment = true;
                start = i - 1;
            } else {
                break;
            }
            i = i - 1;
        }
        assert(attached_run_start(ts, lo, i as int) == i);
        if saw_comment {
            start
        } else {
            pending_end
        }
    }

    /// Open a node; pending trivia goes to the parent, except comments
    /// directly attached to an item, which go inside it.
    fn start_node(&mut self, kind: SyntaxKind)
        requires
            old(self).inv(),
        ensures
            final(self).errors == old(self).errors,
            final(self).inv(),
            final(self).tokens == old(self).tokens,
            final(self).frames@.len() == old(self).frames@.len() + 1,
            final(self).frames@[0].kind == old(self).frames@[0].kind,
    {
        let len = self.tokens.len();
        let extra = self.pending_trivia_len();
        let pending_end = self.pos + extra;
        let attach_from = if attaches_leading_comments(kind) {
            self.attached_start(pending_end)
        } else {
            pending_end
        };
        self.eat_trivia(attach_from);
        self.open(kind);
    }

    /// Replay the events and finish the tree: every remaining token goes to
    /// the root, every node left open is closed.
    pub(crate) fn build(self, events: Vec<Event>, Ghost(bound): Ghost<u32>) -> (r: (SyntaxNode, Vec<SyntaxError>))
        requires
            self.inv(),
            self.frames@.len() == 1,
            errors_within(events@, bound),
            forall|k: int| 0 <= k < self.errors@.len() ==> #[trigger] self.errors@[k].span.end <= bound,
        ensures
            node_text(r.0) == tokens_text(self.tokens@),
            leaf_pairs(leaves(r.0)) == token_pairs(self.tokens@),
            r.0.kind == self.frames@[0].kind,
            spans_ok(r.0),
            r.0.span.start == 0,
            r.0.span.end == if self.tokens@.len() == 0 {
                0
            } else {
                self.tokens@.last().span.end
            },
            forall|k: int| 0 <= k < r.1@.len() ==> #[trigger] r.1@[k].span.end <= bound,
            r.1@.len() >= self.errors@.len(),
            crate::diagnostics::errors_sorted(r.1@),
            no_error_events(events@) ==> r.1@.len() == self.errors@.len(),
    {
        let ghost n_errors = self.errors@.len();
        let ghost clean = no_error_events(events@);
        let mut this = self;
        let mut events = events;
        let ghost root_kind = this.frames@[0].kind;
        let ghost toks = this.tokens@;
        let ghost n0 = events@.len();
        let mut i: usize = 0;
        while i < events.len()
            invariant
                events@.len() == n0,
                this.inv(),
                this.tokens@ == toks,
                this.frames@[0].kind == root_kind,
                errors_within(events@, bound),
                forall|k: int| 0 <= k < this.errors@.len() ==> #[trigger] this.errors@[k].span.end <= bound,
                this.errors@.len() >= n_errors,
                clean ==> no_error_events(events@) && this.errors@.len() == n_errors,
            decreases events@.len() - i,
        {
            let (is_start, kind, forward_parent) = match &events[i] {
                Event::StartNode { kind, forward_parent } => (true, *kind, *forward_parent),
                _ => (false, SyntaxKind::Tombstone, None),
            };
            if is_start {
                if !(kind == SyntaxKind::Tombstone && forward_parent.is_none()) {
                    // Walk the forward-parent chain, collecting kinds from the
                    // innermost (this node) to the outermost, then open them
                    // outermost first.
                    let mut kinds: Vec<SyntaxKind> = Vec::new();
                    kinds.push(kind);
                    let mut idx = i;
                    let mut fp = forward_parent;
                    while fp.is_some()
                        invariant
                            idx < events@.len(),
                            events@.len() == n0,
                            errors_within(events@, bound),
                            clean ==> no_error_events(events@),
                        decreases events@.len() - idx,
                    {
                        let rel = match fp {
                            Some(rel) => rel,
                            None => 0,
                        };
                        if rel == 0 || rel >= events.len() - idx {
                            break;
                        }
                        idx = idx + rel;
                        let (k2, fp2) = match &events[idx] {
                            Event::StartNode { kind, forward_parent } => (*kind, *forward_parent),
                            _ => (SyntaxKind::Tombstone, None),
                        };
                        events.set(
                            idx,
                            Event::StartNode { kind: SyntaxKind::Tombstone, forward_parent: None },
                        );
                        kinds.push(k2);
                        fp = fp2;
                    }
                    let mut j = kinds.len();
                    while j > 0
                        invariant
                            j <= kinds@.len(),
                            this.inv(),
                            this.tokens@ == toks,
                            this.frames@[0].kind == root_kind,
                            forall|k: int| 0 <= k < this.errors@.len() ==> #[trigger] this.errors@[k].span.end <= bound,
                            this.errors@.len() >= n_errors,
                            clean ==> no_error_events(events@) && this.errors@.len() == n_errors,
                        decreases j,
                    {
                        j = j - 1;
                        if kinds[j] != SyntaxKind::Tombstone {
                            this.start_node(kinds[j]);
                        }
                    }
                }
            } else {
                match &events[i] {
                    Event::Token => {
                        this.eat_trivia(this.tokens.len());
                        if this.pos < this.tokens.len() {
                            this.emit();
                        }
                    },
                    Event::FinishNode => {
                        this.close();
                    },
                    Event::Error(e) => {
                        assert(event_within(events@[i as int], bound));
                        assert(!clean);
                        this.errors.push(e.copy());
                    },
                    _ => {},
                }
            }
            i = i + 1;
        }
        // Trailing trivia (and anything left over) belongs to the root.
        this.eat_rest();
        while this.frames.len() > 1
            invariant
                this.inv(),
                this.tokens@ == toks,
                this.pos == toks.len(),
                this.frames@[0].kind == root_kind,
                forall|k: int| 0 <= k < this.errors@.len() ==> #[trigger] this.errors@[k].span.end <= bound,
                this.errors@.len() >= n_errors,
                clean ==> this.errors@.len() == n_errors,
            decreases this.frames@.len(),
        {
            this.close();
        }
        let ghost gathered = this.errors@;
        let errors = crate::diagnostics::sort_errors(this.errors);
        proof {
            vstd::seq_lib::to_multiset_len(errors@);
            vstd::seq_lib::to_multiset_len(gathered);
        }
        proof {
            assert forall|k: int| 0 <= k < errors@.len() implies #[trigger] errors@[k].span.end <= bound by {
                let e = errors@[k];
                assert(errors@.contains(e));
                vstd::seq_lib::to_multiset_contains(errors@, e);
                vstd::seq_lib::to_multiset_contains(gathered, e);
                let q = choose|q: int| 0 <= q < gathered.len() && gathered[q] == e;
                assert(gathered[q].span.end <= bound);
            }
        }
        let ghost fs = this.frames@;
        let root = this.frames.pop().unwrap();
        assert(fs.drop_last() =~= Seq::<Frame>::empty());
        assert(frames_text(fs) == frames_text(fs.drop_last()) + elems_text(root.children@));
        assert(frames_leaves(fs) == frames_leaves(fs.drop_last()) + leaf_pairs(leaves_elems(root.children@)));
        assert(frames_leaves(fs.drop_last()) =~= Seq::empty());
        assert(frames_leaves(fs) =~= leaf_pairs(leaves_elems(root.children@)));
        assert(toks.subrange(0, toks.len() as int) =~= toks);
        (SyntaxNode { kind: root.kind, span: Span::new(0, this.offset), children: root.children }, errors)
    }
}

} // verus!
