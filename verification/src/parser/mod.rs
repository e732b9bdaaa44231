//! Event-based recursive-descent parser with Pratt expressions.
//!
//! * `grammar`: module and items; `types`: types; `pattern`: patterns;
//!   `expr`: expressions.
//! * The parser sees only non-trivia tokens; the sink re-inserts trivia
//!   when it replays the events into the tree.
//! * Total: every input yields a tree and a (possibly empty) error list.
//!   Every loop either consumes a token or stops at an anchor its caller
//!   handles, so parsing terminates on arbitrary token streams.
mod event;
mod expr;
mod grammar;
mod pattern;
mod types;

use crate::diagnostics::{SyntaxError, SyntaxErrorCode};
use crate::kind::{spec_describe, spec_is_trivia, SyntaxKind};
use crate::lexer::{lex, span_bound, Token};
use crate::syntax::{node_text, spans_ok, Parse};
use event::Sink;
use crate::span::Span;
use vstd::prelude::*;

verus! {

/// What the parser decided, in order.
#[derive(Debug)]
pub enum Event {
    StartNode {
        kind: SyntaxKind,
        /// Relative index of a later `StartNode` that must open *before*
        /// this one (the node that `precede`d us).
        forward_parent: Option<usize>,
    },
    /// Consume the next non-trivia token (and any trivia before it).
    Token,
    FinishNode,
    Error(SyntaxError),
}

/// The index of the first non-trivia token at or after `from`.
pub open spec fn first_code(ts: Seq<Token>, from: int) -> Option<int>
    decreases ts.len() - from,
{
    if from < 0 || from >= ts.len() {
        None
    } else if !spec_is_trivia(ts[from].kind) {
        Some(from)
    } else {
        first_code(ts, from + 1)
    }
}

pub proof fn lemma_first_code(ts: Seq<Token>, from: int)
    requires
        0 <= from,
    ensures
        first_code(ts, from) is Some ==> from <= first_code(ts, from)->0 < ts.len()
            && !spec_is_trivia(ts[first_code(ts, from)->0].kind),
        first_code(ts, from) is Some ==> forall|j: int|
            from <= j < first_code(ts, from)->0 ==> #[trigger] spec_is_trivia(ts[j].kind),
        first_code(ts, from) is None ==> forall|j: int|
            from <= j < ts.len() ==> #[trigger] spec_is_trivia(ts[j].kind),
    decreases ts.len() - from,
{
    if from < ts.len() {
        lemma_first_code(ts, from + 1);
    }
}

/// The tokens a parser reads: no synthetic end-of-input token among them.
pub open spec fn readable(ts: Seq<Token>) -> bool {
    forall|j: int| 0 <= j < ts.len() ==> #[trigger] ts[j].kind != SyntaxKind::Eof
}

pub struct Parser<'s> {
    pub tokens: &'s [Token],
    /// Index into `tokens` of the next unconsumed token (may be trivia).
    pub pos: usize,
    pub events: Vec<Event>,
    /// Byte length of the source, the span of the end of input.
    pub src_len: u32,
}

/// An open node; must be completed.
pub struct Marker {
    pub event_index: usize,
}

/// A finished node, which can be wrapped by a later node via `precede`.
#[derive(Clone, Copy)]
pub struct CompletedMarker {
    pub event_index: usize,
}

pub open spec fn is_start(e: Event) -> bool {
    e is StartNode
}

/// Every token ends by `bound`.
pub open spec fn tokens_within(ts: Seq<Token>, bound: u32) -> bool {
    forall|j: int| 0 <= j < ts.len() ==> #[trigger] ts[j].span.end <= bound
}

/// An error event's span ends by `bound`.
pub open spec fn event_within(e: Event, bound: u32) -> bool {
    match e {
        Event::Error(x) => x.span.end <= bound,
        _ => true,
    }
}

/// Every diagnostic recorded among `es` ends by `bound`.
pub open spec fn errors_within(es: Seq<Event>, bound: u32) -> bool {
    forall|i: int| 0 <= i < es.len() ==> event_within(#[trigger] es[i], bound)
}

/// The kind of the `n`-th code token at or after `from` (`Eof` past the
/// end).
pub open spec fn code_kind_after(ts: Seq<Token>, from: int, n: nat) -> SyntaxKind
    decreases ts.len() - from,
{
    if from < 0 {
        SyntaxKind::Eof
    } else {
        match first_code(ts, from) {
            None => SyntaxKind::Eof,
            Some(i) => if n == 0 {
                ts[i].kind
            } else {
                proof {
                    lemma_first_code(ts, from);
                }
                code_kind_after(ts, i + 1, (n - 1) as nat)
            },
        }
    }
}

/// A code token `n` ahead lies at least `n` tokens ahead.
pub proof fn lemma_code_kind_after(ts: Seq<Token>, from: int, n: nat)
    requires
        0 <= from,
        code_kind_after(ts, from, n) != SyntaxKind::Eof,
    ensures
        from + n < ts.len(),
    decreases ts.len() - from,
{
    lemma_first_code(ts, from);
    if n > 0 {
        let i = first_code(ts, from)->0;
        lemma_code_kind_after(ts, i + 1, (n - 1) as nat);
    }
}

/// The next code token ahead is the second one.
pub proof fn lemma_second_ahead(ts: Seq<Token>, pos: int)
    requires
        0 <= pos,
    ensures
        code_kind_after(ts, pos, 1) == (match first_code(ts, pos) {
            Some(i) => match first_code(ts, i + 1) {
                Some(j) => ts[j].kind,
                None => SyntaxKind::Eof,
            },
            None => SyntaxKind::Eof,
        }),
{
    lemma_first_code(ts, pos);
    match first_code(ts, pos) {
        Some(i) => {
            assert(code_kind_after(ts, pos, 1) == code_kind_after(ts, i + 1, 0));
            assert(code_kind_after(ts, i + 1, 0) == (match first_code(ts, i + 1) {
                Some(j) => ts[j].kind,
                None => SyntaxKind::Eof,
            }));
        },
        None => {},
    }
}

/// The first code token at or after `from` is `k` when everything between
/// is trivia.
pub proof fn lemma_first_code_at(ts: Seq<Token>, from: int, k: int)
    requires
        0 <= from <= k < ts.len(),
        !spec_is_trivia(ts[k].kind),
        forall|j: int| from <= j < k ==> spec_is_trivia(#[trigger] ts[j].kind),
    ensures
        first_code(ts, from) == Some(k),
    decreases k - from,
{
    if from < k {
        lemma_first_code_at(ts, from + 1, k);
    }
}

/// There is no code token at or after `from` when everything there is
/// trivia.
pub proof fn lemma_first_code_none(ts: Seq<Token>, from: int)
    requires
        0 <= from,
        forall|j: int| from <= j < ts.len() ==> spec_is_trivia(#[trigger] ts[j].kind),
    ensures
        first_code(ts, from) is None,
    decreases ts.len() - from,
{
    if from < ts.len() {
        lemma_first_code_none(ts, from + 1);
    }
}

/// `e` says what it was built from: a code, a span, a message, the
/// expected tokens and what was found.
pub open spec fn error_is(
    e: SyntaxError,
    code: SyntaxErrorCode,
    span: Span,
    message: Seq<char>,
    expected: Seq<Seq<char>>,
    found: Seq<char>,
) -> bool {
    &&& e.code == code
    &&& e.span == span
    &&& e.message@ == message
    &&& e.expected@.map_values(|x: String| x@) == expected
    &&& e.found@ == found
}

/// `now` is `before` with one more event at the end.
pub open spec fn one_more(before: Seq<Event>, now: Seq<Event>) -> bool {
    now.len() == before.len() + 1 && now.drop_last() == before
}

/// `now` begins with every event of `before`, unchanged.
pub open spec fn keeps_prefix(before: Seq<Event>, now: Seq<Event>) -> bool {
    before.len() <= now.len() && forall|i: int| 0 <= i < before.len() ==> #[trigger] now[i] == before[i]
}

/// `e` with the hint `h`.
pub open spec fn hinted(e: SyntaxError, h: String) -> SyntaxError {
    SyntaxError {
        code: e.code,
        span: e.span,
        message: e.message,
        expected: e.expected,
        found: e.found,
        hint: Some(h),
    }
}

impl<'s> Parser<'s> {
    pub open spec fn wf(&self) -> bool {
        &&& self.pos <= self.tokens@.len()
        &&& readable(self.tokens@)
        &&& tokens_within(self.tokens@, self.src_len)
        &&& errors_within(self.events@, self.src_len)
    }

    /// `self` is `old` after some parsing: same tokens, nothing unconsumed,
    /// events only appended, open nodes still open.
    pub open spec fn grows_from(&self, old: Parser<'s>) -> bool {
        &&& self.wf()
        &&& self.tokens@ == old.tokens@
        &&& self.src_len == old.src_len
        &&& old.pos <= self.pos
        &&& old.events@.len() <= self.events@.len()
        &&& forall|i: int|
            0 <= i < old.events@.len() && #[trigger] is_start(old.events@[i]) ==> is_start(
                self.events@[i],
            )
    }

    pub open spec fn cur_index(&self) -> Option<int> {
        first_code(self.tokens@, self.pos as int)
    }

    /// The current non-trivia token's kind, `Eof` at the end.
    pub open spec fn cur(&self) -> SyntaxKind {
        match self.cur_index() {
            Some(i) => self.tokens@[i].kind,
            None => SyntaxKind::Eof,
        }
    }

    /// The kind of the non-trivia token after the current one.
    pub open spec fn second(&self) -> SyntaxKind {
        match self.cur_index() {
            Some(i) => match first_code(self.tokens@, i + 1) {
                Some(j) => self.tokens@[j].kind,
                None => SyntaxKind::Eof,
            },
            None => SyntaxKind::Eof,
        }
    }

    /// The kind of the `n`-th code token ahead (`Eof` past the end).
    pub open spec fn kind_ahead(&self, n: nat) -> SyntaxKind {
        code_kind_after(self.tokens@, self.pos as int, n)
    }

    /// The current code token's text (empty at the end).
    pub open spec fn cur_text(&self) -> Seq<char> {
        match self.cur_index() {
            Some(i) => self.tokens@[i].text@,
            None => Seq::empty(),
        }
    }

    /// The text of the code token after the current one (empty when there
    /// is none).
    pub open spec fn second_text_view(&self) -> Seq<char> {
        match self.cur_index() {
            Some(i) => match first_code(self.tokens@, i + 1) {
                Some(j) => self.tokens@[j].text@,
                None => Seq::empty(),
            },
            None => Seq::empty(),
        }
    }

    /// The span of the current code token; the empty span at the end of
    /// the source when there is none.
    pub open spec fn cur_span(&self) -> Span {
        match self.cur_index() {
            Some(i) => self.tokens@[i].span,
            None => Span { start: self.src_len, end: self.src_len },
        }
    }

    /// What a diagnostic says was found at the current token.
    pub open spec fn found_text(&self) -> Seq<char> {
        match self.cur() {
            SyntaxKind::Eof => "the end of the source"@,
            SyntaxKind::Ident => "the name `"@ + self.cur_text() + "`"@,
            SyntaxKind::Number => "the number `"@ + self.cur_text() + "`"@,
            SyntaxKind::Error => "`"@ + self.cur_text() + "`"@,
            k => spec_describe(k),
        }
    }

    /// Tokens not yet consumed: the measure every loop decreases.
    pub open spec fn remaining(&self) -> int {
        self.tokens@.len() - self.pos
    }

    pub(crate) fn new(tokens: &'s [Token], src_len: u32) -> (r: Parser<'s>)
        requires
            readable(tokens@),
            tokens_within(tokens@, src_len),
        ensures
            r.wf(),
            r.tokens@ == tokens@,
            r.pos == 0,
            r.events@.len() == 0,
            r.src_len == src_len,
    {
        Parser { tokens, pos: 0, events: Vec::new(), src_len }
    }

    // ---- cursor ----------------------------------------------------------

    fn code_from(&self, from: usize) -> (r: Option<usize>)
        requires
            from <= self.tokens@.len(),
        ensures
            r matches Some(i) ==> first_code(self.tokens@, from as int) == Some(i as int),
            r is None ==> first_code(self.tokens@, from as int) is None,
    {
        let mut j = from;
        while j < self.tokens.len()
            invariant
                from <= j <= self.tokens@.len(),
                first_code(self.tokens@, j as int) == first_code(self.tokens@, from as int),
            decreases self.tokens@.len() - j,
        {
            if !self.tokens[j].kind.is_trivia() {
                return Some(j);
            }
            j = j + 1;
        }
        None
    }

    /// Index of the current non-trivia token.
    pub(crate) fn current_index(&self) -> (r: Option<usize>)
        requires
            self.wf(),
        ensures
            r matches Some(i) ==> self.cur_index() == Some(i as int),
            r is None ==> self.cur_index() is None,
    {
        self.code_from(self.pos)
    }

    /// The kind of the `n`-th non-trivia token ahead (`n` is 0 or 1).
    pub(crate) fn nth(&self, n: usize) -> (r: SyntaxKind)
        requires
            self.wf(),
            n <= 1,
        ensures
            n == 0 ==> r == self.cur(),
            n == 1 ==> r == self.second(),
    {
        match self.current_index() {
            None => SyntaxKind::Eof,
            Some(i) => {
                proof {
                    lemma_first_code(self.tokens@, self.pos as int);
                }
                if n == 0 {
                    self.tokens[i].kind
                } else {
                    let n = self.tokens.len();
                    assert(i < n);
                    proof {
                        lemma_first_code(self.tokens@, i + 1);
                    }
                    match self.code_from(i + 1) {
                        Some(j) => self.tokens[j].kind,
                        None => SyntaxKind::Eof,
                    }
                }
            },
        }
    }

    /// The kind of the `n`-th non-trivia token ahead (`Eof` past the end).
    pub(crate) fn peek(&self, n: usize) -> (r: SyntaxKind)
        requires
            self.wf(),
        ensures
            r == self.kind_ahead(n as nat),
    {
        if n == 0 {
            return self.current();
        }
        let mut k: usize = 0;
        let mut j = self.pos;
        while j < self.tokens.len()
            invariant
                self.pos <= j <= self.tokens@.len(),
                k <= n,
                code_kind_after(self.tokens@, j as int, (n - k) as nat) == self.kind_ahead(n as nat),
            decreases self.tokens@.len() - j,
        {
            match self.code_from(j) {
                None => {
                    return SyntaxKind::Eof;
                },
                Some(i) => {
                    proof {
                        lemma_first_code(self.tokens@, j as int);
                    }
                    if k == n {
                        return self.tokens[i].kind;
                    }
                    if k < n {
                        k = k + 1;
                    }
                    j = i + 1;
                },
            }
        }
        proof {
            lemma_first_code(self.tokens@, j as int);
        }
        SyntaxKind::Eof
    }

    pub(crate) fn current(&self) -> (r: SyntaxKind)
        requires
            self.wf(),
        ensures
            r == self.cur(),
    {
        self.nth(0)
    }

    pub(crate) fn at(&self, kind: SyntaxKind) -> (r: bool)
        requires
            self.wf(),
        ensures
            r == (self.cur() == kind),
    {
        self.current() == kind
    }

    pub(crate) fn at_any(&self, kinds: &[SyntaxKind]) -> (r: bool)
        requires
            self.wf(),
        ensures
            r == kinds@.contains(self.cur()),
    {
        let k = self.current();
        let mut i: usize = 0;
        while i < kinds.len()
            invariant
                i <= kinds@.len(),
                k == self.cur(),
                forall|j: int| 0 <= j < i ==> kinds@[j] != k,
            decreases kinds@.len() - i,
        {
            if kinds[i] == k {
                return true;
            }
            i = i + 1;
        }
        false
    }

    pub(crate) fn at_eof(&self) -> (r: bool)
        requires
            self.wf(),
        ensures
            r == (self.cur() == SyntaxKind::Eof),
            r == (self.cur_index() is None),
    {
        proof {
            lemma_first_code(self.tokens@, self.pos as int);
        }
        self.at(SyntaxKind::Eof)
    }

    /// Span of the current token (empty at the end of input).
    pub(crate) fn current_span(&self) -> (r: Span)
        requires
            self.wf(),
        ensures
            r.end <= self.src_len,
            r == self.cur_span(),
    {
        match self.current_index() {
            Some(i) => {
                proof {
                    lemma_first_code(self.tokens@, self.pos as int);
                }
                self.tokens[i].span
            },
            None => Span::new(self.src_len, self.src_len),
        }
    }

    /// Text of the current token (empty at the end of input).
    pub(crate) fn current_text(&self) -> (r: String)
        requires
            self.wf(),
        ensures
            self.cur_index() matches Some(i) ==> r@ == self.tokens@[i].text@,
            r@ == self.cur_text(),
    {
        match self.current_index() {
            Some(i) => {
                proof {
                    lemma_first_code(self.tokens@, self.pos as int);
                }
                self.tokens[i].text.clone()
            },
            None => String::new(),
        }
    }

    /// Text of the non-trivia token after the current one (empty when
    /// there is none).
    pub(crate) fn second_text(&self) -> (r: String)
        requires
            self.wf(),
        ensures
            r@ == self.second_text_view(),
    {
        match self.current_index() {
            Some(i) => {
                proof {
                    lemma_first_code(self.tokens@, self.pos as int);
                }
                let n = self.tokens.len();
                assert(i < n);
                match self.code_from(i + 1) {
                    Some(j) => {
                        proof {
                            lemma_first_code(self.tokens@, i + 1);
                        }
                        self.tokens[j].text.clone()
                    },
                    None => String::new(),
                }
            },
            None => String::new(),
        }
    }

    /// Whether the current token is the identifier spelled `word`.
    pub(crate) fn at_word(&self, word: &str) -> (r: bool)
        requires
            self.wf(),
        ensures
            r ==> self.cur() == SyntaxKind::Ident,
            r == (self.cur() == SyntaxKind::Ident && self.cur_text() == word@),
    {
        proof {
            lemma_first_code(self.tokens@, self.pos as int);
        }
        match self.current_index() {
            Some(i) => {
                proof {
                    lemma_first_code(self.tokens@, self.pos as int);
                }
                self.tokens[i].kind == SyntaxKind::Ident && crate::text::str_eq(
                    self.tokens[i].text.as_str(),
                    word,
                )
            },
            None => false,
        }
    }

    // ---- consuming -------------------------------------------------------

    /// Consume the current token (never `Eof`).
    pub(crate) fn bump(&mut self)
        requires
            old(self).wf(),
        ensures
            final(self).grows_from(*old(self)),
            old(self).cur() != SyntaxKind::Eof ==> final(self).pos > old(self).pos,
            old(self).cur() != SyntaxKind::Eof ==> final(self).cur() == old(self).second(),
            old(self).cur() == SyntaxKind::Eof ==> final(self).pos == old(self).pos,
            keeps_prefix(old(self).events@, final(self).events@),
            event::no_error_events(old(self).events@) ==> event::no_error_events(final(self).events@),
    {
        proof {
            lemma_first_code(self.tokens@, self.pos as int);
        }
        if let Some(i) = self.current_index() {
            let n = self.tokens.len();
            assert(i < n);
            self.pos = i + 1;
            self.events.push(Event::Token);
        }
    }

    pub(crate) fn eat(&mut self, kind: SyntaxKind) -> (r: bool)
        requires
            old(self).wf(),
            kind != SyntaxKind::Eof,
        ensures
            final(self).grows_from(*old(self)),
            r == (old(self).cur() == kind),
            r ==> final(self).pos > old(self).pos,
            !r ==> final(self).pos == old(self).pos,
    {
        if self.at(kind) {
            self.bump();
            true
        } else {
            false
        }
    }

    /// Consume `kind` or report `message` at the current token without
    /// consuming anything.
    pub(crate) fn expect(&mut self, kind: SyntaxKind, message: &str) -> (r: bool)
        requires
            old(self).wf(),
            kind != SyntaxKind::Eof,
        ensures
            final(self).grows_from(*old(self)),
            r == (old(self).cur() == kind),
            r ==> final(self).pos > old(self).pos,
            !r ==> final(self).pos == old(self).pos,
    {
        if self.eat(kind) {
            return true;
        }
        self.error_expecting(message, &[kind]);
        false
    }

    // ---- nodes -----------------------------------------------------------

    pub(crate) fn start(&mut self) -> (m: Marker)
        requires
            old(self).wf(),
        ensures
            final(self).grows_from(*old(self)),
            final(self).pos == old(self).pos,
            m.valid(*final(self)),
            m.event_index == old(self).events@.len(),
            keeps_prefix(old(self).events@, final(self).events@),
            event::no_error_events(old(self).events@) ==> event::no_error_events(final(self).events@),
    {
        let index = self.events.len();
        self.events.push(Event::StartNode { kind: SyntaxKind::Tombstone, forward_parent: None });
        Marker::new(index)
    }

    // ---- errors ----------------------------------------------------------

    fn found(&self) -> (r: String)
        requires
            self.wf(),
        ensures
            r@ == self.found_text(),
    {
        match self.current() {
            SyntaxKind::Eof => String::from_str("the end of the source"),
            SyntaxKind::Ident => String::from_str("the name `").concat(self.current_text().as_str()).concat("`"),
            SyntaxKind::Number => String::from_str("the number `").concat(self.current_text().as_str()).concat("`"),
            SyntaxKind::Error => String::from_str("`").concat(self.current_text().as_str()).concat("`"),
            k => k.describe(),
        }
    }

    pub(crate) fn push_error(&mut self, error: SyntaxError)
        requires
            old(self).wf(),
            error.span.end <= old(self).src_len,
        ensures
            final(self).grows_from(*old(self)),
            final(self).pos == old(self).pos,
            final(self).events@ == old(self).events@.push(Event::Error(error)),
    {
        self.events.push(Event::Error(error));
    }

    /// Report at the current token; nothing is consumed.
    pub(crate) fn error(&mut self, code: SyntaxErrorCode, message: String)
        requires
            old(self).wf(),
        ensures
            final(self).grows_from(*old(self)),
            final(self).pos == old(self).pos,
            one_more(old(self).events@, final(self).events@),
            final(self).events@.last() matches Event::Error(e) && error_is(
                e,
                code,
                old(self).cur_span(),
                message@,
                Seq::empty(),
                old(self).found_text(),
            ) && e.hint is None,
    {
        let e = SyntaxError::new(code, self.current_span(), message, self.found());
        assert(e.expected@.map_values(|x: String| x@) =~= Seq::<Seq<char>>::empty());
        self.push_error(e);
        assert(self.events@.drop_last() =~= old(self).events@);
    }

    pub(crate) fn error_expecting(&mut self, message: &str, expected: &[SyntaxKind])
        requires
            old(self).wf(),
        ensures
            final(self).grows_from(*old(self)),
            final(self).pos == old(self).pos,
            one_more(old(self).events@, final(self).events@),
            final(self).events@.last() matches Event::Error(e) && error_is(
                e,
                SyntaxErrorCode::Expected,
                old(self).cur_span(),
                message@,
                expected@.map_values(|k: SyntaxKind| spec_describe(k)),
                old(self).found_text(),
            ) && e.hint is None,
    {
        let mut names: Vec<String> = Vec::new();
        let mut i: usize = 0;
        while i < expected.len()
            invariant
                i <= expected@.len(),
                names@.map_values(|x: String| x@) == expected@.take(i as int).map_values(
                    |k: SyntaxKind| spec_describe(k),
                ),
            decreases expected@.len() - i,
        {
            let d = expected[i].describe();
            let ghost before = names@;
            names.push(d);
            assert(names@.map_values(|x: String| x@) =~= before.map_values(|x: String| x@).push(d@));
            assert(expected@.take(i + 1).map_values(|k: SyntaxKind| spec_describe(k))
                =~= expected@.take(i as int).map_values(|k: SyntaxKind| spec_describe(k)).push(
                spec_describe(expected@[i as int]),
            ));
            i = i + 1;
        }
        assert(expected@.take(expected@.len() as int) =~= expected@);
        let e = SyntaxError::new(
            SyntaxErrorCode::Expected,
            self.current_span(),
            String::from_str(message),
            self.found(),
        ).expecting(names);
        self.push_error(e);
        assert(self.events@.drop_last() =~= old(self).events@);
    }

    /// Attach a hint to the most recently pushed error.
    pub(crate) fn hint(&mut self, hint: String)
        requires
            old(self).wf(),
        ensures
            final(self).grows_from(*old(self)),
            final(self).pos == old(self).pos,
            old(self).events@.len() > 0 && old(self).events@.last() is Error ==> final(self).events@
                == old(self).events@.drop_last().push(
                Event::Error(hinted(old(self).events@.last()->Error_0, hint)),
            ),
            !(old(self).events@.len() > 0 && old(self).events@.last() is Error)
                ==> final(self).events@ == old(self).events@,
    {
        match self.events.pop() {
            Some(Event::Error(e)) => {
                let h = e.with_hint(hint);
                assert(h == hinted(e, hint));
                self.events.push(Event::Error(h));
            },
            Some(other) => {
                self.events.push(other);
            },
            None => {},
        }
    }

    /// Report and consume the current token inside an `ErrorNode`.
    pub(crate) fn error_and_bump(&mut self, code: SyntaxErrorCode, message: &str)
        requires
            old(self).wf(),
        ensures
            final(self).grows_from(*old(self)),
            old(self).cur() != SyntaxKind::Eof ==> final(self).pos > old(self).pos,
    {
        self.error(code, String::from_str(message));
        self.bump_as_error();
    }

    /// Wrap the current token in an `ErrorNode` (no diagnostic).
    pub(crate) fn bump_as_error(&mut self)
        requires
            old(self).wf(),
        ensures
            final(self).grows_from(*old(self)),
            old(self).cur() != SyntaxKind::Eof ==> final(self).pos > old(self).pos,
    {
        if self.at_eof() {
            return;
        }
        let m = self.start();
        self.bump();
        m.complete(self, SyntaxKind::ErrorNode);
    }

    /// Report; then consume the current token unless it is an anchor the
    /// caller can resynchronise on.
    pub(crate) fn error_recover(&mut self, code: SyntaxErrorCode, message: &str, anchors: &[SyntaxKind])
        requires
            old(self).wf(),
        ensures
            final(self).grows_from(*old(self)),
            old(self).cur() != SyntaxKind::Eof && !anchors@.contains(old(self).cur()) ==> final(self).pos
                > old(self).pos,
    {
        self.error(code, String::from_str(message));
        if !self.at_any(anchors) && !self.at_eof() {
            self.bump_as_error();
        }
    }

    /// Consume tokens into one `ErrorNode` until an anchor or the end.
    /// Always consumes at least one token when not at an anchor.
    pub(crate) fn skip_until(&mut self, anchors: &[SyntaxKind])
        requires
            old(self).wf(),
        ensures
            final(self).grows_from(*old(self)),
            final(self).cur() == SyntaxKind::Eof || anchors@.contains(final(self).cur()),
            old(self).cur() != SyntaxKind::Eof && !anchors@.contains(old(self).cur()) ==> final(self).pos
                > old(self).pos,
            keeps_prefix(old(self).events@, final(self).events@),
    {
        if self.at_eof() || self.at_any(anchors) {
            return;
        }
        let m = self.start();
        while !self.at_eof() && !self.at_any(anchors)
            invariant
                self.grows_from(*old(self)),
                keeps_prefix(old(self).events@, self.events@),
                m.event_index >= old(self).events@.len(),
                m.valid(*self),
                self.pos > old(self).pos || (self.cur() == old(self).cur()),
                old(self).cur() != SyntaxKind::Eof && !anchors@.contains(old(self).cur()),
            decreases self.remaining(),
        {
            self.bump();
        }
        m.complete(self, SyntaxKind::ErrorNode);
    }
}

impl Marker {
    pub open spec fn valid(&self, p: Parser) -> bool {
        &&& self.event_index < p.events@.len()
        &&& is_start(p.events@[self.event_index as int])
    }

    pub(crate) fn new(event_index: usize) -> (r: Marker)
        ensures
            r.event_index == event_index,
    {
        Marker { event_index }
    }

    /// Close the node: it gets its kind, and a `FinishNode` is recorded.
    pub(crate) fn complete(self, p: &mut Parser, kind: SyntaxKind) -> (r: CompletedMarker)
        requires
            old(p).wf(),
            self.valid(*old(p)),
        ensures
            final(p).grows_from(*old(p)),
            final(p).pos == old(p).pos,
            r.valid(*final(p)),
            r.event_index == self.event_index,
            final(p).events@.len() == old(p).events@.len() + 1,
            forall|i: int|
                0 <= i < old(p).events@.len() && i != self.event_index ==> #[trigger] final(p).events@[i]
                    == old(p).events@[i],
            event::no_error_events(old(p).events@) ==> event::no_error_events(final(p).events@),
    {
        let fp = match &p.events[self.event_index] {
            Event::StartNode { forward_parent, .. } => *forward_parent,
            _ => None,
        };
        p.events.set(self.event_index, Event::StartNode { kind, forward_parent: fp });
        p.events.push(Event::FinishNode);
        CompletedMarker { event_index: self.event_index }
    }
}

impl CompletedMarker {
    pub open spec fn valid(&self, p: Parser) -> bool {
        &&& self.event_index < p.events@.len()
        &&& is_start(p.events@[self.event_index as int])
    }

    /// Open a new node *around* this completed one.
    pub(crate) fn precede(self, p: &mut Parser) -> (m: Marker)
        requires
            old(p).wf(),
            self.valid(*old(p)),
        ensures
            final(p).grows_from(*old(p)),
            final(p).pos == old(p).pos,
            m.valid(*final(p)),
            event::no_error_events(old(p).events@) ==> event::no_error_events(final(p).events@),
    {
        let new = p.start();
        let kind = match &p.events[self.event_index] {
            Event::StartNode { kind, .. } => *kind,
            _ => SyntaxKind::Tombstone,
        };
        p.events.set(
            self.event_index,
            Event::StartNode { kind, forward_parent: Some(new.event_index - self.event_index) },
        );
        new
    }
}


/// The byte length of the source that `tokens` cover, saturated to `u32`.
fn end_of(tokens: &Vec<Token>) -> (r: u32)
    ensures
        tokens@.len() == 0 ==> r == 0,
        tokens@.len() > 0 ==> r == tokens@.last().span.end,
{
    if tokens.len() == 0 {
        0
    } else {
        tokens[tokens.len() - 1].span.end
    }
}

/// Parse a whole source file (`Module ::= Item* EOF`).  Total: any input
/// gives a tree whose root is a `Module` and whose text is the source.
pub fn parse_module(src: &str) -> (r: Parse)
    ensures
        r.root.kind == SyntaxKind::Module,
        node_text(r.root) == src@,
        crate::lexer::trivia_only(src@) && crate::lexer::lex_diagnostics(src@).len() == 0 ==> r.errors@.len()
            == 0,
        r.errors@.len() >= crate::lexer::lex_diagnostics(src@).len(),
        crate::diagnostics::errors_sorted(r.errors@),
        crate::format::leaf_pairs(crate::format::leaves(r.root)) == crate::lexer::lexed_pairs(src@),
        spans_ok(r.root),
        r.root.span == (Span { start: 0, end: span_bound(src@, src@.len() as int) }),
        forall|k: int|
            0 <= k < r.errors@.len() ==> #[trigger] r.errors@[k].span.end <= span_bound(
                src@,
                src@.len() as int,
            ),
{
    let (tokens, lexical_errors) = lex(src);
    proof {
        crate::lexer::lemma_lexed_pairs(src@, tokens@);
    }
    let bound = end_of(&tokens);
    let mut p = Parser::new(tokens.as_slice(), bound);
    proof {
        lemma_first_code(tokens@, 0);
        if crate::lexer::trivia_only(src@) {
            if first_code(tokens@, 0) is Some {
                let k = first_code(tokens@, 0)->0;
                assert(tokens@[k].kind == crate::lexer::spec_tokens(src@, 0)[k].0);
            }
        }
    }
    grammar::module(&mut p);
    let events = p.events;
    assert(crate::lexer::trivia_only(src@) ==> event::no_error_events(events@));
    let (root, errors) = Sink::new(tokens.as_slice(), lexical_errors, SyntaxKind::Module).build(
        events,
        Ghost(bound),
    );
    Parse { root, errors }
}

/// Parse a single expression that must span the whole source (the canvas
/// formula field).  The root is a `Formula`, and its text is the source.
pub fn parse_formula(src: &str) -> (r: Parse)
    ensures
        r.root.kind == SyntaxKind::Formula,
        node_text(r.root) == src@,
        crate::lexer::one_name(src@) && crate::lexer::lex_diagnostics(src@).len() == 0 ==> r.errors@.len()
            == 0,
        r.errors@.len() >= crate::lexer::lex_diagnostics(src@).len(),
        crate::diagnostics::errors_sorted(r.errors@),
        crate::format::leaf_pairs(crate::format::leaves(r.root)) == crate::lexer::lexed_pairs(src@),
        spans_ok(r.root),
        r.root.span == (Span { start: 0, end: span_bound(src@, src@.len() as int) }),
        forall|k: int|
            0 <= k < r.errors@.len() ==> #[trigger] r.errors@[k].span.end <= span_bound(
                src@,
                src@.len() as int,
            ),
{
    let (tokens, lexical_errors) = lex(src);
    proof {
        crate::lexer::lemma_lexed_pairs(src@, tokens@);
    }
    let bound = end_of(&tokens);
    let mut p = Parser::new(tokens.as_slice(), bound);
    proof {
        if crate::lexer::one_name(src@) {
            let sp = crate::lexer::spec_tokens(src@, 0);
            let k = choose|k: int|
                0 <= k < sp.len() && (#[trigger] sp[k]).0 == SyntaxKind::Ident && forall|j: int|
                    0 <= j < sp.len() && j != k ==> spec_is_trivia((#[trigger] sp[j]).0);
            assert(tokens@[k].kind == sp[k].0);
            assert forall|j: int| 0 <= j < k implies spec_is_trivia(#[trigger] tokens@[j].kind) by {
                assert(tokens@[j].kind == sp[j].0);
            }
            assert forall|j: int| k + 1 <= j < tokens@.len() implies spec_is_trivia(
                #[trigger] tokens@[j].kind,
            ) by {
                assert(tokens@[j].kind == sp[j].0);
            }
            lemma_first_code_at(tokens@, 0, k);
            lemma_first_code_none(tokens@, k + 1);
            assert(event::no_error_events(p.events@));
        }
    }
    grammar::formula(&mut p);
    let events = p.events;
    let (root, errors) = Sink::new(tokens.as_slice(), lexical_errors, SyntaxKind::Formula).build(
        events,
        Ghost(bound),
    );
    Parse { root, errors }
}

} // verus!
