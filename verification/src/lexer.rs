//! The lexer.  Every character of the source belongs to exactly one token
//! (trivia and error tokens included), so the token texts concatenate back
//! to the source.  Unknown characters become `Error` tokens covering one
//! whole character.  Numbers are spelled, not valued.
use crate::diagnostics::{SyntaxError, SyntaxErrorCode};
use crate::kind::{keyword_of, spec_fixed_text, spec_from_keyword, SyntaxKind};
use crate::span::Span;
use crate::text::{chars_of, string_of};
use vstd::prelude::*;

verus! {

/// One token: its kind, its byte span and its text.
#[derive(Debug)]
pub struct Token {
    pub kind: SyntaxKind,
    pub span: Span,
    pub text: String,
}

impl Token {
    pub fn text(&self) -> (r: &str)
        ensures
            r@ == self.text@,
    {
        self.text.as_str()
    }
}

// ---- character classes ----------------------------------------------------

pub open spec fn is_ws(c: char) -> bool {
    c == ' ' || c == '\t' || c == '\r' || c == '\n' || c == '\x0C'
}

pub open spec fn is_digit(c: char) -> bool {
    '0' <= c && c <= '9'
}

pub open spec fn is_ident_start(c: char) -> bool {
    ('a' <= c && c <= 'z') || ('A' <= c && c <= 'Z') || c == '_'
}

pub open spec fn is_ident_continue(c: char) -> bool {
    is_ident_start(c) || is_digit(c)
}

/// Bytes of the UTF-8 encoding of `c`.
pub open spec fn utf8_len(c: char) -> int {
    if (c as u32) < 0x80 {
        1
    } else if (c as u32) < 0x800 {
        2
    } else if (c as u32) < 0x10000 {
        3
    } else {
        4
    }
}

/// The byte offset of character index `i` of `s`.
pub open spec fn byte_offset(s: Seq<char>, i: int) -> int
    decreases i,
{
    if i <= 0 {
        0
    } else {
        byte_offset(s, i - 1) + utf8_len(s[i - 1])
    }
}

pub proof fn lemma_byte_offset_nonneg(s: Seq<char>, i: int)
    ensures
        byte_offset(s, i) >= 0,
    decreases i,
{
    if i > 0 {
        lemma_byte_offset_nonneg(s, i - 1);
    }
}

/// A byte offset as a span bound (saturating beyond `u32::MAX`).
pub open spec fn span_bound(s: Seq<char>, i: int) -> u32 {
    if byte_offset(s, i) > u32::MAX {
        u32::MAX
    } else {
        byte_offset(s, i) as u32
    }
}

// ---- the scanner, position by position -------------------------------------

/// End of the run of characters of `class` starting at `i`.
pub open spec fn ws_end(s: Seq<char>, i: int) -> int
    decreases s.len() - i,
{
    if i < 0 || i >= s.len() || !is_ws(s[i]) {
        i
    } else {
        ws_end(s, i + 1)
    }
}

pub open spec fn digits_end(s: Seq<char>, i: int) -> int
    decreases s.len() - i,
{
    if i < 0 || i >= s.len() || !is_digit(s[i]) {
        i
    } else {
        digits_end(s, i + 1)
    }
}

pub open spec fn ident_end(s: Seq<char>, i: int) -> int
    decreases s.len() - i,
{
    if i < 0 || i >= s.len() || !is_ident_continue(s[i]) {
        i
    } else {
        ident_end(s, i + 1)
    }
}

/// End of a line comment whose text continues at `i`: the next `\n`
/// (excluded) or the end of the source.
pub open spec fn line_end(s: Seq<char>, i: int) -> int
    decreases s.len() - i,
{
    if i < 0 || i >= s.len() || s[i] == '\n' {
        i
    } else {
        line_end(s, i + 1)
    }
}

/// End of a block comment whose text continues at `i`: just after the
/// next `*/`, or the end of the source.
pub open spec fn block_end(s: Seq<char>, i: int) -> int
    decreases s.len() - i,
{
    if i < 0 || i + 1 >= s.len() {
        s.len() as int
    } else if s[i] == '*' && s[i + 1] == '/' {
        i + 2
    } else {
        block_end(s, i + 1)
    }
}

/// Whether the block comment whose text continues at `i` is closed.
pub open spec fn block_closed(s: Seq<char>, i: int) -> bool
    decreases s.len() - i,
{
    if i < 0 || i + 1 >= s.len() {
        false
    } else if s[i] == '*' && s[i + 1] == '/' {
        true
    } else {
        block_closed(s, i + 1)
    }
}

pub open spec fn at(s: Seq<char>, i: int, c: char) -> bool {
    0 <= i < s.len() && s[i] == c
}

/// End of a number token starting at `i` (a digit, or `.` before a digit):
/// `[0-9]+(\.[0-9]+)?([eE][+-]?[0-9]+)?` or `\.[0-9]+([eE][+-]?[0-9]+)?`.
pub open spec fn number_end(s: Seq<char>, i: int) -> int {
    let a = digits_end(s, i);
    let b = if at(s, a, '.') && a + 1 < s.len() && is_digit(s[a + 1]) {
        digits_end(s, a + 1)
    } else {
        a
    };
    if at(s, b, 'e') || at(s, b, 'E') {
        let j = if at(s, b + 1, '+') || at(s, b + 1, '-') {
            b + 2
        } else {
            b + 1
        };
        if j < s.len() && is_digit(s[j]) {
            digits_end(s, j)
        } else {
            b
        }
    } else {
        b
    }
}

/// The kind of an identifier-shaped word.
pub open spec fn word_kind(w: Seq<char>) -> SyntaxKind {
    if w == seq!['_'] {
        SyntaxKind::Underscore
    } else {
        match spec_from_keyword(w) {
            Some(k) => k,
            None => SyntaxKind::Ident,
        }
    }
}

/// A one- or two-character operator or punctuation at `i`, longest match.
pub open spec fn punct_at(s: Seq<char>, i: int) -> (SyntaxKind, int) {
    let c = s[i];
    if c == '-' {
        if at(s, i + 1, '>') { (SyntaxKind::Arrow, i + 2) } else { (SyntaxKind::Minus, i + 1) }
    } else if c == '=' {
        if at(s, i + 1, '>') {
            (SyntaxKind::FatArrow, i + 2)
        } else if at(s, i + 1, '=') {
            (SyntaxKind::EqEq, i + 2)
        } else {
            (SyntaxKind::Eq, i + 1)
        }
    } else if c == '!' {
        if at(s, i + 1, '=') { (SyntaxKind::Ne, i + 2) } else { (SyntaxKind::Bang, i + 1) }
    } else if c == '<' {
        if at(s, i + 1, '=') { (SyntaxKind::Le, i + 2) } else { (SyntaxKind::Lt, i + 1) }
    } else if c == '>' {
        if at(s, i + 1, '=') { (SyntaxKind::Ge, i + 2) } else { (SyntaxKind::Gt, i + 1) }
    } else if c == '&' {
        if at(s, i + 1, '&') { (SyntaxKind::AndAnd, i + 2) } else { (SyntaxKind::Error, i + 1) }
    } else if c == '|' {
        if at(s, i + 1, '|') { (SyntaxKind::OrOr, i + 2) } else { (SyntaxKind::Error, i + 1) }
    } else if c == '.' {
        if at(s, i + 1, '.') { (SyntaxKind::DotDot, i + 2) } else { (SyntaxKind::Dot, i + 1) }
    } else if c == '?' {
        if at(s, i + 1, '?') {
            (SyntaxKind::QuestionQuestion, i + 2)
        } else {
            (SyntaxKind::Question, i + 1)
        }
    } else if c == '(' {
        (SyntaxKind::LParen, i + 1)
    } else if c == ')' {
        (SyntaxKind::RParen, i + 1)
    } else if c == '{' {
        (SyntaxKind::LBrace, i + 1)
    } else if c == '}' {
        (SyntaxKind::RBrace, i + 1)
    } else if c == '[' {
        (SyntaxKind::LBracket, i + 1)
    } else if c == ']' {
        (SyntaxKind::RBracket, i + 1)
    } else if c == ':' {
        (SyntaxKind::Colon, i + 1)
    } else if c == ',' {
        (SyntaxKind::Comma, i + 1)
    } else if c == ';' {
        (SyntaxKind::Semi, i + 1)
    } else if c == '+' {
        (SyntaxKind::Plus, i + 1)
    } else if c == '*' {
        (SyntaxKind::Star, i + 1)
    } else if c == '/' {
        (SyntaxKind::Slash, i + 1)
    } else if c == '@' {
        (SyntaxKind::At, i + 1)
    } else if c == '^' {
        (SyntaxKind::Caret, i + 1)
    } else {
        (SyntaxKind::Error, i + 1)
    }
}

/// The token that starts at `i` (for `0 <= i < s.len()`): its kind and
/// its end.
pub open spec fn scan(s: Seq<char>, i: int) -> (SyntaxKind, int) {
    let c = s[i];
    if is_ws(c) {
        (SyntaxKind::Whitespace, ws_end(s, i))
    } else if c == '/' && at(s, i + 1, '/') {
        (SyntaxKind::LineComment, line_end(s, i + 2))
    } else if c == '/' && at(s, i + 1, '*') {
        (SyntaxKind::BlockComment, block_end(s, i + 2))
    } else if is_ident_start(c) {
        let e = ident_end(s, i);
        (word_kind(s.subrange(i, e)), e)
    } else if is_digit(c) || (c == '.' && i + 1 < s.len() && is_digit(s[i + 1])) {
        (SyntaxKind::Number, number_end(s, i))
    } else {
        punct_at(s, i)
    }
}

/// The tokens of `s` from character `i` on, as `(kind, start, end)`
/// character ranges.
pub open spec fn spec_tokens(s: Seq<char>, i: int) -> Seq<(SyntaxKind, int, int)>
    decreases s.len() - i,
{
    if i < 0 || i >= s.len() {
        Seq::empty()
    } else {
        let (k, e) = scan(s, i);
        if e <= i || e > s.len() {
            Seq::empty()
        } else {
            seq![(k, i, e)] + spec_tokens(s, e)
        }
    }
}

/// The lexical diagnostics of a token sequence: an invalid character per
/// `Error` token, an unterminated comment per unclosed block comment.
pub open spec fn spec_diagnostics(s: Seq<char>, ts: Seq<(SyntaxKind, int, int)>) -> Seq<
    (SyntaxErrorCode, Span),
>
    decreases ts.len(),
{
    if ts.len() == 0 {
        Seq::empty()
    } else {
        let (k, a, b) = ts.last();
        let rest = spec_diagnostics(s, ts.drop_last());
        let span = Span { start: span_bound(s, a), end: span_bound(s, b) };
        if k == SyntaxKind::Error {
            rest.push((SyntaxErrorCode::InvalidCharacter, span))
        } else if k == SyntaxKind::BlockComment && !block_closed(s, a + 2) {
            rest.push((SyntaxErrorCode::UnterminatedComment, span))
        } else {
            rest
        }
    }
}

/// What each lexical diagnostic says: its message and what it found, in
/// source order.
pub open spec fn spec_diagnostic_words(s: Seq<char>, ts: Seq<(SyntaxKind, int, int)>) -> Seq<
    (Seq<char>, Seq<char>),
>
    decreases ts.len(),
{
    if ts.len() == 0 {
        Seq::empty()
    } else {
        let (k, a, b) = ts.last();
        let rest = spec_diagnostic_words(s, ts.drop_last());
        let text = s.subrange(a, b);
        if k == SyntaxKind::Error {
            rest.push(("`"@ + text + "` cannot appear in BDL source"@, "`"@ + text + "`"@))
        } else if k == SyntaxKind::BlockComment && !block_closed(s, a + 2) {
            rest.push(("this `/*` comment is never closed"@, "the end of the source"@))
        } else {
            rest
        }
    }
}

/// The texts of a token sequence, concatenated.
pub open spec fn tokens_text(ts: Seq<Token>) -> Seq<char>
    decreases ts.len(),
{
    if ts.len() == 0 {
        Seq::empty()
    } else {
        tokens_text(ts.drop_last()) + ts.last().text@
    }
}

/// `toks` is exactly the lexing of `s`.
pub open spec fn lexes_to(s: Seq<char>, toks: Seq<Token>) -> bool {
    let ts = spec_tokens(s, 0);
    &&& toks.len() == ts.len()
    &&& forall|j: int|
        #![trigger toks[j]]
        0 <= j < toks.len() ==> {
            &&& toks[j].kind == ts[j].0
            &&& toks[j].text@ == s.subrange(ts[j].1, ts[j].2)
            &&& toks[j].span == Span { start: span_bound(s, ts[j].1), end: span_bound(s, ts[j].2) }
        }
}

/// The lexical diagnostics of the source (code and span of each).
pub open spec fn lex_diagnostics(s: Seq<char>) -> Seq<(SyntaxErrorCode, Span)> {
    spec_diagnostics(s, spec_tokens(s, 0))
}

/// The source holds nothing but white space and comments.
pub open spec fn trivia_only(s: Seq<char>) -> bool {
    forall|j: int| 0 <= j < spec_tokens(s, 0).len() ==> crate::kind::spec_is_trivia(#[trigger] spec_tokens(s, 0)[j].0)
}

/// The source is one name, with only white space and comments around it.
pub open spec fn one_name(s: Seq<char>) -> bool {
    exists|k: int|
        0 <= k < spec_tokens(s, 0).len() && (#[trigger] spec_tokens(s, 0)[k]).0 == SyntaxKind::Ident
            && forall|j: int|
            0 <= j < spec_tokens(s, 0).len() && j != k ==> crate::kind::spec_is_trivia(
                (#[trigger] spec_tokens(s, 0)[j]).0,
            )
}

/// The source's tokens as kinds and texts, as the scanner reads them.
pub open spec fn lexed_pairs(s: Seq<char>) -> Seq<(SyntaxKind, Seq<char>)> {
    spec_tokens(s, 0).map_values(|t: (SyntaxKind, int, int)| (t.0, s.subrange(t.1, t.2)))
}

/// Tokens that lex the source show its scanned kinds and texts.
pub proof fn lemma_lexed_pairs(s: Seq<char>, toks: Seq<Token>)
    requires
        lexes_to(s, toks),
    ensures
        toks.map_values(|t: Token| (t.kind, t.text@)) == lexed_pairs(s),
{
    assert(toks.map_values(|t: Token| (t.kind, t.text@)) =~= lexed_pairs(s));
}

// ---- bounds of the scanner ---------------------------------------------------

proof fn lemma_runs(s: Seq<char>, j: int)
    requires
        0 <= j <= s.len(),
    ensures
        j <= ws_end(s, j) <= s.len(),
        j <= digits_end(s, j) <= s.len(),
        j <= ident_end(s, j) <= s.len(),
        j <= line_end(s, j) <= s.len(),
        j <= block_end(s, j) <= s.len(),
    decreases s.len() - j,
{
    if j < s.len() {
        lemma_runs(s, j + 1);
    }
}

/// The token at `i` is non-empty and inside the source.
pub proof fn lemma_scan(s: Seq<char>, i: int)
    requires
        0 <= i < s.len(),
    ensures
        i < scan(s, i).1 <= s.len(),
{
    lemma_runs(s, i);
    lemma_runs(s, i + 1);
    let c = s[i];
    if c == '/' && at(s, i + 1, '/') {
        lemma_runs(s, i + 2);
    } else if c == '/' && at(s, i + 1, '*') {
        lemma_runs(s, i + 2);
    } else if is_digit(c) || (c == '.' && i + 1 < s.len() && is_digit(s[i + 1])) {
        let a = digits_end(s, i);
        lemma_runs(s, a);
        if at(s, a, '.') && a + 1 < s.len() && is_digit(s[a + 1]) {
            lemma_runs(s, a + 1);
            lemma_runs(s, a + 2);
        }
        let b = if at(s, a, '.') && a + 1 < s.len() && is_digit(s[a + 1]) {
            digits_end(s, a + 1)
        } else {
            a
        };
        if b + 2 <= s.len() {
            lemma_runs(s, b + 2);
        }
        if b + 1 <= s.len() {
            lemma_runs(s, b + 1);
        }
        if is_digit(c) {
            lemma_runs(s, i + 1);
        }
    }
}

/// One step of `spec_tokens`.
pub proof fn lemma_tokens_step(s: Seq<char>, i: int)
    requires
        0 <= i < s.len(),
    ensures
        spec_tokens(s, i) == seq![(scan(s, i).0, i, scan(s, i).1)] + spec_tokens(s, scan(s, i).1),
{
    lemma_scan(s, i);
}

// ---- the executable scanner ------------------------------------------------

fn ws_c(c: char) -> (r: bool)
    ensures
        r == is_ws(c),
{
    c == ' ' || c == '\t' || c == '\r' || c == '\n' || c == '\x0C'
}

fn digit_c(c: char) -> (r: bool)
    ensures
        r == is_digit(c),
{
    '0' <= c && c <= '9'
}

fn ident_start_c(c: char) -> (r: bool)
    ensures
        r == is_ident_start(c),
{
    ('a' <= c && c <= 'z') || ('A' <= c && c <= 'Z') || c == '_'
}

fn ident_continue_c(c: char) -> (r: bool)
    ensures
        r == is_ident_continue(c),
{
    ident_start_c(c) || digit_c(c)
}

fn at_c(cs: &[char], i: usize, c: char) -> (r: bool)
    ensures
        r == at(cs@, i as int, c),
{
    i < cs.len() && cs[i] == c
}

fn ws_end_c(cs: &[char], i: usize) -> (r: usize)
    requires
        i <= cs@.len(),
    ensures
        r == ws_end(cs@, i as int),
{
    let mut j = i;
    while j < cs.len() && ws_c(cs[j])
        invariant
            i <= j <= cs@.len(),
            ws_end(cs@, j as int) == ws_end(cs@, i as int),
        decreases cs@.len() - j,
    {
        j = j + 1;
    }
    j
}

fn digits_end_c(cs: &[char], i: usize) -> (r: usize)
    requires
        i <= cs@.len(),
    ensures
        r == digits_end(cs@, i as int),
{
    let mut j = i;
    while j < cs.len() && digit_c(cs[j])
        invariant
            i <= j <= cs@.len(),
            digits_end(cs@, j as int) == digits_end(cs@, i as int),
        decreases cs@.len() - j,
    {
        j = j + 1;
    }
    j
}

fn ident_end_c(cs: &[char], i: usize) -> (r: usize)
    requires
        i <= cs@.len(),
    ensures
        r == ident_end(cs@, i as int),
{
    let mut j = i;
    while j < cs.len() && ident_continue_c(cs[j])
        invariant
            i <= j <= cs@.len(),
            ident_end(cs@, j as int) == ident_end(cs@, i as int),
        decreases cs@.len() - j,
    {
        j = j + 1;
    }
    j
}

fn line_end_c(cs: &[char], i: usize) -> (r: usize)
    requires
        i <= cs@.len(),
    ensures
        r == line_end(cs@, i as int),
{
    let mut j = i;
    while j < cs.len() && cs[j] != '\n'
        invariant
            i <= j <= cs@.len(),
            line_end(cs@, j as int) == line_end(cs@, i as int),
        decreases cs@.len() - j,
    {
        j = j + 1;
    }
    j
}

fn block_end_c(cs: &[char], i: usize) -> (r: (usize, bool))
    requires
        i <= cs@.len(),
    ensures
        r.0 == block_end(cs@, i as int),
        r.1 == block_closed(cs@, i as int),
{
    let mut j = i;
    while j < cs.len() && cs.len() - j > 1
        invariant
            i <= j <= cs@.len(),
            block_end(cs@, j as int) == block_end(cs@, i as int),
            block_closed(cs@, j as int) == block_closed(cs@, i as int),
        decreases cs@.len() - j,
    {
        if cs[j] == '*' && cs[j + 1] == '/' {
            return (j + 2, true);
        }
        j = j + 1;
    }
    (cs.len(), false)
}

fn number_end_c(cs: &[char], i: usize) -> (r: usize)
    requires
        i <= cs@.len(),
    ensures
        r == number_end(cs@, i as int),
{
    proof {
        lemma_runs(cs@, i as int);
    }
    let a = digits_end_c(cs, i);
    let b = if at_c(cs, a, '.') && cs.len() - a > 1 && digit_c(cs[a + 1]) {
        digits_end_c(cs, a + 1)
    } else {
        a
    };
    proof {
        if at(cs@, a as int, '.') && a + 1 < cs@.len() && is_digit(cs@[a + 1]) {
            lemma_runs(cs@, a + 1);
        }
    }
    if at_c(cs, b, 'e') || at_c(cs, b, 'E') {
        let j = if b < cs.len() && (at_c(cs, b + 1, '+') || at_c(cs, b + 1, '-')) {
            b + 2
        } else {
            b + 1
        };
        if j < cs.len() && digit_c(cs[j]) {
            digits_end_c(cs, j)
        } else {
            b
        }
    } else {
        b
    }
}

fn word_kind_c(cs: &[char], lo: usize, hi: usize) -> (r: SyntaxKind)
    requires
        lo <= hi <= cs@.len(),
    ensures
        r == word_kind(cs@.subrange(lo as int, hi as int)),
{
    if hi - lo == 1 && cs[lo] == '_' {
        assert(cs@.subrange(lo as int, hi as int) =~= seq!['_']);
        return SyntaxKind::Underscore;
    }
    assert(cs@.subrange(lo as int, hi as int) != seq!['_']) by {
        if cs@.subrange(lo as int, hi as int) == seq!['_'] {
            assert(cs@.subrange(lo as int, hi as int).len() == 1);
            assert(hi - lo == 1);
            assert(cs@.subrange(lo as int, hi as int)[0] == cs@[lo as int]);
        }
    }
    match keyword_of(cs, lo, hi) {
        Some(k) => k,
        None => SyntaxKind::Ident,
    }
}

fn punct_c(cs: &[char], i: usize) -> (r: (SyntaxKind, usize))
    requires
        i < cs@.len(),
    ensures
        r.0 == punct_at(cs@, i as int).0,
        r.1 == punct_at(cs@, i as int).1,
{
    let c = cs[i];
    if c == '-' {
        if at_c(cs, i + 1, '>') { (SyntaxKind::Arrow, i + 2) } else { (SyntaxKind::Minus, i + 1) }
    } else if c == '=' {
        if at_c(cs, i + 1, '>') {
            (SyntaxKind::FatArrow, i + 2)
        } else if at_c(cs, i + 1, '=') {
            (SyntaxKind::EqEq, i + 2)
        } else {
            (SyntaxKind::Eq, i + 1)
        }
    } else if c == '!' {
        if at_c(cs, i + 1, '=') { (SyntaxKind::Ne, i + 2) } else { (SyntaxKind::Bang, i + 1) }
    } else if c == '<' {
        if at_c(cs, i + 1, '=') { (SyntaxKind::Le, i + 2) } else { (SyntaxKind::Lt, i + 1) }
    } else if c == '>' {
        if at_c(cs, i + 1, '=') { (SyntaxKind::Ge, i + 2) } else { (SyntaxKind::Gt, i + 1) }
    } else if c == '&' {
        if at_c(cs, i + 1, '&') { (SyntaxKind::AndAnd, i + 2) } else { (SyntaxKind::Error, i + 1) }
    } else if c == '|' {
        if at_c(cs, i + 1, '|') { (SyntaxKind::OrOr, i + 2) } else { (SyntaxKind::Error, i + 1) }
    } else if c == '.' {
        if at_c(cs, i + 1, '.') { (SyntaxKind::DotDot, i + 2) } else { (SyntaxKind::Dot, i + 1) }
    } else if c == '?' {
        if at_c(cs, i + 1, '?') {
            (SyntaxKind::QuestionQuestion, i + 2)
        } else {
            (SyntaxKind::Question, i + 1)
        }
    } else if c == '(' {
        (SyntaxKind::LParen, i + 1)
    } else if c == ')' {
        (SyntaxKind::RParen, i + 1)
    } else if c == '{' {
        (SyntaxKind::LBrace, i + 1)
    } else if c == '}' {
        (SyntaxKind::RBrace, i + 1)
    } else if c == '[' {
        (SyntaxKind::LBracket, i + 1)
    } else if c == ']' {
        (SyntaxKind::RBracket, i + 1)
    } else if c == ':' {
        (SyntaxKind::Colon, i + 1)
    } else if c == ',' {
        (SyntaxKind::Comma, i + 1)
    } else if c == ';' {
        (SyntaxKind::Semi, i + 1)
    } else if c == '+' {
        (SyntaxKind::Plus, i + 1)
    } else if c == '*' {
        (SyntaxKind::Star, i + 1)
    } else if c == '/' {
        (SyntaxKind::Slash, i + 1)
    } else if c == '@' {
        (SyntaxKind::At, i + 1)
    } else if c == '^' {
        (SyntaxKind::Caret, i + 1)
    } else {
        (SyntaxKind::Error, i + 1)
    }
}

/// The token that starts at character `i`: its kind, its end, and whether
/// a block comment is closed.
fn scan_c(cs: &[char], i: usize) -> (r: (SyntaxKind, usize, bool))
    requires
        i < cs@.len(),
    ensures
        r.0 == scan(cs@, i as int).0,
        r.1 == scan(cs@, i as int).1,
        r.0 == SyntaxKind::BlockComment ==> r.2 == block_closed(cs@, i + 2),
{
    let c = cs[i];
    if ws_c(c) {
        (SyntaxKind::Whitespace, ws_end_c(cs, i), false)
    } else if c == '/' && at_c(cs, i + 1, '/') {
        (SyntaxKind::LineComment, line_end_c(cs, i + 2), false)
    } else if c == '/' && at_c(cs, i + 1, '*') {
        let (e, closed) = block_end_c(cs, i + 2);
        (SyntaxKind::BlockComment, e, closed)
    } else if ident_start_c(c) {
        let e = ident_end_c(cs, i);
        proof {
            lemma_runs(cs@, i as int);
        }
        (word_kind_c(cs, i, e), e, false)
    } else if digit_c(c) || (c == '.' && i + 1 < cs.len() && digit_c(cs[i + 1])) {
        (SyntaxKind::Number, number_end_c(cs, i), false)
    } else {
        let (k, e) = punct_c(cs, i);
        (k, e, false)
    }
}

fn utf8_len_c(c: char) -> (r: u32)
    ensures
        r == utf8_len(c),
{
    let v = c as u32;
    if v < 0x80 {
        1
    } else if v < 0x800 {
        2
    } else if v < 0x10000 {
        3
    } else {
        4
    }
}

/// The span bound of `j`, from that of `i`.
fn advance(cs: &[char], i: usize, off: u32, j: usize) -> (r: u32)
    requires
        i <= j <= cs@.len(),
        off == span_bound(cs@, i as int),
    ensures
        r == span_bound(cs@, j as int),
{
    let mut k = i;
    let mut o = off;
    while k < j
        invariant
            i <= k <= j <= cs@.len(),
            o == span_bound(cs@, k as int),
        decreases j - k,
    {
        let u = utf8_len_c(cs[k]);
        let ghost bk = byte_offset(cs@, k as int);
        proof {
            lemma_byte_offset_nonneg(cs@, k as int);
        }
        assert(byte_offset(cs@, k + 1) == bk + utf8_len(cs@[k as int]));
        assert(u == utf8_len(cs@[k as int]));
        assert(u >= 1);
        assert(o == span_bound(cs@, k as int));
        assert(bk > u32::MAX ==> o == u32::MAX);
        assert(bk <= u32::MAX ==> o == bk);
        o = if o > u32::MAX - u { u32::MAX } else { o + u };
        k = k + 1;
        assert(byte_offset(cs@, k as int) == bk + u);
    }
    o
}

/// Byte offsets grow with the character index.
pub proof fn lemma_byte_offset_mono(s: Seq<char>, a: int, b: int)
    requires
        a <= b,
    ensures
        byte_offset(s, a) <= byte_offset(s, b),
    decreases b - a,
{
    if a < b {
        lemma_byte_offset_mono(s, a, b - 1);
        if b > 0 {
            assert(utf8_len(s[b - 1]) >= 1);
        }
    }
}

/// Span bounds grow with the character index.
pub proof fn lemma_span_bound_mono(s: Seq<char>, a: int, b: int)
    requires
        a <= b,
    ensures
        span_bound(s, a) <= span_bound(s, b),
{
    lemma_byte_offset_mono(s, a, b);
    lemma_byte_offset_nonneg(s, a);
    lemma_byte_offset_nonneg(s, b);
}

/// The tokens from `i` lie inside the source, each non-empty, and (from a
/// position inside the source) the last one ends where the source ends.
pub proof fn lemma_tokens_bounds(s: Seq<char>, i: int)
    requires
        0 <= i,
    ensures
        forall|j: int|
            0 <= j < spec_tokens(s, i).len() ==> i <= #[trigger] spec_tokens(s, i)[j].1
                < spec_tokens(s, i)[j].2 <= s.len(),
        i < s.len() ==> spec_tokens(s, i).len() > 0 && spec_tokens(s, i).last().2 == s.len(),
    decreases s.len() - i,
{
    if i < s.len() {
        lemma_scan(s, i);
        let (k, e) = scan(s, i);
        lemma_tokens_bounds(s, e);
        let rest = spec_tokens(s, e);
        assert forall|j: int| 0 <= j < spec_tokens(s, i).len() implies i <= #[trigger] spec_tokens(
            s,
            i,
        )[j].1 < spec_tokens(s, i)[j].2 <= s.len() by {
            if j > 0 {
                assert(spec_tokens(s, i)[j] == rest[j - 1]);
            }
        }
        if e < s.len() {
            assert(spec_tokens(s, i).last() == rest.last());
        } else {
            assert(rest.len() == 0);
        }
    }
}

/// The tokens from `i` lie end to end from `i`.
pub proof fn lemma_tokens_contiguous(s: Seq<char>, i: int)
    requires
        0 <= i,
    ensures
        spec_tokens(s, i).len() > 0 ==> spec_tokens(s, i)[0].1 == i,
        forall|j: int|
            0 < j < spec_tokens(s, i).len() ==> #[trigger] spec_tokens(s, i)[j].1 == spec_tokens(
                s,
                i,
            )[j - 1].2,
    decreases s.len() - i,
{
    if i < s.len() {
        lemma_scan(s, i);
        let (k, e) = scan(s, i);
        lemma_tokens_contiguous(s, e);
        let rest = spec_tokens(s, e);
        let all = spec_tokens(s, i);
        assert forall|j: int| 0 < j < all.len() implies #[trigger] all[j].1 == all[j - 1].2 by {
            assert(all[j] == rest[j - 1]);
            if j > 1 {
                assert(all[j - 1] == rest[j - 2]);
            }
        }
    }
}

/// Every lexical diagnostic ends within the source.
pub proof fn lemma_diagnostics_bounds(s: Seq<char>, ts: Seq<(SyntaxKind, int, int)>)
    requires
        forall|j: int| 0 <= j < ts.len() ==> #[trigger] ts[j].2 <= s.len(),
    ensures
        forall|j: int|
            0 <= j < spec_diagnostics(s, ts).len() ==> #[trigger] spec_diagnostics(s, ts)[j].1.end
                <= span_bound(s, s.len() as int),
    decreases ts.len(),
{
    if ts.len() > 0 {
        let d = ts.drop_last();
        assert forall|j: int| 0 <= j < d.len() implies #[trigger] d[j].2 <= s.len() by {
            assert(d[j] == ts[j]);
        }
        lemma_diagnostics_bounds(s, d);
        let rest = spec_diagnostics(s, d);
        let all = spec_diagnostics(s, ts);
        assert(ts.last() == ts[ts.len() - 1]);
        assert forall|j: int| 0 <= j < all.len() implies #[trigger] all[j].1.end <= span_bound(
            s,
            s.len() as int,
        ) by {
            if j < rest.len() {
                assert(all[j] == rest[j]);
            } else {
                lemma_span_bound_mono(s, ts.last().2, s.len() as int);
            }
        }
    }
}

/// What the lexer gives ends within the source, and the last token ends
/// where the source does.
proof fn lemma_lexed_bounds(s: Seq<char>, toks: Seq<Token>, errs: Seq<SyntaxError>)
    requires
        lexes_to(s, toks),
        diagnostics_view(errs) == spec_diagnostics(s, spec_tokens(s, 0)),
    ensures
        forall|j: int| 0 <= j < toks.len() ==> #[trigger] toks[j].span.end <= span_bound(s, s.len() as int),
        toks.len() == 0 ==> span_bound(s, s.len() as int) == 0,
        toks.len() > 0 ==> toks.last().span.end == span_bound(s, s.len() as int),
        forall|j: int| 0 <= j < errs.len() ==> #[trigger] errs[j].span.end <= span_bound(s, s.len() as int),
        toks.len() > 0 ==> toks[0].span.start == 0,
        forall|j: int| 0 < j < toks.len() ==> #[trigger] toks[j].span.start == toks[j - 1].span.end,
{
    lemma_tokens_bounds(s, 0);
    lemma_tokens_contiguous(s, 0);
    let ts = spec_tokens(s, 0);
    assert forall|j: int| 0 <= j < ts.len() implies #[trigger] ts[j].2 <= s.len() by {
        assert(0 <= ts[j].1 < ts[j].2 <= s.len());
    }
    lemma_diagnostics_bounds(s, ts);
    assert forall|j: int| 0 <= j < toks.len() implies #[trigger] toks[j].span.end <= span_bound(
        s,
        s.len() as int,
    ) by {
        assert(0 <= ts[j].1 < ts[j].2 <= s.len());
        lemma_span_bound_mono(s, ts[j].2, s.len() as int);
    }
    assert forall|j: int| 0 <= j < errs.len() implies #[trigger] errs[j].span.end <= span_bound(
        s,
        s.len() as int,
    ) by {
        assert(diagnostics_view(errs)[j] == (errs[j].code, errs[j].span));
        assert(spec_diagnostics(s, ts)[j].1.end <= span_bound(s, s.len() as int));
    }
    if toks.len() > 0 {
        assert(toks.last() == toks[toks.len() - 1]);
        assert(ts.last() == ts[ts.len() - 1]);
        assert(toks[0].span.start == span_bound(s, ts[0].1));
    }
    assert forall|j: int| 0 < j < toks.len() implies #[trigger] toks[j].span.start == toks[j
        - 1].span.end by {
        assert(ts[j].1 == ts[j - 1].2);
    }
}

/// No token that the scanner produces is the end-of-input marker.
pub proof fn lemma_tokens_not_eof(s: Seq<char>, i: int)
    ensures
        forall|j: int|
            0 <= j < spec_tokens(s, i).len() ==> #[trigger] spec_tokens(s, i)[j].0
                != SyntaxKind::Eof,
    decreases s.len() - i,
{
    if 0 <= i < s.len() {
        let (k, e) = scan(s, i);
        if i < e <= s.len() {
            lemma_tokens_not_eof(s, e);
            assert(k != SyntaxKind::Eof);
            assert forall|j: int|
                0 <= j < spec_tokens(s, i).len() implies #[trigger] spec_tokens(s, i)[j].0
                != SyntaxKind::Eof by {
                if j > 0 {
                    assert(spec_tokens(s, i)[j] == spec_tokens(s, e)[j - 1]);
                }
            }
        }
    }
}

pub open spec fn diagnostics_view(es: Seq<SyntaxError>) -> Seq<(SyntaxErrorCode, Span)> {
    es.map_values(|e: SyntaxError| (e.code, e.span))
}

/// The message and the found text of each diagnostic.
pub open spec fn diagnostic_words(es: Seq<SyntaxError>) -> Seq<(Seq<char>, Seq<char>)> {
    es.map_values(|e: SyntaxError| (e.message@, e.found@))
}

/// Tokenise `src` completely.  The result never contains `Eof`.  Lexical
/// diagnostics (invalid characters, unterminated comments) are returned
/// alongside, in source order.
pub fn lex(src: &str) -> (r: (Vec<Token>, Vec<SyntaxError>))
    ensures
        lexes_to(src@, r.0@),
        diagnostics_view(r.1@) == spec_diagnostics(src@, spec_tokens(src@, 0)),
        diagnostic_words(r.1@) == spec_diagnostic_words(src@, spec_tokens(src@, 0)),
        forall|j: int|
            0 <= j < r.1@.len() ==> #[trigger] r.1@[j].expected@.len() == 0 && r.1@[j].hint is None,
        tokens_text(r.0@) == src@,
        forall|j: int| 0 <= j < r.0@.len() ==> #[trigger] r.0@[j].kind != SyntaxKind::Eof,
        forall|j: int|
            0 <= j < r.0@.len() ==> #[trigger] r.0@[j].span.end <= span_bound(src@, src@.len() as int),
        r.0@.len() == 0 ==> span_bound(src@, src@.len() as int) == 0,
        r.0@.len() > 0 ==> r.0@.last().span.end == span_bound(src@, src@.len() as int),
        forall|j: int|
            0 <= j < r.1@.len() ==> #[trigger] r.1@[j].span.end <= span_bound(src@, src@.len() as int),
        r.0@.len() > 0 ==> r.0@[0].span.start == 0,
        forall|j: int| 0 < j < r.0@.len() ==> #[trigger] r.0@[j].span.start == r.0@[j - 1].span.end,
{
    let cs = chars_of(src);
    let ghost s = cs@;
    let mut tokens: Vec<Token> = Vec::new();
    let mut errors: Vec<SyntaxError> = Vec::new();
    let mut i: usize = 0;
    let mut off: u32 = 0;
    let ghost mut done: Seq<(SyntaxKind, int, int)> = Seq::empty();
    while i < cs.len()
        invariant
            s == cs@,
            s == src@,
            i <= s.len(),
            off == span_bound(s, i as int),
            spec_tokens(s, 0) == done + spec_tokens(s, i as int),
            tokens@.len() == done.len(),
            forall|j: int|
                #![trigger tokens@[j]]
                0 <= j < tokens@.len() ==> {
                    &&& tokens@[j].kind == done[j].0
                    &&& tokens@[j].text@ == s.subrange(done[j].1, done[j].2)
                    &&& tokens@[j].span == Span {
                        start: span_bound(s, done[j].1),
                        end: span_bound(s, done[j].2),
                    }
                },
            diagnostics_view(errors@) == spec_diagnostics(s, done),
            diagnostic_words(errors@) == spec_diagnostic_words(s, done),
            forall|j: int|
                0 <= j < errors@.len() ==> #[trigger] errors@[j].expected@.len() == 0
                    && errors@[j].hint is None,
            tokens_text(tokens@) == s.subrange(0, i as int),
        decreases s.len() - i,
    {
        proof {
            lemma_tokens_step(s, i as int);
            lemma_scan(s, i as int);
        }
        let (kind, e, closed) = scan_c(&cs, i);
        let end_off = advance(&cs, i, off, e);
        let span = Span { start: off, end: end_off };
        let text = string_of(&cs, i, e);
        let ghost t = (kind, i as int, e as int);
        let ghost done2 = done.push(t);
        assert(done2.drop_last() =~= done);
        assert(done2.last() == t);
        let ghost eb = errors@;
        if kind == SyntaxKind::Error {
            let m = String::from_str("`").concat(text.as_str()).concat("` cannot appear in BDL source");
            let f = String::from_str("`").concat(text.as_str()).concat("`");
            let d = SyntaxError::new(SyntaxErrorCode::InvalidCharacter, span, m, f);
            errors.push(d);
            assert(errors@ == eb.push(d));
        } else if kind == SyntaxKind::BlockComment && !closed {
            let d = SyntaxError::new(
                SyntaxErrorCode::UnterminatedComment,
                span,
                String::from_str("this `/*` comment is never closed"),
                String::from_str("the end of the source"),
            );
            errors.push(d);
            assert(errors@ == eb.push(d));
        }
        assert forall|j: int| 0 <= j < errors@.len() implies #[trigger] errors@[j].expected@.len()
            == 0 && errors@[j].hint is None by {
            if j < eb.len() {
                assert(errors@[j] == eb[j]);
                assert(eb[j].expected@.len() == 0);
            }
        }
        assert(diagnostics_view(errors@) =~= spec_diagnostics(s, done2));
        assert(diagnostic_words(errors@) =~= spec_diagnostic_words(s, done2));
        let ghost old_tokens = tokens@;
        tokens.push(Token { kind, span, text });
        assert(tokens@.drop_last() =~= old_tokens);
        assert(s.subrange(0, e as int) =~= s.subrange(0, i as int) + s.subrange(i as int, e as int));
        proof {
            done = done2;
            assert(spec_tokens(s, 0) =~= done + spec_tokens(s, e as int));
        }
        i = e;
        off = end_off;
    }
    assert(spec_tokens(s, i as int) =~= Seq::empty());
    assert(done =~= spec_tokens(s, 0));
    assert(s.subrange(0, i as int) =~= s);
    proof {
        lemma_tokens_not_eof(s, 0);
        lemma_lexed_bounds(s, tokens@, errors@);
    }
    (tokens, errors)
}


proof fn lemma_punct_spelled(s: Seq<char>, i: int)
    requires
        0 <= i < s.len(),
    ensures
        spec_fixed_text(punct_at(s, i).0) matches Some(t) ==> punct_at(s, i).1 <= s.len() && s.subrange(
            i,
            punct_at(s, i).1,
        ) == t,
{
    reveal_strlit("(");
    reveal_strlit(")");
    reveal_strlit("{");
    reveal_strlit("}");
    reveal_strlit("[");
    reveal_strlit("]");
    reveal_strlit("<");
    reveal_strlit(">");
    reveal_strlit("<=");
    reveal_strlit(">=");
    reveal_strlit("==");
    reveal_strlit("!=");
    reveal_strlit(":");
    reveal_strlit(",");
    reveal_strlit(";");
    reveal_strlit("=");
    reveal_strlit("->");
    reveal_strlit("=>");
    reveal_strlit("+");
    reveal_strlit("-");
    reveal_strlit("*");
    reveal_strlit("/");
    reveal_strlit("!");
    reveal_strlit("&&");
    reveal_strlit("||");
    reveal_strlit("@");
    reveal_strlit(".");
    reveal_strlit("?");
    reveal_strlit("..");
    reveal_strlit("??");
    reveal_strlit("^");
    let (k, e) = punct_at(s, i);
    if spec_fixed_text(k) is Some {
        let t = spec_fixed_text(k)->0;
        if e == i + 1 {
            assert(t.len() == 1);
            assert(s.subrange(i, e) =~= t);
        } else {
            assert(t.len() == 2);
            assert(s.subrange(i, e) =~= t);
        }
    }
}

proof fn lemma_word_spelled(w: Seq<char>)
    ensures
        spec_fixed_text(word_kind(w)) matches Some(t) ==> w == t,
{
    reveal_strlit("concept");
    reveal_strlit("mapping");
    reveal_strlit("enum");
    reveal_strlit("match");
    reveal_strlit("let");
    reveal_strlit("if");
    reveal_strlit("then");
    reveal_strlit("else");
    reveal_strlit("true");
    reveal_strlit("false");
    reveal_strlit("clock");
    reveal_strlit("output");
    reveal_strlit("drive");
    reveal_strlit("device");
    reveal_strlit("component");
    reveal_strlit("instance");
    reveal_strlit("bind");
    reveal_strlit("export");
    reveal_strlit("requires");
    reveal_strlit("provides");
    reveal_strlit("param");
    reveal_strlit("use");
    reveal_strlit("context");
    reveal_strlit("require");
    reveal_strlit("in");
    reveal_strlit("ordered");
    reveal_strlit("_");
}

/// The token that starts at `i`, when its kind has a fixed spelling (a
/// keyword or a punctuation mark), is spelled exactly that way.
proof fn lemma_scan_spelled(s: Seq<char>, i: int)
    requires
        0 <= i < s.len(),
    ensures
        spec_fixed_text(scan(s, i).0) matches Some(t) ==> s.subrange(i, scan(s, i).1) == t,
{
    let c = s[i];
    if is_ws(c) {
    } else if c == '/' && at(s, i + 1, '/') {
    } else if c == '/' && at(s, i + 1, '*') {
    } else if is_ident_start(c) {
        lemma_word_spelled(s.subrange(i, ident_end(s, i)));
    } else if is_digit(c) || (c == '.' && i + 1 < s.len() && is_digit(s[i + 1])) {
    } else {
        lemma_punct_spelled(s, i);
    }
}

/// Every keyword and punctuation token is spelled in the source exactly as
/// its kind is written: `<=` lexes as `Le`, `let` as `KwLet`, and so on.
pub proof fn lemma_tokens_spelled(s: Seq<char>, i: int)
    requires
        0 <= i,
    ensures
        forall|j: int|
            0 <= j < spec_tokens(s, i).len() ==> (spec_fixed_text(#[trigger] spec_tokens(s, i)[j].0) matches Some(
                t,
            ) ==> s.subrange(spec_tokens(s, i)[j].1, spec_tokens(s, i)[j].2) == t),
    decreases s.len() - i,
{
    if i < s.len() {
        lemma_scan(s, i);
        lemma_tokens_step(s, i);
        lemma_scan_spelled(s, i);
        let e = scan(s, i).1;
        lemma_tokens_spelled(s, e);
        let ts = spec_tokens(s, i);
        let rest = spec_tokens(s, e);
        assert forall|j: int| 0 < j < ts.len() implies ts[j] == rest[j - 1] by {}
    }
}


/// An identifier token is a word that is neither a keyword nor `_`, made
/// of letters, digits and `_`, starting with a letter or `_`.
pub proof fn lemma_ident_tokens_are_words(s: Seq<char>, i: int)
    requires
        0 <= i,
    ensures
        forall|j: int|
            0 <= j < spec_tokens(s, i).len() && (#[trigger] spec_tokens(s, i)[j]).0 == SyntaxKind::Ident
                ==> {
                let w = s.subrange(spec_tokens(s, i)[j].1, spec_tokens(s, i)[j].2);
                &&& spec_from_keyword(w) is None
                &&& w != seq!['_']
                &&& is_ident_start(w[0])
                &&& forall|q: int| 0 <= q < w.len() ==> is_ident_continue(#[trigger] w[q])
            },
    decreases s.len() - i,
{
    if i < s.len() {
        lemma_scan(s, i);
        lemma_tokens_step(s, i);
        let e = scan(s, i).1;
        lemma_tokens_are_words_here(s, i);
        lemma_ident_tokens_are_words(s, e);
        let ts = spec_tokens(s, i);
        let rest = spec_tokens(s, e);
        assert forall|j: int| 0 < j < ts.len() implies ts[j] == rest[j - 1] by {}
    }
}

proof fn lemma_ident_end_continues(s: Seq<char>, i: int)
    requires
        0 <= i <= s.len(),
    ensures
        i <= ident_end(s, i) <= s.len(),
        forall|q: int| i <= q < ident_end(s, i) ==> is_ident_continue(#[trigger] s[q]),
    decreases s.len() - i,
{
    if i < s.len() && is_ident_continue(s[i]) {
        lemma_ident_end_continues(s, i + 1);
    }
}

proof fn lemma_tokens_are_words_here(s: Seq<char>, i: int)
    requires
        0 <= i < s.len(),
    ensures
        scan(s, i).0 == SyntaxKind::Ident ==> {
            let w = s.subrange(i, scan(s, i).1);
            &&& spec_from_keyword(w) is None
            &&& w != seq!['_']
            &&& is_ident_start(w[0])
            &&& forall|q: int| 0 <= q < w.len() ==> is_ident_continue(#[trigger] w[q])
        },
{
    let c = s[i];
    if !is_ws(c) && !(c == '/' && at(s, i + 1, '/')) && !(c == '/' && at(s, i + 1, '*')) && is_ident_start(c) {
        lemma_ident_end_continues(s, i);
        assert(is_ident_continue(c));
        lemma_ident_end_continues(s, i + 1);
        assert(ident_end(s, i) == ident_end(s, i + 1));
        let w = s.subrange(i, ident_end(s, i));
        assert(w[0] == c);
        assert forall|q: int| 0 <= q < w.len() implies is_ident_continue(#[trigger] w[q]) by {
            assert(w[q] == s[i + q]);
        }
    } else if !is_ws(c) && !(c == '/' && at(s, i + 1, '/')) && !(c == '/' && at(s, i + 1, '*'))
        && !(is_digit(c) || (c == '.' && i + 1 < s.len() && is_digit(s[i + 1]))) {
        assert(punct_at(s, i).0 != SyntaxKind::Ident);
    }
}

} // verus!
