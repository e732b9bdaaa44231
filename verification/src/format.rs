//! The formatter: canonical spacing and indentation over the lossless
//! tree, and nothing else.  Items keep their order and their blank-line
//! grouping (runs of blank lines collapse to one), comments stay where they
//! were written, line breaks inside a formula are the author's and the
//! relative indentation of a multi-line body is preserved: only the spacing
//! within a line and the indentation level are decided here.
//!
//! Source with syntax errors is not formatted: the tree's shape is not what
//! the author means yet, so `None` is returned and the text stays.
use crate::kind::{spec_is_trivia, SyntaxKind as K};
use crate::parser::parse_module;
use crate::syntax::{node_text, SyntaxElement, SyntaxNode, SyntaxToken};
use crate::text::{is_white, last_line_len, newline_count, trim_end, white};
use vstd::prelude::*;

verus! {

/// Spaces per indentation level.
pub const INDENT: usize = 2;

// ---- what the output is made of ------------------------------------------------

/// A leaf of the tree as its kind and text.
pub open spec fn leaf_pair(t: SyntaxToken) -> (K, Seq<char>) {
    (t.kind, t.text@)
}

/// Leaves as kinds and texts.
pub open spec fn leaf_pairs(ts: Seq<SyntaxToken>) -> Seq<(K, Seq<char>)> {
    ts.map_values(|t: SyntaxToken| leaf_pair(t))
}

/// The tokens of the tree, in source order.
pub open spec fn leaves(n: SyntaxNode) -> Seq<SyntaxToken>
    decreases n, 2int,
{
    leaves_elems(n.children@)
}

pub open spec fn leaves_elems(s: Seq<SyntaxElement>) -> Seq<SyntaxToken>
    decreases s, 1int,
{
    if s.len() == 0 {
        Seq::empty()
    } else {
        leaves_elems(s.drop_last()) + leaves_elem(s.last())
    }
}

pub open spec fn leaves_elem(e: SyntaxElement) -> Seq<SyntaxToken>
    decreases e, 0int,
{
    match e {
        SyntaxElement::Token(t) => seq![t],
        SyntaxElement::Node(n) => leaves(n),
    }
}

/// What the output shows of the tokens `ts`, in order: every token but
/// white space, a comment without its trailing white space.
pub open spec fn shown(ts: Seq<(K, Seq<char>)>) -> Seq<Seq<char>>
    decreases ts.len(),
{
    if ts.len() == 0 {
        Seq::empty()
    } else {
        let r = shown(ts.drop_last());
        let (k, text) = ts.last();
        if k == K::Whitespace {
            r
        } else if k == K::LineComment || k == K::BlockComment {
            r.push(trim_end(text))
        } else {
            r.push(text)
        }
    }
}

/// Spaces and line feeds only.
pub open spec fn blank(s: Seq<char>) -> bool {
    forall|i: int| 0 <= i < s.len() ==> #[trigger] s[i] == ' ' || s[i] == '\n'
}

/// The texts, each preceded by its separator.
pub open spec fn joined(seps: Seq<Seq<char>>, texts: Seq<Seq<char>>) -> Seq<char>
    decreases texts.len(),
{
    if texts.len() == 0 || seps.len() == 0 {
        Seq::empty()
    } else {
        joined(seps.drop_last(), texts.drop_last()) + seps.last() + texts.last()
    }
}

/// `s` without its trailing line feeds.
pub open spec fn strip_newlines(s: Seq<char>) -> Seq<char>
    decreases s.len(),
{
    if s.len() > 0 && s.last() == '\n' {
        strip_newlines(s.drop_last())
    } else {
        s
    }
}

/// A gap the layout writes between two texts: at most two line feeds (so
/// at most one blank line), then the indentation or the spacing.
pub open spec fn layout_gap(s: Seq<char>) -> bool {
    exists|k: nat, m: nat| #![trigger line_feeds(k), spaces(m)] k <= 2 && s == line_feeds(k) + spaces(m)
}

/// `out` shows the texts in order, separated by layout gaps, with nothing
/// before the first text, and ends with one line feed.
pub open spec fn respaced(out: Seq<char>, texts: Seq<Seq<char>>) -> bool {
    exists|seps: Seq<Seq<char>>|
        #![trigger joined(seps, texts)]
        seps.len() == texts.len() && (forall|i: int| 0 <= i < seps.len() ==> blank(#[trigger] seps[i]))
            && (forall|i: int| 0 <= i < seps.len() ==> layout_gap(#[trigger] seps[i]))
            && (seps.len() > 0 ==> seps[0].len() == 0)
            && out == strip_newlines(joined(seps, texts)) + seq!['\n']
}

proof fn lemma_gap(k: nat, m: nat)
    requires
        k <= 2,
    ensures
        layout_gap(line_feeds(k) + spaces(m)),
        blank(line_feeds(k) + spaces(m)),
{
    let s = line_feeds(k) + spaces(m);
    assert forall|i: int| 0 <= i < s.len() implies #[trigger] s[i] == ' ' || s[i] == '\n' by {
        if i < k {
            assert(s[i] == line_feeds(k)[i]);
        } else {
            assert(s[i] == spaces(m)[i - k]);
        }
    }
}

pub open spec fn tok_view(t: SyntaxToken) -> (K, Seq<char>) {
    (t.kind, t.text@)
}

// ---- the tokens, flattened ------------------------------------------------------

/// A token with what the formatter needs of its surroundings.
#[derive(Clone, Copy, Debug)]
pub struct FlatToken<'a> {
    pub kind: K,
    pub text: &'a str,
    /// The kind of the node the token sits in.
    pub parent: K,
    /// The first code token of an item (or of a definition, a variant, a
    /// pin, an argument): a line it starts is at item level.
    pub item_start: bool,
}

pub open spec fn flat_view(fs: Seq<FlatToken>) -> Seq<(K, Seq<char>)> {
    fs.map_values(|f: FlatToken| (f.kind, f.text@))
}

pub open spec fn spec_is_anchor_node(k: K) -> bool {
    matches!(
        k,
        K::ConceptDecl | K::MappingDecl | K::MappingDef | K::EnumDecl | K::EnumVariant
            | K::ClockDecl | K::OutputDecl | K::DriveDecl | K::DeviceDecl | K::PinFix
            | K::ComponentDecl | K::UseDecl | K::ParamClockDecl | K::PortDecl | K::InstanceDecl
            | K::InstanceArg | K::BindDecl | K::ExportDecl
    )
}

fn is_anchor_node(k: K) -> (r: bool)
    ensures
        r == spec_is_anchor_node(k),
{
    matches!(
        k,
        K::ConceptDecl | K::MappingDecl | K::MappingDef | K::EnumDecl | K::EnumVariant
            | K::ClockDecl | K::OutputDecl | K::DriveDecl | K::DeviceDecl | K::PinFix
            | K::ComponentDecl | K::UseDecl | K::ParamClockDecl | K::PortDecl | K::InstanceDecl
            | K::InstanceArg | K::BindDecl | K::ExportDecl
    )
}

/// Append the tokens of `n` to `out`, marking the first code token of each
/// item-level node.
fn flatten<'a>(n: &'a SyntaxNode, out: &mut Vec<FlatToken<'a>>)
    ensures
        flat_view(final(out)@) == flat_view(old(out)@) + leaves(*n).map_values(
            |t: SyntaxToken| tok_view(t),
        ),
        final(out)@.len() >= old(out)@.len(),
        flat_keys(final(out)@) == flat_keys(old(out)@) + tree_keys(*n),
    decreases *n, 1int,
{
    let ghost start_view = flat_view(out@);
    let ghost start_keys = flat_keys(out@);
    let start = out.len();
    let mut i: usize = 0;
    while i < n.children.len()
        invariant
            start <= out@.len(),
            i <= n.children@.len(),
            flat_view(out@) == start_view + leaves_elems(n.children@.subrange(0, i as int)).map_values(
                |t: SyntaxToken| tok_view(t),
            ),
            flat_keys(out@) == start_keys + keys_elems(n.kind, n.children@.subrange(0, i as int)),
        decreases n.children@.len() - i,
    {
        proof {
            assert(n.children@.subrange(0, i + 1).drop_last() =~= n.children@.subrange(0, i as int));
        }
        let ghost before = flat_view(out@);
        let ghost before_keys = flat_keys(out@);
        match &n.children[i] {
            SyntaxElement::Token(t) => {
                out.push(FlatToken { kind: t.kind, text: t.text.as_str(), parent: n.kind, item_start: false });
                assert(flat_view(out@) =~= before + seq![tok_view(*t)]);
                assert(flat_keys(out@) =~= before_keys + seq![(t.kind, n.kind, t.text@)]);
            },
            SyntaxElement::Node(m) => {
                flatten(m, out);
            },
        }
        assert(leaves_elems(n.children@.subrange(0, i + 1)).map_values(|t: SyntaxToken| tok_view(t))
            =~= leaves_elems(n.children@.subrange(0, i as int)).map_values(|t: SyntaxToken| tok_view(t))
            + leaves_elem(n.children@[i as int]).map_values(|t: SyntaxToken| tok_view(t)));
        assert(keys_elems(n.kind, n.children@.subrange(0, i + 1)) =~= keys_elems(
            n.kind,
            n.children@.subrange(0, i as int),
        ) + key_elem(n.kind, n.children@[i as int]));
        i = i + 1;
    }
    assert(n.children@.subrange(0, i as int) =~= n.children@);
    if is_anchor_node(n.kind) {
        let mut j = start;
        while j < out.len()
            invariant
                start <= j <= out@.len(),
                flat_view(out@) == start_view + leaves(*n).map_values(|t: SyntaxToken| tok_view(t)),
                flat_keys(out@) == start_keys + tree_keys(*n),
            decreases out@.len() - j,
        {
            if !out[j].kind.is_trivia() {
                let mut f = out[j];
                f.item_start = true;
                let ghost before = out@;
                out.set(j, f);
                assert(flat_view(out@) =~= flat_view(before));
                assert(flat_keys(out@) =~= flat_keys(before));
                break;
            }
            j = j + 1;
        }
    }
}

// ---- small pieces -----------------------------------------------------------------

fn filled<T: Copy>(x: T, n: usize) -> (r: Vec<T>)
    ensures
        r@.len() == n,
        forall|i: int| 0 <= i < n ==> #[trigger] r@[i] == x,
{
    let mut v: Vec<T> = Vec::new();
    let mut i: usize = 0;
    while i < n
        invariant
            i <= n,
            v@.len() == i,
            forall|j: int| 0 <= j < i ==> #[trigger] v@[j] == x,
        decreases n - i,
    {
        v.push(x);
        i = i + 1;
    }
    v
}

pub open spec fn spaces(n: nat) -> Seq<char> {
    Seq::new(n, |i: int| ' ')
}

pub open spec fn line_feeds(n: nat) -> Seq<char> {
    Seq::new(n, |i: int| '\n')
}

fn push_repeated(out: &mut String, c: char, n: usize)
    ensures
        final(out)@ == old(out)@ + Seq::new(n as nat, |i: int| c),
{
    let mut k: usize = 0;
    while k < n
        invariant
            k <= n,
            out@ == old(out)@ + Seq::new(k as nat, |i: int| c),
        decreases n - k,
    {
        crate::text::push_char(out, c);
        assert(Seq::new((k + 1) as nat, |i: int| c) =~= Seq::new(k as nat, |i: int| c).push(c));
        k = k + 1;
    }
}

/// Line feeds in `s`.
fn count_newlines(s: &str) -> (r: usize)
    ensures
        r == newline_count(s@),
{
    let cs = crate::text::chars_of(s);
    let mut n: usize = 0;
    let mut i: usize = 0;
    while i < cs.len()
        invariant
            i <= cs@.len(),
            cs@ == s@,
            n == newline_count(cs@.take(i as int)),
        decreases cs@.len() - i,
    {
        assert(cs@.take(i + 1).drop_last() =~= cs@.take(i as int));
        proof {
            crate::text::lemma_newline_count_le(cs@.take(i as int));
        }
        if cs[i] == '\n' {
            n = n + 1;
        }
        i = i + 1;
    }
    assert(cs@.take(cs@.len() as int) =~= cs@);
    n
}

/// Characters after the last line feed of `s` (all of them if none).
fn chars_after_last_newline(s: &str) -> (r: usize)
    ensures
        r == last_line_len(s@),
{
    let cs = crate::text::chars_of(s);
    let mut n: usize = 0;
    let mut i: usize = 0;
    while i < cs.len()
        invariant
            i <= cs@.len(),
            cs@ == s@,
            n == last_line_len(cs@.take(i as int)),
        decreases cs@.len() - i,
    {
        assert(cs@.take(i + 1).drop_last() =~= cs@.take(i as int));
        proof {
            crate::text::lemma_newline_count_le(cs@.take(i as int));
        }
        if cs[i] == '\n' {
            n = 0;
        } else {
            n = n + 1;
        }
        i = i + 1;
    }
    assert(cs@.take(cs@.len() as int) =~= cs@);
    n
}

/// Append `s` without its trailing white space.
fn push_trimmed(out: &mut String, s: &str)
    ensures
        final(out)@ == old(out)@ + trim_end(s@),
{
    let cs = crate::text::chars_of(s);
    let mut end = cs.len();
    assert(cs@.subrange(0, end as int) =~= cs@);
    while end > 0 && white(cs[end - 1])
        invariant
            end <= cs@.len(),
            trim_end(cs@) == trim_end(cs@.subrange(0, end as int)),
        decreases end,
    {
        assert(cs@.subrange(0, end as int).drop_last() =~= cs@.subrange(0, end - 1));
        end = end - 1;
    }
    assert(trim_end(cs@.subrange(0, end as int)) == cs@.subrange(0, end as int));
    let ghost start = out@;
    let mut k: usize = 0;
    while k < end
        invariant
            k <= end <= cs@.len(),
            out@ == start + cs@.subrange(0, k as int),
        decreases end - k,
    {
        crate::text::push_char(out, cs[k]);
        assert(cs@.subrange(0, k + 1) =~= cs@.subrange(0, k as int).push(cs@[k as int]));
        k = k + 1;
    }
}

// ---- spacing rules --------------------------------------------------------------------

/// Whether the token opens or closes a structural body, whose lines are
/// indented one level deeper than the item that owns it.
pub open spec fn spec_structural_brace(t: FlatToken) -> bool {
    (t.kind == K::LBrace || t.kind == K::RBrace) && (t.parent == K::ComponentBody || t.parent
        == K::EnumDecl || t.parent == K::DeviceBody || t.parent == K::InstanceBody)
}

fn structural_brace(t: &FlatToken) -> (r: bool)
    ensures
        r == spec_structural_brace(*t),
{
    matches!(t.kind, K::LBrace | K::RBrace) && matches!(
        t.parent,
        K::ComponentBody | K::EnumDecl | K::DeviceBody | K::InstanceBody
    )
}

/// A token that starts a line at the item level of its scope: the first
/// token of an item (or of a definition, a variant, a pin, an argument
/// written on its own line), or a structural closing brace.
fn is_anchor(t: &FlatToken) -> (r: bool)
    ensures
        r == ((t.kind == K::RBrace && spec_structural_brace(*t)) || t.item_start),
{
    (t.kind == K::RBrace && structural_brace(t)) || t.item_start
}

/// The tokens after which `-` is a sign, not a subtraction: openers,
/// separators, operators and the keywords that introduce a value.
pub open spec fn spec_before_prefix(k: K) -> bool {
    matches!(
        k,
        K::LParen | K::LBrace | K::Comma | K::Semi | K::Eq | K::Arrow | K::FatArrow | K::Plus
            | K::Minus | K::Star | K::Slash | K::Lt | K::Gt | K::Le | K::Ge | K::EqEq | K::Ne
            | K::AndAnd | K::OrOr | K::KwThen | K::KwElse | K::KwIf | K::KwMatch | K::KwIn
            | K::LBracket | K::Caret
    )
}

/// A token after which `-` is a sign, not a subtraction.
fn before_prefix(p: &FlatToken) -> (r: bool)
    ensures
        r == spec_before_prefix(p.kind),
{
    matches!(
        p.kind,
        K::LParen | K::LBrace | K::Comma | K::Semi | K::Eq | K::Arrow | K::FatArrow | K::Plus
            | K::Minus | K::Star | K::Slash | K::Lt | K::Gt | K::Le | K::Ge | K::EqEq | K::Ne
            | K::AndAnd | K::OrOr | K::KwThen | K::KwElse | K::KwIf | K::KwMatch | K::KwIn
            | K::LBracket | K::Caret
    )
}

pub open spec fn spec_in_type_list(t: FlatToken) -> bool {
    t.parent == K::TypeArgList || t.parent == K::TypeParamList
}

fn in_type_list(t: &FlatToken) -> (r: bool)
    ensures
        r == spec_in_type_list(*t),
{
    matches!(t.parent, K::TypeArgList | K::TypeParamList)
}

/// The canonical spacing between two adjacent tokens on one line: none
/// after a prefix `-`, before a closer or separator, after an opener or
/// `!`, around `^`, before the colon of a binder's head, between a name
/// and the `(` of its call, and around the angle brackets of a type list;
/// one space everywhere else.
pub open spec fn spec_space_between(p: FlatToken, t: FlatToken, prefix_minus: bool) -> bool {
    spacing(p.kind, p.parent, t.kind, t.parent, prefix_minus)
}

/// The spacing rule over the kinds of two adjacent tokens and of the nodes
/// they sit in.
pub open spec fn spacing(pk: K, pp: K, tk: K, tp: K, prefix_minus: bool) -> bool {
    let p = (pk, pp);
    let t = (tk, tp);
    !prefix_minus && !matches!(t.0, K::RParen | K::RBracket | K::Comma | K::Dot | K::Semi)
        && !matches!(p.0, K::LParen | K::LBracket | K::Dot | K::At | K::Bang) && !(t.0
        == K::Caret || p.0 == K::Caret) && !(t.0 == K::Colon && t.1 == K::BinderExpr)
        && !(t.0 == K::LParen && p.0 == K::Ident) && !((t.0 == K::Lt || t.0 == K::Gt)
        && (t.1 == K::TypeArgList || t.1 == K::TypeParamList)) && !(p.0 == K::Lt && (p.1 == K::TypeArgList || p.1 == K::TypeParamList)) && !(p.0
        == K::Gt && (p.1 == K::TypeArgList || p.1 == K::TypeParamList) && (t.0 == K::Gt || t.0 == K::LParen))
}

/// Whether canonical spacing puts a space between two adjacent tokens on
/// one line.
fn space_between(p: &FlatToken, t: &FlatToken, prefix_minus: bool) -> (r: bool)
    ensures
        r == spec_space_between(*p, *t, prefix_minus),
{
    if prefix_minus {
        return false;
    }
    if matches!(t.kind, K::RParen | K::RBracket | K::Comma | K::Dot | K::Semi) {
        return false;
    }
    if matches!(p.kind, K::LParen | K::LBracket | K::Dot | K::At | K::Bang) {
        return false;
    }
    // `s^2`, `s^-1`: a unit power is written tight
    if t.kind == K::Caret || p.kind == K::Caret {
        return false;
    }
    // `all x in xs: body`: the colon closes the head
    if t.kind == K::Colon && t.parent == K::BinderExpr {
        return false;
    }
    if t.kind == K::LParen && p.kind == K::Ident {
        return false;
    }
    if matches!(t.kind, K::Lt | K::Gt) && in_type_list(t) {
        return false;
    }
    if p.kind == K::Lt && in_type_list(p) {
        return false;
    }
    if p.kind == K::Gt && in_type_list(p) && matches!(t.kind, K::Gt | K::LParen) {
        return false;
    }
    true
}

/// Where canonical spacing is silent, the author's space is kept: nowhere
/// today, so the rule set above is total.
fn space_kept(p: &FlatToken, t: &FlatToken) -> (r: bool)
    ensures
        !r,
{
    false
}

/// `x` held within `-2^64 ..= 2^64`.
pub open spec fn clamp_extra(x: int) -> int {
    if x < -0x1_0000_0000_0000_0000 {
        -0x1_0000_0000_0000_0000
    } else if x > 0x1_0000_0000_0000_0000 {
        0x1_0000_0000_0000_0000
    } else {
        x
    }
}

/// The column of a line at `level`, moved by `extra`: two spaces a level,
/// never below column 0 nor past `usize::MAX` (the move itself held within
/// `2^64` either way).
pub open spec fn spec_indent(level: int, extra: int) -> int {
    let v = level * 2 + clamp_extra(extra);
    if v < 0 {
        0
    } else if v > usize::MAX {
        usize::MAX as int
    } else {
        v
    }
}

/// The column of a line at `level` with relative indentation `extra`.
fn indent(level: usize, extra: i128) -> (r: usize)
    ensures
        r == spec_indent(level as int, extra as int),
{
    let e: i128 = if extra < -0x1_0000_0000_0000_0000 {
        -0x1_0000_0000_0000_0000
    } else if extra > 0x1_0000_0000_0000_0000 {
        0x1_0000_0000_0000_0000
    } else {
        extra
    };
    let v: i128 = level as i128 * 2 + e;
    if v < 0 {
        0
    } else if v > usize::MAX as i128 {
        usize::MAX
    } else {
        v as usize
    }
}

/// The first code token after `from`: every token strictly between is
/// trivia; `None` when there is none up to the end.
fn next_code(toks: &Vec<FlatToken>, from: usize) -> (r: Option<usize>)
    ensures
        r matches Some(j) ==> from < j < toks@.len() && !spec_is_trivia(toks@[j as int].kind)
            && forall|k: int| from < k < j ==> #[trigger] spec_is_trivia(toks@[k].kind),
        r is None ==> forall|k: int| from < k < toks@.len() ==> #[trigger] spec_is_trivia(
            toks@[k].kind,
        ),
{
    let mut j = from;
    while j < toks.len() && toks.len() - j > 1
        invariant
            from <= j,
            forall|k: int| from < k <= j && k < toks@.len() ==> #[trigger] spec_is_trivia(toks@[k].kind),
        decreases toks@.len() - j,
    {
        j = j + 1;
        if !toks[j].kind.is_trivia() {
            return Some(j);
        }
    }
    None
}

// ---- the formatter ------------------------------------------------------------------

/// A flattened token as its kind, the kind of its node, and its text.
pub open spec fn flat_key(f: FlatToken) -> (K, K, Seq<char>) {
    (f.kind, f.parent, f.text@)
}

pub open spec fn flat_keys(fs: Seq<FlatToken>) -> Seq<(K, K, Seq<char>)> {
    fs.map_values(|f: FlatToken| flat_key(f))
}

/// The tree's tokens keyed by the kind of the node each sits in.
pub open spec fn tree_keys(n: SyntaxNode) -> Seq<(K, K, Seq<char>)>
    decreases n, 2int,
{
    keys_elems(n.kind, n.children@)
}

pub open spec fn keys_elems(parent: K, s: Seq<SyntaxElement>) -> Seq<(K, K, Seq<char>)>
    decreases s, 1int,
{
    if s.len() == 0 {
        Seq::empty()
    } else {
        keys_elems(parent, s.drop_last()) + key_elem(parent, s.last())
    }
}

pub open spec fn key_elem(parent: K, e: SyntaxElement) -> Seq<(K, K, Seq<char>)>
    decreases e, 0int,
{
    match e {
        SyntaxElement::Token(t) => seq![(t.kind, parent, t.text@)],
        SyntaxElement::Node(n) => tree_keys(n),
    }
}

/// Kinds and texts of keyed tokens.
pub open spec fn key_view(ks: Seq<(K, K, Seq<char>)>) -> Seq<(K, Seq<char>)> {
    ks.map_values(|k: (K, K, Seq<char>)| (k.0, k.2))
}

/// The keyed tokens of a tree are its leaves, with the kinds of their nodes.
pub proof fn lemma_keys_are_leaves(n: SyntaxNode)
    ensures
        key_view(tree_keys(n)) == leaf_pairs(leaves(n)),
    decreases n, 2int,
{
    lemma_keys_elems(n.kind, n.children@);
}

proof fn lemma_keys_elems(parent: K, s: Seq<SyntaxElement>)
    ensures
        key_view(keys_elems(parent, s)) == leaf_pairs(leaves_elems(s)),
    decreases s, 1int,
{
    if s.len() > 0 {
        lemma_keys_elems(parent, s.drop_last());
        match s.last() {
            SyntaxElement::Token(t) => {},
            SyntaxElement::Node(m) => {
                assert(s.last() == SyntaxElement::Node(m));
                lemma_keys_are_leaves(m);
            },
        }
        assert(key_view(keys_elems(parent, s)) =~= key_view(keys_elems(parent, s.drop_last())) + key_view(
            key_elem(parent, s.last()),
        ));
        assert(leaf_pairs(leaves_elems(s)) =~= leaf_pairs(leaves_elems(s.drop_last())) + leaf_pairs(
            leaves_elem(s.last()),
        ));
    }
}

/// Where the layout stands after some tokens: whether nothing is written
/// yet, how many line feeds are due (at most two), the last code token
/// written (its kind and its node's kind), and whether it is a sign `-`.
pub open spec fn line_state(ts: Seq<(K, K, Seq<char>)>) -> (bool, nat, Option<(K, K)>, bool)
    decreases ts.len(),
{
    if ts.len() == 0 {
        (true, 0, None, false)
    } else {
        let (first, nls, prev, pm) = line_state(ts.drop_last());
        let t = ts.last();
        if t.0 == K::Whitespace {
            let nl = newline_count(t.2);
            if nl > 0 {
                let capped: nat = if nl < 2 {
                    nl
                } else {
                    2
                };
                (first, if capped > nls {
                    capped
                } else {
                    nls
                }, prev, pm)
            } else {
                (first, nls, prev, pm)
            }
        } else if t.0 == K::LineComment || t.0 == K::BlockComment {
            (false, 0, prev, pm)
        } else {
            (false, 0, Some((t.0, t.1)), t.0 == K::Minus && (nls > 0 || match prev {
                None => true,
                Some(q) => spec_before_prefix(q.0),
            }))
        }
    }
}

/// The gap written before a token `t` shown in state `st`: nothing before
/// the first; the due line feeds (then the indentation) after a line
/// break; two spaces before a comment on the same line; else one space or
/// none, by the spacing rule.
pub open spec fn gap_rule(st: (bool, nat, Option<(K, K)>, bool), t: (K, K, Seq<char>), sep: Seq<char>) -> bool {
    let (first, nls, prev, pm) = st;
    if first {
        sep.len() == 0
    } else if nls > 0 {
        exists|m: nat| sep == line_feeds(nls) + spaces(m)
    } else if t.0 == K::LineComment || t.0 == K::BlockComment {
        sep == spaces(2)
    } else {
        sep == if prev matches Some(q) && spacing(q.0, q.1, t.0, t.1, pm) {
            spaces(1)
        } else {
            spaces(0)
        }
    }
}

/// Every shown token of `ts` is preceded by the gap the rules give.
pub open spec fn gaps_follow_rules(ts: Seq<(K, K, Seq<char>)>, seps: Seq<Seq<char>>) -> bool {
    forall|i: int|
        0 <= i < ts.len() && ts[i].0 != K::Whitespace ==> gap_rule(
            line_state(ts.take(i)),
            ts[i],
            seps[shown(key_view(ts.take(i))).len() as int],
        )
}

/// `out` is the shown texts of `ts` joined by `seps`, each gap as the rules
/// give, ending in one line feed.
pub open spec fn laid_out(out: Seq<char>, ts: Seq<(K, K, Seq<char>)>) -> bool {
    exists|seps: Seq<Seq<char>>|
        #![trigger joined(seps, shown(key_view(ts)))]
        seps.len() == shown(key_view(ts)).len() && gaps_follow_rules(ts, seps)
            && out == strip_newlines(joined(seps, shown(key_view(ts)))) + seq!['\n']
}

proof fn lemma_shown_step(ts: Seq<(K, K, Seq<char>)>, b: int)
    requires
        0 <= b < ts.len(),
    ensures
        key_view(ts.take(b + 1)).drop_last() == key_view(ts.take(b)),
        key_view(ts.take(b + 1)).last() == (ts[b].0, ts[b].2),
        shown(key_view(ts.take(b))).len() <= shown(key_view(ts.take(b + 1))).len(),
        ts[b].0 != K::Whitespace ==> shown(key_view(ts.take(b + 1))).len() == shown(
            key_view(ts.take(b)),
        ).len() + 1,
{
    assert(key_view(ts.take(b + 1)).drop_last() =~= key_view(ts.take(b)));
}

proof fn lemma_shown_lt(ts: Seq<(K, K, Seq<char>)>, a: int, b: int)
    requires
        0 <= a < b <= ts.len(),
        ts[a].0 != K::Whitespace,
    ensures
        shown(key_view(ts.take(a))).len() < shown(key_view(ts.take(b))).len(),
    decreases b - a,
{
    lemma_shown_step(ts, b - 1);
    if b - 1 > a {
        lemma_shown_lt(ts, a, b - 1);
    }
}

proof fn lemma_gaps_step(ts: Seq<(K, K, Seq<char>)>, i: int, seps: Seq<Seq<char>>, seps2: Seq<Seq<char>>)
    requires
        0 <= i < ts.len(),
        gaps_follow_rules(ts.take(i), seps),
        seps.len() == shown(key_view(ts.take(i))).len(),
        seps2.len() >= seps.len(),
        forall|j: int| 0 <= j < seps.len() ==> seps2[j] == seps[j],
        ts[i].0 != K::Whitespace ==> seps2.len() > seps.len() && gap_rule(
            line_state(ts.take(i)),
            ts[i],
            seps2[seps.len() as int],
        ),
    ensures
        gaps_follow_rules(ts.take(i + 1), seps2),
{
    let t1 = ts.take(i + 1);
    assert forall|x: int|
        0 <= x < t1.len() && t1[x].0 != K::Whitespace implies gap_rule(
        line_state(t1.take(x)),
        t1[x],
        seps2[shown(key_view(t1.take(x))).len() as int],
    ) by {
        assert(t1.take(x) =~= ts.take(x));
        assert(t1[x] == ts[x]);
        if x < i {
            assert(ts.take(i).take(x) =~= ts.take(x));
            assert(ts.take(i)[x] == ts[x]);
            lemma_shown_lt(ts, x, i);
        } else {
            assert(x == i);
        }
    }
}

/// Lay the tokens out: canonical spacing within a line, indentation by
/// structure, the author's line breaks and relative indentation kept.
pub fn run(toks: &Vec<FlatToken>) -> (r: String)
    ensures
        respaced(r@, shown(flat_view(toks@))),
        laid_out(r@, flat_keys(toks@)),
{
    let n = toks.len();
    // Pre-pass: for every token that starts a line, the author's
    // indentation and whether the line is at item level.
    let mut line_start = filled(false, n);
    let mut orig_indent = filled(0usize, n);
    let mut anchor = filled(false, n);
    let mut at_start = true;
    let mut i: usize = 0;
    while i < n
        invariant
            n == toks@.len(),
            line_start@.len() == n,
            orig_indent@.len() == n,
            i <= n,
        decreases n - i,
    {
        let t = toks[i];
        if t.kind == K::Whitespace {
            if count_newlines(t.text) > 0 {
                at_start = true;
                orig_indent.set(i, chars_after_last_newline(t.text));
            }
        } else {
            line_start.set(i, at_start);
            if at_start {
                let o = if i > 0 && toks[i - 1].kind == K::Whitespace {
                    orig_indent[i - 1]
                } else {
                    0
                };
                orig_indent.set(i, o);
            }
            at_start = false;
        }
        i = i + 1;
    }
    // Anchor class: a code token by itself; a comment by the next code
    // token on a later line (a comment before an item is at item level).
    let mut i: usize = 0;
    while i < n
        invariant
            n == toks@.len(),
            line_start@.len() == n,
            anchor@.len() == n,
            i <= n,
        decreases n - i,
    {
        if line_start[i] {
            let t = toks[i];
            let a = if t.kind.is_trivia() {
                match next_code(toks, i) {
                    None => true,
                    Some(j) => is_anchor(&toks[j]),
                }
            } else {
                is_anchor(&t)
            };
            anchor.set(i, a);
        }
        i = i + 1;
    }
    // Relative indentation of continuation lines: per run, the shallowest
    // line becomes one level in.  A closing brace of a formula block
    // written at the item's own level stays there: it is not counted in the
    // base and may sit one level out.
    let mut extra = filled(0i128, n);
    let mut i: usize = 0;
    while i < n
        invariant
            n == toks@.len(),
            line_start@.len() == n,
            anchor@.len() == n,
            orig_indent@.len() == n,
            extra@.len() == n,
            i <= n,
        decreases n - i,
    {
        if line_start[i] && !anchor[i] {
            let mut j = i;
            let mut base = usize::MAX;
            while j < n && !(line_start[j] && anchor[j])
                invariant
                    n == toks@.len(),
                    line_start@.len() == n,
                    anchor@.len() == n,
                    orig_indent@.len() == n,
                    i <= j <= n,
                decreases n - j,
            {
                if line_start[j] && toks[j].kind != K::RBrace && orig_indent[j] < base {
                    base = orig_indent[j];
                }
                j = j + 1;
            }
            if base == usize::MAX {
                base = 0;
            }
            let mut k = i;
            while k < j
                invariant
                    n == toks@.len(),
                    line_start@.len() == n,
                    orig_indent@.len() == n,
                    extra@.len() == n,
                    i <= k <= j <= n,
                decreases j - k,
            {
                if line_start[k] {
                    extra.set(k, orig_indent[k] as i128 - base as i128);
                }
                k = k + 1;
            }
            i = if j > i {
                j
            } else {
                i + 1
            };
        } else {
            i = i + 1;
        }
    }
    // The layout.
    let ghost views = flat_view(toks@);
    let ghost keys = flat_keys(toks@);
    let ghost mut seps: Seq<Seq<char>> = Seq::empty();
    let mut out = String::new();
    let mut depth: usize = 0;
    let mut pending_newlines: usize = 0;
    let mut pending_space = false;
    let mut prev: Option<FlatToken> = None;
    let mut prefix_minus = false;
    let mut first = true;
    let mut i: usize = 0;
    assert(views.subrange(0, 0) =~= Seq::<(K, Seq<char>)>::empty());
    while i < n
        invariant
            n == toks@.len(),
            views == flat_view(toks@),
            anchor@.len() == n,
            extra@.len() == n,
            i <= n,
            depth <= i,
            pending_newlines <= 2,
            seps.len() == shown(views.subrange(0, i as int)).len(),
            forall|j: int| 0 <= j < seps.len() ==> blank(#[trigger] seps[j]),
            forall|j: int| 0 <= j < seps.len() ==> layout_gap(#[trigger] seps[j]),
            first ==> seps.len() == 0,
            !first ==> seps.len() > 0 && seps[0].len() == 0,
            out@ == joined(seps, shown(views.subrange(0, i as int))),
            keys == flat_keys(toks@),
            line_state(keys.take(i as int)) == (first, pending_newlines as nat, match prev {
                Some(p) => Some((p.kind, p.parent)),
                None => None,
            }, prefix_minus),
            gaps_follow_rules(keys.take(i as int), seps),
            key_view(keys.take(i as int)) == views.subrange(0, i as int),
        decreases n - i,
    {
        let t = toks[i];
        let ghost pre = views.subrange(0, i as int);
        let ghost st0 = line_state(keys.take(i as int));
        let ghost seps0 = seps;
        proof {
            assert(views.subrange(0, i + 1).drop_last() =~= pre);
            assert(views.subrange(0, i + 1).last() == (t.kind, t.text@));
            assert(keys.take(i + 1).drop_last() =~= keys.take(i as int));
            assert(keys.take(i + 1).last() == flat_key(t));
            assert(key_view(keys.take(i + 1)) =~= views.subrange(0, i + 1));
        }
        let ghost mark = out@;
        if t.kind == K::Whitespace {
            let nl = count_newlines(t.text);
            if nl > 0 {
                let capped = if nl < 2 {
                    nl
                } else {
                    2
                };
                if capped > pending_newlines {
                    pending_newlines = capped;
                }
                pending_space = false;
            } else {
                pending_space = true;
            }
            assert(shown(views.subrange(0, i + 1)) == shown(pre));
            proof {
                lemma_gaps_step(keys, i as int, seps0, seps);
            }
            i = i + 1;
            continue;
        }
        if t.kind == K::LineComment || t.kind == K::BlockComment {
            let ghost gk: nat = 0;
            let ghost gm: nat = 0;
            if first {
                // A comment at the very top stays at the top.
            } else if pending_newlines > 0 {
                let closing = match next_code(toks, i) {
                    Some(j) => toks[j].kind == K::RBrace && structural_brace(&toks[j]),
                    None => false,
                };
                // A comment before a closing brace sits with the body it
                // closes.
                let level = if anchor[i] && !closing {
                    depth
                } else if anchor[i] {
                    if depth > 1 {
                        depth
                    } else {
                        1
                    }
                } else {
                    depth + 1
                };
                // The line so far ends with a token's text: separators are
                // written only right before a token.
                push_repeated(&mut out, '\n', pending_newlines);
                let w = indent(level, extra[i]);
                push_repeated(&mut out, ' ', w);
                proof {
                    gk = pending_newlines as nat;
                    gm = w as nat;
                }
            } else {
                push_repeated(&mut out, ' ', 2);
                proof {
                    gm = 2;
                }
            }
            let ghost sep = out@.subrange(mark.len() as int, out@.len() as int);
            proof {
                assert(sep =~= line_feeds(gk) + spaces(gm));
                lemma_gap(gk, gm);
            }
            assert(blank(sep));
            push_trimmed(&mut out, t.text);
            proof {
                assert(out@ =~= mark + sep + trim_end(t.text@));
                let old_seps = seps;
                seps = seps.push(sep);
                assert(seps.drop_last() =~= old_seps);
                assert(shown(views.subrange(0, i + 1)) == shown(pre).push(trim_end(t.text@)));
                assert(shown(views.subrange(0, i + 1)).drop_last() =~= shown(pre));
            }
            proof {
                assert(seps.last() == sep);
                if !st0.0 && st0.1 > 0 {
                    assert(sep == line_feeds(st0.1) + spaces(gm));
                } else if !st0.0 {
                    assert(sep =~= spaces(2));
                } else {
                    assert(sep.len() == 0);
                }
                assert(gap_rule(st0, flat_key(t), seps[seps0.len() as int]));
                lemma_gaps_step(keys, i as int, seps0, seps);
            }
            pending_newlines = 0;
            pending_space = false;
            first = false;
            i = i + 1;
            continue;
        }
        let closing = t.kind == K::RBrace && structural_brace(&t);
        if closing && depth > 0 {
            depth = depth - 1;
        }
        let ghost gk: nat = 0;
        let ghost gm: nat = 0;
        if first {
            // Nothing before the first token.
        } else if pending_newlines > 0 {
            let level = if anchor[i] {
                depth
            } else {
                depth + 1
            };
            push_repeated(&mut out, '\n', pending_newlines);
            let w = indent(level, extra[i]);
            push_repeated(&mut out, ' ', w);
            proof {
                gk = pending_newlines as nat;
                gm = w as nat;
            }
        } else {
            match prev {
                Some(p) => {
                    if space_between(&p, &t, prefix_minus) || (pending_space && space_kept(&p, &t)) {
                        push_repeated(&mut out, ' ', 1);
                        proof {
                            gm = 1;
                        }
                    }
                },
                None => {},
            }
        }
        let ghost sep = out@.subrange(mark.len() as int, out@.len() as int);
        proof {
            assert(sep =~= line_feeds(gk) + spaces(gm));
            lemma_gap(gk, gm);
        }
        assert(blank(sep));
        out.append(t.text);
        proof {
            assert(out@ =~= mark + sep + t.text@);
            let old_seps = seps;
            seps = seps.push(sep);
            assert(seps.drop_last() =~= old_seps);
            assert(shown(views.subrange(0, i + 1)) == shown(pre).push(t.text@));
            assert(shown(views.subrange(0, i + 1)).drop_last() =~= shown(pre));
        }
        if t.kind == K::LBrace && structural_brace(&t) {
            depth = depth + 1;
        }
        proof {
            assert(seps.last() == sep);
            if !st0.0 && st0.1 > 0 {
                assert(sep == line_feeds(st0.1) + spaces(gm));
            } else if !st0.0 {
                match prev {
                    Some(p) => {
                        assert(spec_space_between(p, t, prefix_minus) == spacing(
                            p.kind,
                            p.parent,
                            t.kind,
                            t.parent,
                            prefix_minus,
                        ));
                        if gm == 1 {
                            assert(sep =~= spaces(1));
                        } else {
                            assert(sep =~= spaces(0));
                        }
                    },
                    None => {
                        assert(sep =~= spaces(0));
                    },
                }
            } else {
                assert(sep.len() == 0);
            }
            assert(gap_rule(st0, flat_key(t), seps[seps0.len() as int]));
            lemma_gaps_step(keys, i as int, seps0, seps);
        }
        prefix_minus = t.kind == K::Minus && (pending_newlines > 0 || match prev {
            None => true,
            Some(p) => before_prefix(&p),
        });
        pending_newlines = 0;
        pending_space = false;
        first = false;
        prev = Some(t);
        i = i + 1;
    }
    assert(views.subrange(0, n as int) =~= views);
    let cs = crate::text::chars_of(out.as_str());
    let mut end = cs.len();
    assert(cs@.subrange(0, end as int) =~= cs@);
    while end > 0 && cs[end - 1] == '\n'
        invariant
            end <= cs@.len(),
            strip_newlines(cs@) == strip_newlines(cs@.subrange(0, end as int)),
        decreases end,
    {
        assert(cs@.subrange(0, end as int).drop_last() =~= cs@.subrange(0, end - 1));
        end = end - 1;
    }
    let mut r = crate::text::string_of(&cs, 0, end);
    crate::text::push_char(&mut r, '\n');
    assert(seps.len() == shown(views).len());
    assert(r@ =~= strip_newlines(joined(seps, shown(views))) + seq!['\n']);
    assert(keys.take(n as int) =~= keys);
    assert(key_view(keys) =~= views);
    assert(laid_out(r@, keys));
    r
}

/// Format a parsed module's tree.
pub fn format_tree(root: &SyntaxNode) -> (r: String)
    ensures
        respaced(r@, shown(leaves(*root).map_values(|t: SyntaxToken| tok_view(t)))),
        laid_out(r@, tree_keys(*root)),
{
    let mut toks: Vec<FlatToken> = Vec::new();
    flatten(root, &mut toks);
    assert(flat_keys(toks@) =~= tree_keys(*root));
    assert(flat_view(toks@) =~= leaves(*root).map_values(|t: SyntaxToken| tok_view(t)));
    run(&toks)
}

/// Format a parse: `None` when it has errors.
pub fn format_parse(parse: &crate::syntax::Parse) -> (r: Option<String>)
    ensures
        r is None <==> parse.errors@.len() > 0,
        r matches Some(out) ==> respaced(
            out@,
            shown(leaves(parse.root).map_values(|t: SyntaxToken| tok_view(t))),
        ),
        r matches Some(out) ==> laid_out(out@, tree_keys(parse.root)),
{
    if !parse.is_ok() {
        return None;
    }
    Some(format_tree(&parse.root))
}

/// Format a module: `None` when the source does not parse cleanly, else the
/// source's tokens laid out anew.
pub fn format_module(src: &str) -> (r: Option<String>)
    ensures
        exists|p: crate::syntax::Parse|
            #![trigger node_text(p.root), leaves(p.root)]
            node_text(p.root) == src@ && p.root.kind == K::Module && leaf_pairs(leaves(p.root))
                == crate::lexer::lexed_pairs(src@) && key_view(tree_keys(p.root))
                == crate::lexer::lexed_pairs(src@) && (r is None <==> p.errors@.len()
                > 0) && (r matches Some(out) ==> respaced(
                out@,
                shown(leaves(p.root).map_values(|t: SyntaxToken| tok_view(t))),
            )) && (r matches Some(out) ==> laid_out(out@, tree_keys(p.root))),
        crate::lexer::lex_diagnostics(src@).len() > 0 ==> r is None,
        crate::lexer::trivia_only(src@) && crate::lexer::lex_diagnostics(src@).len() == 0 ==> r is Some,
        r matches Some(out) ==> respaced(out@, shown(crate::lexer::lexed_pairs(src@))),
{
    let parse = parse_module(src);
    let r = format_parse(&parse);
    assert(leaves(parse.root) == leaves(parse.root));
    assert(leaves(parse.root).map_values(|t: SyntaxToken| tok_view(t)) =~= leaf_pairs(leaves(parse.root)));
    proof {
        lemma_keys_are_leaves(parse.root);
    }
    r
}

} // verus!
