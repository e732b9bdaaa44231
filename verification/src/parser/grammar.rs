//! Module and items, and the formula entry point.
use super::{error_is, expr, keeps_prefix, one_more, pattern, types, Event, Parser};
use super::event::no_error_events;
use crate::diagnostics::SyntaxErrorCode;
use crate::kind::SyntaxKind;
use crate::kind::SyntaxKind as K;
use vstd::prelude::*;

verus! {

/// Where an item is: the anchors recovery stops at.
#[derive(Clone, Copy, PartialEq, Eq, Structural)]
pub enum Scope {
    Module,
    Component,
}

/// The keywords a top-level item may start with; in a component body the
/// component item keywords and the brace that closes the body.
pub open spec fn spec_is_anchor(scope: Scope, k: SyntaxKind) -> bool {
    match scope {
        Scope::Module => matches!(k, K::KwConcept | K::KwMapping | K::KwEnum | K::KwClock | K::KwOutput | K::KwDrive
            | K::KwDevice | K::KwComponent | K::KwInstance | K::KwBind | K::KwExport | K::KwOrdered),
        Scope::Component => matches!(k, K::KwConcept | K::KwMapping | K::KwEnum | K::KwClock | K::KwOutput
            | K::KwDrive | K::KwDevice | K::KwUse | K::KwParam | K::KwRequires | K::KwProvides | K::RBrace
            | K::KwOrdered),
    }
}

pub open spec fn spec_anchors(scope: Scope) -> Seq<SyntaxKind> {
    match scope {
        Scope::Module => seq![K::KwConcept, K::KwMapping, K::KwEnum, K::KwClock, K::KwOutput, K::KwDrive, K::KwDevice,
            K::KwComponent, K::KwInstance, K::KwBind, K::KwExport, K::KwOrdered],
        Scope::Component => seq![K::KwConcept, K::KwMapping, K::KwEnum, K::KwClock, K::KwOutput, K::KwDrive,
            K::KwDevice, K::KwUse, K::KwParam, K::KwRequires, K::KwProvides, K::RBrace, K::KwOrdered],
    }
}

pub proof fn lemma_anchors(scope: Scope, k: SyntaxKind)
    ensures
        spec_anchors(scope).contains(k) <==> spec_is_anchor(scope, k),
{
    let s = spec_anchors(scope);
    if s.contains(k) {
        let i = choose|i: int| 0 <= i < s.len() && s[i] == k;
        assert(0 <= i < s.len());
        if scope == Scope::Module {
            assert(i == 0 || i == 1 || i == 2 || i == 3 || i == 4 || i == 5 || i == 6 || i == 7
                || i == 8 || i == 9 || i == 10 || i == 11);
        } else {
            assert(i == 0 || i == 1 || i == 2 || i == 3 || i == 4 || i == 5 || i == 6 || i == 7
                || i == 8 || i == 9 || i == 10 || i == 11 || i == 12);
        }
    }
    if spec_is_anchor(scope, k) {
        if scope == Scope::Module {
            if k == K::KwConcept { assert(s[0] == k); }
            else if k == K::KwMapping { assert(s[1] == k); }
            else if k == K::KwEnum { assert(s[2] == k); }
            else if k == K::KwClock { assert(s[3] == k); }
            else if k == K::KwOutput { assert(s[4] == k); }
            else if k == K::KwDrive { assert(s[5] == k); }
            else if k == K::KwDevice { assert(s[6] == k); }
            else if k == K::KwComponent { assert(s[7] == k); }
            else if k == K::KwInstance { assert(s[8] == k); }
            else if k == K::KwBind { assert(s[9] == k); }
            else if k == K::KwExport { assert(s[10] == k); }
            else { assert(s[11] == k); }
        } else {
            if k == K::KwConcept { assert(s[0] == k); }
            else if k == K::KwMapping { assert(s[1] == k); }
            else if k == K::KwEnum { assert(s[2] == k); }
            else if k == K::KwClock { assert(s[3] == k); }
            else if k == K::KwOutput { assert(s[4] == k); }
            else if k == K::KwDrive { assert(s[5] == k); }
            else if k == K::KwDevice { assert(s[6] == k); }
            else if k == K::KwUse { assert(s[7] == k); }
            else if k == K::KwParam { assert(s[8] == k); }
            else if k == K::KwRequires { assert(s[9] == k); }
            else if k == K::KwProvides { assert(s[10] == k); }
            else if k == K::RBrace { assert(s[11] == k); }
            else { assert(s[12] == k); }
        }
    }
}

impl Scope {
    pub(crate) fn anchors(self) -> (r: Vec<SyntaxKind>)
        ensures
            r@ == spec_anchors(self),
    {
        match self {
            Scope::Module => vec![K::KwConcept, K::KwMapping, K::KwEnum, K::KwClock, K::KwOutput, K::KwDrive,
                K::KwDevice, K::KwComponent, K::KwInstance, K::KwBind, K::KwExport, K::KwOrdered],
            Scope::Component => vec![K::KwConcept, K::KwMapping, K::KwEnum, K::KwClock, K::KwOutput, K::KwDrive,
                K::KwDevice, K::KwUse, K::KwParam, K::KwRequires, K::KwProvides, K::RBrace, K::KwOrdered],
        }
    }

    pub(crate) fn expected(self) -> (r: &'static str)
        ensures
            r@ == spec_scope_expected(self),
            r@ == match self {
                Scope::Module => "expected a declaration here: `concept`, `mapping`, `enum`, `clock`, `output`, `drive`, `device`, `component`, `instance`, `bind` or `export`"@,
                Scope::Component => "expected a component item here: `concept`, `use`, `clock`, `param`, `requires`, `provides`, `mapping`, `enum`, `output`, `drive`, `device` — or `}` to close the component"@,
            },
    {
        match self {
            Scope::Module => "expected a declaration here: `concept`, `mapping`, `enum`, `clock`, `output`, `drive`, `device`, `component`, `instance`, `bind` or `export`",
            Scope::Component => "expected a component item here: `concept`, `use`, `clock`, `param`, `requires`, `provides`, `mapping`, `enum`, `output`, `drive`, `device` — or `}` to close the component",
        }
    }
}

/// What an item error in `scope` says was expected.
pub open spec fn spec_scope_expected(scope: Scope) -> Seq<char> {
    match scope {
        Scope::Module => "expected a declaration here: `concept`, `mapping`, `enum`, `clock`, `output`, `drive`, `device`, `component`, `instance`, `bind` or `export`"@,
        Scope::Component => "expected a component item here: `concept`, `use`, `clock`, `param`, `requires`, `provides`, `mapping`, `enum`, `output`, `drive`, `device` — or `}` to close the component"@,
    }
}

/// The message for a definition of `name` with no signature above it.
pub open spec fn needs_signature_text(name: Seq<char>) -> Seq<char> {
    "a definition of `"@ + name + "` needs its `mapping` signature right above it"@
}

/// The message for the reserved word `w`.
pub open spec fn reserved_text(w: Seq<char>) -> Seq<char> {
    "`"@ + w + "` is reserved for a future version of BDL"@
}

/// The hint for the reserved word `w`.
pub open spec fn reserved_hint(w: Seq<char>) -> Seq<char> {
    "Choose another name; `"@ + w + "` will become a keyword."@
}

/// Whether the current token is an anchor of `scope`.
fn at_anchor(p: &Parser, scope: Scope) -> (r: bool)
    requires
        p.wf(),
    ensures
        r == spec_is_anchor(scope, p.cur()),
{
    let anchors = scope.anchors();
    proof {
        lemma_anchors(scope, p.cur());
    }
    p.at_any(anchors.as_slice())
}

/// Consume up to the next anchor of `scope` (at least one token when not
/// at an anchor).
fn skip_to_anchor(p: &mut Parser, scope: Scope)
    requires
        old(p).wf(),
    ensures
        final(p).grows_from(*old(p)),
        old(p).cur() != K::Eof && !spec_is_anchor(scope, old(p).cur()) ==> final(p).pos > old(p).pos,
        final(p).cur() == K::Eof || spec_is_anchor(scope, final(p).cur()),
        keeps_prefix(old(p).events@, final(p).events@),
{
    let anchors = scope.anchors();
    proof {
        lemma_anchors(scope, p.cur());
    }
    p.skip_until(anchors.as_slice());
    proof {
        lemma_anchors(scope, p.cur());
    }
}

/// `Module ::= Item* EOF`
pub(crate) fn module(p: &mut Parser)
    requires
        old(p).wf(),
    ensures
        final(p).grows_from(*old(p)),
        final(p).cur() == K::Eof,
        old(p).cur() == K::Eof ==> final(p).events@ == old(p).events@,
{
    if p.at_eof() {
        return;
    }
    while !p.at_eof()
        invariant
            p.grows_from(*old(p)),
        decreases p.remaining(),
    {
        match p.current() {
            K::KwConcept | K::KwOrdered => concept_decl(p, Scope::Module),
            K::KwMapping => mapping_decl(p, Scope::Module),
            K::KwEnum => enum_decl(p, Scope::Module),
            K::KwClock => clock_decl(p, Scope::Module),
            K::KwOutput => output_decl(p, Scope::Module),
            K::KwDrive => drive_decl(p, Scope::Module),
            K::KwDevice => device_decl(p, Scope::Module),
            K::KwComponent => component_decl(p),
            K::KwInstance => instance_decl(p),
            K::KwBind => bind_decl(p),
            K::KwExport => export_decl(p),
            _ => unexpected_item(p, Scope::Module),
        }
    }
}

/// "a definition of `f` needs its `mapping` signature right above it"
fn needs_signature_message(p: &Parser) -> (r: String)
    requires
        p.wf(),
    ensures
        r@ == needs_signature_text(p.cur_text()),
{
    String::from_str("a definition of `").concat(p.current_text().as_str()).concat(
        "` needs its `mapping` signature right above it",
    )
}

fn unexpected_item(p: &mut Parser, scope: Scope)
    requires
        old(p).wf(),
    ensures
        final(p).grows_from(*old(p)),
        old(p).cur() != K::Eof && !spec_is_anchor(scope, old(p).cur()) ==> final(p).pos > old(p).pos,
{
    let message = if p.at(K::Ident) && p.nth(1) == K::LParen {
        needs_signature_message(p)
    } else if p.current().is_component_item_start() && scope == Scope::Module {
        String::from_str("`").concat(p.current_text().as_str()).concat(
            "` belongs inside a `component { … }` body",
        )
    } else if p.current().is_item_start() && scope == Scope::Component {
        String::from_str("`").concat(p.current_text().as_str()).concat(
            "` is a top-level declaration; close the component with `}` first",
        )
    } else {
        String::from_str(scope.expected())
    };
    p.error(SyntaxErrorCode::Unexpected, message);
    p.hint(String::from_str("Every declaration starts with one of these keywords."));
    skip_to_anchor(p, scope);
}

/// `Formula ::= Expr EOF`
pub(crate) fn formula(p: &mut Parser)
    requires
        old(p).wf(),
    ensures
        final(p).grows_from(*old(p)),
        final(p).cur() == K::Eof,
        old(p).cur() == K::Ident && old(p).second() == K::Eof && no_error_events(old(p).events@)
            ==> no_error_events(final(p).events@),
{
    if p.at_eof() {
        p.error(SyntaxErrorCode::Empty, String::from_str("the formula is empty"));
        return;
    }
    if expr::expr(p).is_none() {
        // Nothing usable at the start; say so and consume everything.
        let message = expr::no_expression_message(p);
        p.error(SyntaxErrorCode::Unexpected, message);
        p.skip_until(&[]);
        return;
    }
    if !p.at_eof() {
        expr::unexpected_after_expr(p, "the end of the formula");
        p.skip_until(&[]);
    }
}

/// After an item: anything before the next item keyword (or, in a
/// component body, the closing brace) is an error.
fn recover_item(p: &mut Parser, scope: Scope)
    requires
        old(p).wf(),
    ensures
        final(p).grows_from(*old(p)),
        old(p).cur() == K::Eof || spec_is_anchor(scope, old(p).cur()) ==> final(p).events@ == old(
            p,
        ).events@ && final(p).pos == old(p).pos,
        !(old(p).cur() == K::Eof || spec_is_anchor(scope, old(p).cur())) ==> {
            &&& final(p).pos > old(p).pos
            &&& final(p).cur() == K::Eof || spec_is_anchor(scope, final(p).cur())
            &&& old(p).events@.len() < final(p).events@.len()
            &&& final(p).events@[old(p).events@.len() as int] matches Event::Error(e) && error_is(
                e,
                SyntaxErrorCode::Unexpected,
                old(p).cur_span(),
                if old(p).cur() == K::Ident && old(p).second() == K::LParen {
                    needs_signature_text(old(p).cur_text())
                } else {
                    spec_scope_expected(scope)
                },
                Seq::empty(),
                old(p).found_text(),
            ) && e.hint is None
        },
{
    if p.at_eof() || at_anchor(p, scope) {
        return;
    }
    let message = if p.at(K::Ident) && p.nth(1) == K::LParen {
        needs_signature_message(p)
    } else {
        String::from_str(scope.expected())
    };
    p.error(SyntaxErrorCode::Unexpected, message);
    let ghost mid = p.events@;
    assert(mid[old(p).events@.len() as int] == mid.last());
    skip_to_anchor(p, scope);
}

/// `ConceptDecl ::= "ordered"? "concept" Name (":" Type)?`
fn concept_decl(p: &mut Parser, scope: Scope)
    requires
        old(p).wf(),
        old(p).cur() == K::KwConcept || old(p).cur() == K::KwOrdered,
    ensures
        final(p).grows_from(*old(p)),
        final(p).pos > old(p).pos,
{
    let m = p.start();
    if p.at(K::KwOrdered) {
        p.bump();  // ordered
        if !p.eat(K::KwConcept) {
            p.error_expecting("expected `concept` after `ordered`", &[K::KwConcept]);
            p.hint(String::from_str("Only a concept can be ordered: `ordered concept Level : Scalar`."));
            recover_item(p, scope);
            m.complete(p, K::ConceptDecl);
            return;
        }
    } else {
        p.bump();  // concept
    }
    if !name(p, "expected the concept's name after `concept`") {
        recover_item(p, scope);
        m.complete(p, K::ConceptDecl);
        return;
    }
    if p.eat(K::Colon) && !types::type_(p) {
        p.error_expecting("expected what kind of value this concept is, after `:`", &[K::Ident]);
        p.hint(
            String::from_str(
                "For example `concept Tilt : Angle`; leave the `:` off to declare an open concept.",
            ),
        );
    }
    recover_item(p, scope);
    m.complete(p, K::ConceptDecl);
}

/// `MappingDecl ::= "mapping" Name ":" Type ClockTag? MappingDef?`
fn mapping_decl(p: &mut Parser, scope: Scope)
    requires
        old(p).wf(),
        old(p).cur() == K::KwMapping,
    ensures
        final(p).grows_from(*old(p)),
        final(p).pos > old(p).pos,
{
    let m = p.start();
    p.bump();  // mapping
    if !name(p, "expected the mapping's name after `mapping`") {
        recover_item(p, scope);
        m.complete(p, K::MappingDecl);
        return;
    }
    if !p.eat(K::Colon) {
        p.error_expecting("expected `:` and the mapping's type after its name", &[K::Colon]);
        p.hint(String::from_str("A mapping is declared as `mapping name : Input -> Output`."));
    }
    if !types::type_(p) {
        p.error_expecting(
            "expected the mapping's type, such as `Tilt -> Brightness`",
            &[K::Ident, K::LParen],
        );
    }
    clock_tag(p);
    if p.at(K::Ident) && p.nth(1) == K::LParen {
        mapping_def(p, scope);
    }
    recover_item(p, scope);
    m.complete(p, K::MappingDecl);
}

/// `ClockTag ::= "@" NameRef`: optional; nothing is consumed without `@`.
fn clock_tag(p: &mut Parser) -> (r: bool)
    requires
        old(p).wf(),
    ensures
        final(p).grows_from(*old(p)),
        r == (old(p).cur() == K::At),
{
    if !p.at(K::At) {
        return false;
    }
    let m = p.start();
    p.bump();  // @
    if p.at(K::Ident) {
        name_ref(p);
    } else {
        p.error_expecting("expected a timing domain's name after `@`", &[K::Ident]);
        p.hint(String::from_str("For example `mapping tilt : Tilt @interaction`."));
    }
    m.complete(p, K::ClockTag);
    true
}

/// `MappingDef ::= NameRef "(" ParamList? ")" "=" Expr`
fn mapping_def(p: &mut Parser, scope: Scope)
    requires
        old(p).wf(),
        old(p).cur() == K::Ident,
        old(p).second() == K::LParen,
    ensures
        final(p).grows_from(*old(p)),
        final(p).pos > old(p).pos,
{
    let m = p.start();
    name_ref(p);
    param_list(p);
    if !p.eat(K::Eq) {
        p.error_expecting("expected `=` and the mapping's definition after the parameters", &[K::Eq]);
    }
    if expr::expr(p).is_none() {
        p.error_expecting("expected an expression after `=`", &[]);
        p.hint(
            String::from_str(
                "The definition is what the mapping computes, e.g. `tilt / (90 deg)`.",
            ),
        );
    } else if !p.at_eof() && !at_anchor(p, scope) {
        expr::unexpected_after_expr(p, "the next declaration after this definition");
        skip_to_anchor(p, scope);
    }
    m.complete(p, K::MappingDef);
}

/// `ParamList ::= "(" (Pattern ("," Pattern)* ","?)? ")"`
fn param_list(p: &mut Parser)
    requires
        old(p).wf(),
        old(p).cur() == K::LParen,
    ensures
        final(p).grows_from(*old(p)),
        final(p).pos > old(p).pos,
{
    let m = p.start();
    p.bump();  // (
    loop
        invariant
            p.grows_from(*old(p)),
            p.pos > old(p).pos,
            m.valid(*p),
        decreases p.remaining(),
    {
        if p.at(K::RParen) || p.at_eof() {
            break;
        }
        if !pattern::pattern(p) {
            if p.at(K::Comma) {
                p.error_and_bump(SyntaxErrorCode::Expected, "expected a parameter name before `,`");
                continue;
            }
            // Not a parameter and not a separator: the list is over.
            p.error_expecting("expected `)` to close the parameter list", &[K::RParen, K::Comma]);
            m.complete(p, K::ParamList);
            return;
        }
        if p.at(K::RParen) {
            break;
        }
        if !p.eat(K::Comma) {
            if pattern::can_start(p.current()) {
                p.error_expecting("expected `,` between parameters", &[K::Comma]);
                continue;
            }
            p.error_expecting("expected `)` to close the parameter list", &[K::RParen, K::Comma]);
            m.complete(p, K::ParamList);
            return;
        }
    }
    p.expect(K::RParen, "expected `)` to close the parameter list");
    m.complete(p, K::ParamList);
}

/// The top-level item keywords (module anchors).
fn at_module_item(p: &Parser) -> (r: bool)
    requires
        p.wf(),
    ensures
        r == spec_is_anchor(Scope::Module, p.cur()),
{
    at_anchor(p, Scope::Module)
}

/// `EnumDecl ::= "enum" Name TypeParamList? "{" (EnumVariant ("," EnumVariant)* ","?)? "}"`
fn enum_decl(p: &mut Parser, scope: Scope)
    requires
        old(p).wf(),
        old(p).cur() == K::KwEnum,
    ensures
        final(p).grows_from(*old(p)),
        final(p).pos > old(p).pos,
{
    let m = p.start();
    p.bump();  // enum
    if !name(p, "expected the enum's name after `enum`") {
        recover_item(p, scope);
        m.complete(p, K::EnumDecl);
        return;
    }
    if p.at(K::Lt) {
        type_param_list(p);
    }
    if !p.eat(K::LBrace) {
        p.error_expecting("expected `{` and the enum's variants", &[K::LBrace]);
        recover_item(p, scope);
        m.complete(p, K::EnumDecl);
        return;
    }
    loop
        invariant
            p.grows_from(*old(p)),
            p.pos > old(p).pos,
            m.valid(*p),
        decreases p.remaining(),
    {
        if p.at(K::RBrace) || p.at_eof() {
            break;
        }
        if p.at(K::Ident) {
            enum_variant(p);
        } else if p.at(K::Comma) {
            p.error_and_bump(SyntaxErrorCode::Expected, "expected a variant name before `,`");
            continue;
        } else if at_module_item(p) && !p.at(K::RBrace) {
            p.error_expecting("expected `}` to close the enum", &[K::RBrace]);
            m.complete(p, K::EnumDecl);
            return;
        } else {
            p.error_and_bump(SyntaxErrorCode::Expected, "expected a variant name");
            continue;
        }
        if p.at(K::RBrace) {
            break;
        }
        if !p.eat(K::Comma) {
            if p.at(K::Ident) {
                p.error_expecting("expected `,` between variants", &[K::Comma]);
                continue;
            }
            if (at_module_item(p) && !p.at(K::RBrace)) || p.at_eof() {
                p.error_expecting("expected `}` to close the enum", &[K::RBrace]);
                m.complete(p, K::EnumDecl);
                return;
            }
            p.error_recover(
                SyntaxErrorCode::Expected,
                "expected `,` or `}` after this variant",
                &[K::RBrace, K::Comma, K::Ident],
            );
        }
    }
    p.expect(K::RBrace, "expected `}` to close the enum");
    recover_item(p, scope);
    m.complete(p, K::EnumDecl);
}

/// `ClockDecl ::= "clock" Name`
fn clock_decl(p: &mut Parser, scope: Scope)
    requires
        old(p).wf(),
        old(p).cur() == K::KwClock,
    ensures
        final(p).grows_from(*old(p)),
        final(p).pos > old(p).pos,
{
    let m = p.start();
    p.bump();  // clock
    name(p, "expected the timing domain's name after `clock`");
    recover_item(p, scope);
    m.complete(p, K::ClockDecl);
}

/// `OutputDecl ::= "output" Name ":" Type ClockTag? ("optional")?`
fn output_decl(p: &mut Parser, scope: Scope)
    requires
        old(p).wf(),
        old(p).cur() == K::KwOutput,
    ensures
        final(p).grows_from(*old(p)),
        final(p).pos > old(p).pos,
{
    let m = p.start();
    p.bump();  // output
    if !name(p, "expected the output's name after `output`") {
        recover_item(p, scope);
        m.complete(p, K::OutputDecl);
        return;
    }
    if !p.eat(K::Colon) {
        p.error_expecting("expected `:` and the concept the output accepts", &[K::Colon]);
        p.hint(
            String::from_str(
                "A physical output is declared as `output light : Brightness @interaction`.",
            ),
        );
    }
    if !types::type_(p) {
        p.error_expecting("expected the concept the output accepts", &[K::Ident]);
    }
    clock_tag(p);
    if p.at_word("optional") {
        p.bump();
    }
    recover_item(p, scope);
    m.complete(p, K::OutputDecl);
}

/// `DriveDecl ::= "drive" NameRef ("by" | "=") NameRef`: `by` is the
/// preferred spelling, `=` the legacy one.
fn drive_decl(p: &mut Parser, scope: Scope)
    requires
        old(p).wf(),
        old(p).cur() == K::KwDrive,
    ensures
        final(p).grows_from(*old(p)),
        final(p).pos > old(p).pos,
{
    let m = p.start();
    p.bump();  // drive
    if p.at(K::Ident) {
        name_ref(p);
    } else {
        p.error_expecting("expected the output's name after `drive`", &[K::Ident]);
        p.hint(
            String::from_str(
                "`drive light by brightness` connects the relationship `brightness` to the output `light`.",
            ),
        );
    }
    if p.at_word("by") || p.at(K::Eq) {
        p.bump();
        if p.at(K::Ident) {
            name_ref(p);
        } else {
            p.error_expecting("expected the driving relationship's name after `by`", &[K::Ident]);
        }
    } else {
        p.error_expecting("expected `by` and the driving relationship", &[K::Ident]);
    }
    recover_item(p, scope);
    m.complete(p, K::DriveDecl);
}

/// `DeviceDecl ::= "device" Name ":" Ident ("for" NameRef)? DeviceBody?`
fn device_decl(p: &mut Parser, scope: Scope)
    requires
        old(p).wf(),
        old(p).cur() == K::KwDevice,
    ensures
        final(p).grows_from(*old(p)),
        final(p).pos > old(p).pos,
{
    let m = p.start();
    p.bump();  // device
    if !name(p, "expected the device's name after `device`") {
        recover_item(p, scope);
        m.complete(p, K::DeviceDecl);
        return;
    }
    if !p.eat(K::Colon) {
        p.error_expecting("expected `:` and the device's kind", &[K::Colon]);
        p.hint(String::from_str("For example `device pwmLight : pwm_channel for light`."));
    }
    if p.at(K::Ident) {
        name_ref(p);  // the kind
    } else {
        p.error_expecting("expected the device's kind, such as `pwm_channel`", &[K::Ident]);
    }
    if p.at_word("for") {
        p.bump();
        if p.at(K::Ident) {
            name_ref(p);
        } else {
            p.error_expecting("expected the output this device realises, after `for`", &[K::Ident]);
        }
    }
    if p.at(K::LBrace) {
        device_body(p);
    }
    recover_item(p, scope);
    m.complete(p, K::DeviceDecl);
}

/// `DeviceBody ::= "{" ( (PinFix | "realization" NameRef) ","? )* "}"`,
/// `PinFix ::= "pin" Number "=" Ident`
fn device_body(p: &mut Parser)
    requires
        old(p).wf(),
        old(p).cur() == K::LBrace,
    ensures
        final(p).grows_from(*old(p)),
        final(p).pos > old(p).pos,
{
    let m = p.start();
    p.bump();  // {
    loop
        invariant
            p.grows_from(*old(p)),
            p.pos > old(p).pos,
            m.valid(*p),
        decreases p.remaining(),
    {
        if p.at(K::RBrace) || p.at_eof() {
            break;
        }
        if p.at_word("realization") {
            p.bump();  // realization
            if p.at(K::Ident) {
                name_ref(p);
            } else {
                p.error_expecting(
                    "expected the realization profile's id after `realization`",
                    &[K::Ident],
                );
            }
            p.eat(K::Comma);
            continue;
        }
        if p.at_word("pin") {
            let pin = p.start();
            p.bump();  // pin
            if !p.eat(K::Number) {
                p.error_expecting("expected the requirement's index after `pin`", &[K::Number]);
            }
            if !p.eat(K::Eq) {
                p.error_expecting("expected `=` and a pin name", &[K::Eq]);
            }
            if p.at(K::Ident) {
                name_ref(p);
            } else {
                p.error_expecting("expected a board pin name such as `D3`", &[K::Ident]);
            }
            pin.complete(p, K::PinFix);
            p.eat(K::Comma);
            continue;
        }
        if at_module_item(p) {
            p.error_expecting("expected `}` to close the device", &[K::RBrace]);
            m.complete(p, K::DeviceBody);
            return;
        }
        p.error_and_bump(
            SyntaxErrorCode::Expected,
            "expected `pin <index> = <name>`, `realization <profile>` or `}` here",
        );
    }
    p.expect(K::RBrace, "expected `}` to close the device");
    m.complete(p, K::DeviceBody);
}

/// `ComponentDecl ::= "component" Name "{" ComponentItem* "}"`
fn component_decl(p: &mut Parser)
    requires
        old(p).wf(),
        old(p).cur() == K::KwComponent,
    ensures
        final(p).grows_from(*old(p)),
        final(p).pos > old(p).pos,
{
    let m = p.start();
    p.bump();  // component
    if !name(p, "expected the component's name after `component`") {
        recover_item(p, Scope::Module);
        m.complete(p, K::ComponentDecl);
        return;
    }
    if !p.at(K::LBrace) {
        p.error_expecting("expected `{` and the component's items", &[K::LBrace]);
        p.hint(
            String::from_str(
                "A component is `component Name { … }` with its ports and relationships inside.",
            ),
        );
        recover_item(p, Scope::Module);
        m.complete(p, K::ComponentDecl);
        return;
    }
    let body = p.start();
    p.bump();  // {
    loop
        invariant
            p.grows_from(*old(p)),
            p.pos > old(p).pos,
            m.valid(*p),
            body.valid(*p),
        decreases p.remaining(),
    {
        let k = p.current();
        if k == K::RBrace || k == K::Eof {
            break;
        }
        match k {
            K::KwConcept | K::KwOrdered => concept_decl(p, Scope::Component),
            K::KwMapping => mapping_decl(p, Scope::Component),
            K::KwEnum => enum_decl(p, Scope::Component),
            K::KwClock => clock_decl(p, Scope::Component),
            K::KwOutput => output_decl(p, Scope::Component),
            K::KwDrive => drive_decl(p, Scope::Component),
            K::KwDevice => device_decl(p, Scope::Component),
            K::KwUse => use_decl(p),
            K::KwParam => param_decl(p),
            K::KwRequires | K::KwProvides => port_decl(p),
            _ => {
                if k.is_item_start() {
                    // A top-level keyword inside the body: the `}` is missing.
                    p.error_expecting("expected `}` to close the component", &[K::RBrace]);
                    break;
                }
                unexpected_item(p, Scope::Component);
            },
        }
    }
    p.expect(K::RBrace, "expected `}` to close the component");
    body.complete(p, K::ComponentBody);
    recover_item(p, Scope::Module);
    m.complete(p, K::ComponentDecl);
}

/// `UseDecl ::= "use" ("concept" | "output") NameRef`
fn use_decl(p: &mut Parser)
    requires
        old(p).wf(),
        old(p).cur() == K::KwUse,
    ensures
        final(p).grows_from(*old(p)),
        final(p).pos > old(p).pos,
{
    let m = p.start();
    p.bump();  // use
    if p.at(K::KwConcept) || p.at(K::KwOutput) {
        p.bump();
    } else {
        p.error_expecting("expected `concept` or `output` after `use`", &[K::KwConcept, K::KwOutput]);
        p.hint(
            String::from_str(
                "`use concept Brightness` shares the system's concept with this component.",
            ),
        );
    }
    if p.at(K::Ident) {
        name_ref(p);
    } else {
        p.error_expecting("expected the shared item's name", &[K::Ident]);
    }
    recover_item(p, Scope::Component);
    m.complete(p, K::UseDecl);
}

/// `ParamClockDecl ::= "param" "clock" Name` or a parameter port
/// (`PortDecl` starting with `param`).
fn param_decl(p: &mut Parser)
    requires
        old(p).wf(),
        old(p).cur() == K::KwParam,
    ensures
        final(p).grows_from(*old(p)),
        final(p).pos > old(p).pos,
{
    if p.nth(1) == K::KwClock {
        let m = p.start();
        p.bump();  // param
        p.bump();  // clock
        name(p, "expected the timing parameter's name after `param clock`");
        recover_item(p, Scope::Component);
        m.complete(p, K::ParamClockDecl);
        return;
    }
    port_decl(p);
}

/// `PortDecl ::= ("requires" | "provides" | "param") Name ":" Type ClockTag? MappingDef?`
fn port_decl(p: &mut Parser)
    requires
        old(p).wf(),
        old(p).cur() == K::KwRequires || old(p).cur() == K::KwProvides || old(p).cur() == K::KwParam,
    ensures
        final(p).grows_from(*old(p)),
        final(p).pos > old(p).pos,
{
    let m = p.start();
    let word = p.current_text();
    p.bump();  // requires | provides | param
    let message = String::from_str("expected the port's name after `").concat(word.as_str()).concat(
        "`",
    );
    if !name(p, message.as_str()) {
        recover_item(p, Scope::Component);
        m.complete(p, K::PortDecl);
        return;
    }
    if !p.eat(K::Colon) {
        p.error_expecting("expected `:` and the port's concept", &[K::Colon]);
        p.hint(String::from_str("For example `requires tiltValue : Tilt @main`."));
    }
    if !types::type_(p) {
        p.error_expecting("expected the concept the port carries", &[K::Ident]);
    }
    clock_tag(p);
    if p.at(K::Ident) && p.nth(1) == K::LParen {
        mapping_def(p, Scope::Component);
    }
    recover_item(p, Scope::Component);
    m.complete(p, K::PortDecl);
}

/// `InstanceDecl ::= "instance" Name ":" NameRef InstanceBody?`
fn instance_decl(p: &mut Parser)
    requires
        old(p).wf(),
        old(p).cur() == K::KwInstance,
    ensures
        final(p).grows_from(*old(p)),
        final(p).pos > old(p).pos,
{
    let m = p.start();
    p.bump();  // instance
    if !name(p, "expected the instance's name after `instance`") {
        recover_item(p, Scope::Module);
        m.complete(p, K::InstanceDecl);
        return;
    }
    if !p.eat(K::Colon) {
        p.error_expecting("expected `:` and the component's name", &[K::Colon]);
        p.hint(
            String::from_str(
                "For example `instance lampA : AdaptiveLamp { main = interaction }`.",
            ),
        );
    }
    if p.at(K::Ident) {
        name_ref(p);
    } else {
        p.error_expecting("expected the component this is an instance of", &[K::Ident]);
    }
    if p.at(K::LBrace) {
        let body = p.start();
        p.bump();  // {
        loop
            invariant
                p.grows_from(*old(p)),
                p.pos > old(p).pos,
                m.valid(*p),
                body.valid(*p),
            decreases p.remaining(),
        {
            if p.at(K::RBrace) || p.at_eof() {
                break;
            }
            if p.at(K::Ident) {
                let arg = p.start();
                name_ref(p);
                if !p.eat(K::Eq) {
                    p.error_expecting("expected `=` and the argument's value", &[K::Eq]);
                }
                if expr::expr(p).is_none() {
                    p.error_expecting("expected a timing domain or a value after `=`", &[K::Ident]);
                }
                arg.complete(p, K::InstanceArg);
                p.eat(K::Comma);
                continue;
            }
            if at_module_item(p) {
                p.error_expecting("expected `}` to close the instance", &[K::RBrace]);
                body.complete(p, K::InstanceBody);
                recover_item(p, Scope::Module);
                m.complete(p, K::InstanceDecl);
                return;
            }
            p.error_and_bump(SyntaxErrorCode::Expected, "expected `name = value` or `}` here");
        }
        p.expect(K::RBrace, "expected `}` to close the instance");
        body.complete(p, K::InstanceBody);
    }
    recover_item(p, Scope::Module);
    m.complete(p, K::InstanceDecl);
}

/// `BindEnd ::= NameRef ("." NameRef)?`
fn bind_end(p: &mut Parser, what: &str) -> (r: bool)
    requires
        old(p).wf(),
    ensures
        final(p).grows_from(*old(p)),
        r == (old(p).cur() == K::Ident),
{
    if !p.at(K::Ident) {
        let message = String::from_str("expected ").concat(what);
        p.error_expecting(message.as_str(), &[K::Ident]);
        return false;
    }
    let m = p.start();
    name_ref(p);
    if p.eat(K::Dot) {
        if p.at(K::Ident) {
            name_ref(p);
        } else {
            p.error_expecting("expected a port name after `.`", &[K::Ident]);
        }
    }
    m.complete(p, K::BindEnd);
    true
}

/// `BindDecl ::= "bind" BindEnd "=" BindEnd ("init" Expr)?`
fn bind_decl(p: &mut Parser)
    requires
        old(p).wf(),
        old(p).cur() == K::KwBind,
    ensures
        final(p).grows_from(*old(p)),
        final(p).pos > old(p).pos,
{
    let m = p.start();
    p.bump();  // bind
    if bind_end(p, "the destination (`instance.port` or a relationship) after `bind`") {
        if p.eat(K::Eq) {
            if bind_end(p, "the source (`instance.port` or a relationship) after `=`")
                && p.at_word("init") {
                p.bump();  // init
                if expr::expr(p).is_none() {
                    p.error_expecting("expected the initial value after `init`", &[K::Number]);
                }
            }
        } else {
            p.error_expecting("expected `=` and the source of the binding", &[K::Eq]);
            p.hint(
                String::from_str(
                    "`bind lampA.tiltValue = tiltValue` supplies the port from the relationship.",
                ),
            );
        }
    }
    recover_item(p, Scope::Module);
    m.complete(p, K::BindDecl);
}

/// `ExportDecl ::= "export" BindEnd "as" Name`
fn export_decl(p: &mut Parser)
    requires
        old(p).wf(),
        old(p).cur() == K::KwExport,
    ensures
        final(p).grows_from(*old(p)),
        final(p).pos > old(p).pos,
{
    let m = p.start();
    p.bump();  // export
    if bind_end(p, "the instance's port to export, as `instance.port`") {
        if p.at_word("as") {
            p.bump();
            name(p, "expected the exported name after `as`");
        } else {
            p.error_expecting("expected `as` and the exported name", &[K::Ident]);
        }
    }
    recover_item(p, Scope::Module);
    m.complete(p, K::ExportDecl);
}

/// `EnumVariant ::= Name ("(" TypeList ")")?`
fn enum_variant(p: &mut Parser)
    requires
        old(p).wf(),
        old(p).cur() == K::Ident,
    ensures
        final(p).grows_from(*old(p)),
        final(p).pos > old(p).pos,
{
    let m = p.start();
    name(p, "expected a variant name");
    if p.at(K::LParen) {
        types::type_list(p, K::TypeList, K::LParen, K::RParen, "expected `)` to close the variant's fields");
    }
    m.complete(p, K::EnumVariant);
}

/// `TypeParamList ::= "<" Name ("," Name)* ","? ">"`
fn type_param_list(p: &mut Parser)
    requires
        old(p).wf(),
        old(p).cur() == K::Lt,
    ensures
        final(p).grows_from(*old(p)),
        final(p).pos > old(p).pos,
{
    let m = p.start();
    p.bump();  // <
    loop
        invariant
            p.grows_from(*old(p)),
            p.pos > old(p).pos,
            m.valid(*p),
        decreases p.remaining(),
    {
        if p.at(K::Gt) || p.at_eof() {
            break;
        }
        if !name(p, "expected a type parameter name") {
            if p.at(K::Comma) {
                p.bump_as_error();
                continue;
            }
            break;
        }
        if p.at(K::Gt) {
            break;
        }
        if !p.eat(K::Comma) {
            if p.at(K::Ident) {
                p.error_expecting("expected `,` between type parameters", &[K::Comma]);
                continue;
            }
            break;
        }
    }
    p.expect(K::Gt, "expected `>` to close the type parameters");
    m.complete(p, K::TypeParamList);
}

/// A definition-site name.  Reports reserved words and missing names.
pub(crate) fn name(p: &mut Parser, message: &str) -> (r: bool)
    requires
        old(p).wf(),
    ensures
        final(p).grows_from(*old(p)),
        r == (old(p).cur() == K::Ident || old(p).cur() == K::KwContext || old(p).cur() == K::KwRequire),
        r ==> final(p).pos > old(p).pos,
        !r ==> final(p).pos == old(p).pos,
{
    if p.at(K::Ident) {
        let m = p.start();
        p.bump();
        m.complete(p, K::Name);
        return true;
    }
    if p.current().is_future_reserved() {
        reserved_word(p);
        let m = p.start();
        p.bump();
        m.complete(p, K::Name);
        return true;
    }
    p.error_expecting(message, &[K::Ident]);
    false
}

/// A reference-site name (the current token is an identifier or a
/// reserved word).
pub(crate) fn name_ref(p: &mut Parser)
    requires
        old(p).wf(),
        old(p).cur() != K::Eof,
    ensures
        final(p).grows_from(*old(p)),
        final(p).pos > old(p).pos,
        final(p).cur() == old(p).second(),
        no_error_events(old(p).events@) ==> no_error_events(final(p).events@),
{
    let m = p.start();
    p.bump();
    m.complete(p, K::NameRef);
}

pub(crate) fn reserved_word(p: &mut Parser)
    requires
        old(p).wf(),
    ensures
        final(p).grows_from(*old(p)),
        final(p).pos == old(p).pos,
        final(p).cur() == old(p).cur(),
        one_more(old(p).events@, final(p).events@),
        final(p).events@.last() matches Event::Error(e) && error_is(
            e,
            SyntaxErrorCode::ReservedWord,
            old(p).cur_span(),
            reserved_text(old(p).cur_text()),
            Seq::empty(),
            old(p).found_text(),
        ) && (e.hint matches Some(h) && h@ == reserved_hint(old(p).cur_text())),
{
    let word = p.current_text();
    let message = String::from_str("`").concat(word.as_str()).concat(
        "` is reserved for a future version of BDL",
    );
    p.error(SyntaxErrorCode::ReservedWord, message);
    let hint = String::from_str("Choose another name; `").concat(word.as_str()).concat(
        "` will become a keyword.",
    );
    p.hint(hint);
    assert(p.events@.drop_last() =~= old(p).events@);
}

} // verus!
