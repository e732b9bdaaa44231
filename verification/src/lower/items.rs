//! Lowering of declarations: every item of a module or of a component
//! body, with the structural checks a definition gets.
use super::{
    expr_lowers, ident, ident_of, ident_ref, has_ident, lower_expr, lower_patterns, lower_type,
    patterns_lower, type_lowers, types_lower, Ident, SurfaceExpr, SurfacePattern, SurfaceType,
    TypeKind,
};
use crate::ast::nodes::{
    BindDecl, BindEnd, ClockDecl, ConceptDecl, DeviceDecl, DriveDecl, ExportDecl, InstanceDecl,
    MappingDecl, MappingDef, OutputDecl,
};
use crate::diagnostics::{SyntaxError, SyntaxErrorCode};
use crate::ast::reading::{spec_has_optional, spec_ident, spec_port_word};
use crate::ast::support::{first_kid, first_tok, kids, nth_kid, toks, views, KindClass};
use crate::kind::SyntaxKind;
use crate::span::Span;
use crate::syntax::{node_text, SyntaxNode, SyntaxToken};
use crate::text::trim;
use vstd::prelude::*;

verus! {

/// `c` is the clock a `ClockTag` child of `n` names, if any names one.
pub open spec fn clock_lowers(n: SyntaxNode, c: Option<Ident>) -> bool {
    match first_kid(n, KindClass::Is(SyntaxKind::ClockTag)) {
        Some(t) => match first_kid(t, KindClass::Is(SyntaxKind::NameRef)) {
            Some(r) => if has_ident(r) {
                c matches Some(i) && ident_of(r, i)
            } else {
                c is None
            },
            None => c is None,
        },
        None => c is None,
    }
}

/// The clock a node's `@domain` tag names.
fn clock_of(n: &SyntaxNode) -> (r: Option<Ident>)
    ensures
        clock_lowers(*n, r),
{
    match crate::ast::support::nth_child_node(n, KindClass::Is(SyntaxKind::ClockTag), 0) {
        Some(t) => match crate::ast::support::nth_child_node(
            t,
            KindClass::Is(SyntaxKind::NameRef),
            0,
        ) {
            Some(r) => ident_ref(&crate::ast::nodes::NameRef(r)),
            None => None,
        },
        None => None,
    }
}

// ---- concepts, clocks, outputs, drives -------------------------------------------

/// `concept Name (: Type)?`
#[derive(Debug, PartialEq)]
pub struct ConceptItem {
    pub name: Ident,
    /// `None` for an open concept (`concept Tilt`).
    pub representation: Option<SurfaceType>,
    /// `ordered concept …`.
    pub ordered: bool,
    pub span: Span,
}

pub open spec fn concept_lowers(n: SyntaxNode, c: ConceptItem) -> bool {
    &&& c.span == n.span
    &&& first_kid(n, KindClass::Is(SyntaxKind::Name)) matches Some(m)
    &&& ident_of(m, c.name)
    &&& c.ordered == first_tok(n, SyntaxKind::KwOrdered) is Some
    &&& match c.representation {
        Some(t) => first_kid(n, KindClass::Type) matches Some(tn) && type_lowers(tn, t),
        None => first_kid(n, KindClass::Type) is None,
    }
}

pub fn concept(c: &ConceptDecl) -> (r: Option<ConceptItem>)
    ensures
        r matches Some(x) ==> concept_lowers(c@, x),
        r is None ==> forall|x: ConceptItem| !concept_lowers(c@, x),
{
    let name = match c.name() {
        Some(n) => n,
        None => {
            return None;
        },
    };
    let name = match ident(&name) {
        Some(i) => i,
        None => {
            return None;
        },
    };
    let representation = match c.representation() {
        Some(t) => match lower_type(&t) {
            Some(st) => Some(st),
            None => {
                assert forall|x: ConceptItem| !concept_lowers(c@, x) by {
                    if concept_lowers(c@, x) {
                        assert(type_lowers(t@, x.representation->0));
                    }
                }
                return None;
            },
        },
        None => None,
    };
    Some(ConceptItem { name, representation, ordered: c.is_ordered(), span: c.0.span })
}

/// `clock Name`
#[derive(Debug, PartialEq)]
pub struct ClockItem {
    pub name: Ident,
    pub span: Span,
}

pub open spec fn clock_item_lowers(n: SyntaxNode, c: ClockItem) -> bool {
    &&& c.span == n.span
    &&& first_kid(n, KindClass::Is(SyntaxKind::Name)) matches Some(m)
    &&& ident_of(m, c.name)
}

pub fn clock(c: &ClockDecl) -> (r: Option<ClockItem>)
    ensures
        r matches Some(x) ==> clock_item_lowers(c@, x),
        r is None ==> forall|x: ClockItem| !clock_item_lowers(c@, x),
{
    match c.name() {
        Some(n) => match ident(&n) {
            Some(i) => Some(ClockItem { name: i, span: c.0.span }),
            None => None,
        },
        None => None,
    }
}

/// `output Name : Type @clock? optional?`: a physical output.
#[derive(Debug, PartialEq)]
pub struct OutputItem {
    pub name: Ident,
    pub accepts: SurfaceType,
    pub clock: Option<Ident>,
    pub required: bool,
    pub span: Span,
}

pub open spec fn output_lowers(n: SyntaxNode, o: OutputItem) -> bool {
    &&& o.span == n.span
    &&& first_kid(n, KindClass::Is(SyntaxKind::Name)) matches Some(m)
    &&& ident_of(m, o.name)
    &&& first_kid(n, KindClass::Type) matches Some(t)
    &&& type_lowers(t, o.accepts)
    &&& clock_lowers(n, o.clock)
    &&& o.required == !spec_has_optional(toks(n))
}

pub fn output(o: &OutputDecl) -> (r: Option<OutputItem>)
    ensures
        r matches Some(x) ==> output_lowers(o@, x),
        r is None ==> forall|x: OutputItem| !output_lowers(o@, x),
{
    let name = match o.name() {
        Some(n) => match ident(&n) {
            Some(i) => i,
            None => {
                return None;
            },
        },
        None => {
            return None;
        },
    };
    let t = match o.accepts() {
        Some(t) => t,
        None => {
            return None;
        },
    };
    let accepts = match lower_type(&t) {
        Some(a) => a,
        None => {
            assert forall|x: OutputItem| !output_lowers(o@, x) by {
                if output_lowers(o@, x) {
                    assert(type_lowers(t@, x.accepts));
                }
            }
            return None;
        },
    };
    Some(
        OutputItem {
            name,
            accepts,
            clock: clock_of(o.0),
            required: !o.is_optional(),
            span: o.0.span,
        },
    )
}

/// `drive output by relationship`
#[derive(Debug, PartialEq)]
pub struct DriveItem {
    pub output: Ident,
    pub driver: Ident,
    pub span: Span,
}

pub open spec fn drive_lowers(n: SyntaxNode, d: DriveItem) -> bool {
    &&& d.span == n.span
    &&& nth_kid(n, KindClass::Is(SyntaxKind::NameRef), 0) matches Some(o)
    &&& ident_of(o, d.output)
    &&& nth_kid(n, KindClass::Is(SyntaxKind::NameRef), 1) matches Some(m)
    &&& ident_of(m, d.driver)
}

pub fn drive(d: &DriveDecl) -> (r: Option<DriveItem>)
    ensures
        r matches Some(x) ==> drive_lowers(d@, x),
        r is None ==> forall|x: DriveItem| !drive_lowers(d@, x),
{
    let output = match d.output() {
        Some(n) => match ident_ref(&n) {
            Some(i) => i,
            None => {
                return None;
            },
        },
        None => {
            return None;
        },
    };
    let driver = match d.driver() {
        Some(n) => match ident_ref(&n) {
            Some(i) => i,
            None => {
                return None;
            },
        },
        None => {
            return None;
        },
    };
    Some(DriveItem { output, driver, span: d.0.span })
}

// ---- binds and exports -------------------------------------------------------------

/// One end of a binding: `instance.port` or a top-level relationship.
#[derive(Debug, PartialEq)]
pub struct BindEndItem {
    pub first: Ident,
    pub second: Option<Ident>,
    pub span: Span,
}

pub open spec fn bind_end_lowers(n: SyntaxNode, b: BindEndItem) -> bool {
    &&& b.span == n.span
    &&& nth_kid(n, KindClass::Is(SyntaxKind::NameRef), 0) matches Some(f)
    &&& ident_of(f, b.first)
    &&& match nth_kid(n, KindClass::Is(SyntaxKind::NameRef), 1) {
        Some(s) => b.second matches Some(i) && ident_of(s, i),
        None => b.second is None,
    }
}

pub fn bind_end(e: &BindEnd) -> (r: Option<BindEndItem>)
    ensures
        r matches Some(x) ==> bind_end_lowers(e@, x),
        r is None ==> forall|x: BindEndItem| !bind_end_lowers(e@, x),
{
    let first = match e.first() {
        Some(n) => match ident_ref(&n) {
            Some(i) => i,
            None => {
                return None;
            },
        },
        None => {
            return None;
        },
    };
    let second = match e.second() {
        Some(s) => match ident_ref(&s) {
            Some(i) => Some(i),
            None => {
                return None;
            },
        },
        None => None,
    };
    Some(BindEndItem { first, second, span: e.0.span })
}

/// The source text of a node, without its surrounding white space.
fn trimmed_text(n: &SyntaxNode) -> (r: String)
    ensures
        r@ == trim(node_text(*n)),
{
    let mut s = String::new();
    crate::syntax::push_node_text(n, &mut s);
    crate::text::trimmed(s.as_str())
}

/// `bind destination = source (init e)?`
#[derive(Debug, PartialEq)]
pub struct BindItem {
    pub destination: BindEndItem,
    pub source: BindEndItem,
    /// The initial value, lowered and as source text, when the binding is
    /// transported.
    pub init: Option<(SurfaceExpr, String)>,
    pub span: Span,
}

pub open spec fn bind_lowers(n: SyntaxNode, b: BindItem) -> bool {
    &&& b.span == n.span
    &&& nth_kid(n, KindClass::Is(SyntaxKind::BindEnd), 0) matches Some(d)
    &&& bind_end_lowers(d, b.destination)
    &&& nth_kid(n, KindClass::Is(SyntaxKind::BindEnd), 1) matches Some(s)
    &&& bind_end_lowers(s, b.source)
    &&& match b.init {
        Some((e, text)) => first_kid(n, KindClass::Expr) matches Some(en) && expr_lowers(en, e)
            && text@ == trim(node_text(en)),
        None => first_kid(n, KindClass::Expr) is None,
    }
}

pub fn bind(b: &BindDecl) -> (r: Option<BindItem>)
    ensures
        r matches Some(x) ==> bind_lowers(b@, x),
        r is None ==> forall|x: BindItem| !bind_lowers(b@, x),
{
    let init = match b.init() {
        Some(e) => match lower_expr(&e) {
            Some(se) => Some((se, trimmed_text(e.syntax()))),
            None => {
                assert forall|x: BindItem| !bind_lowers(b@, x) by {
                    if bind_lowers(b@, x) {
                        assert(expr_lowers(e@, (x.init->0).0));
                    }
                }
                return None;
            },
        },
        None => None,
    };
    let destination = match b.destination() {
        Some(d) => match bind_end(&d) {
            Some(x) => x,
            None => {
                return None;
            },
        },
        None => {
            return None;
        },
    };
    let source = match b.source() {
        Some(s) => match bind_end(&s) {
            Some(x) => x,
            None => {
                return None;
            },
        },
        None => {
            return None;
        },
    };
    Some(BindItem { destination, source, init, span: b.0.span })
}

/// `export instance.port as Name`
#[derive(Debug, PartialEq)]
pub struct ExportItem {
    pub port: BindEndItem,
    pub name: Ident,
    pub span: Span,
}

pub open spec fn export_lowers(n: SyntaxNode, e: ExportItem) -> bool {
    &&& e.span == n.span
    &&& first_kid(n, KindClass::Is(SyntaxKind::BindEnd)) matches Some(p)
    &&& bind_end_lowers(p, e.port)
    &&& first_kid(n, KindClass::Is(SyntaxKind::Name)) matches Some(m)
    &&& ident_of(m, e.name)
}

pub fn export(e: &ExportDecl) -> (r: Option<ExportItem>)
    ensures
        r matches Some(x) ==> export_lowers(e@, x),
        r is None ==> forall|x: ExportItem| !export_lowers(e@, x),
{
    let port = match e.port() {
        Some(p) => match bind_end(&p) {
            Some(x) => x,
            None => {
                return None;
            },
        },
        None => {
            return None;
        },
    };
    let name = match e.name() {
        Some(n) => match ident(&n) {
            Some(i) => i,
            None => {
                return None;
            },
        },
        None => {
            return None;
        },
    };
    Some(ExportItem { port, name, span: e.0.span })
}

// ---- instances ------------------------------------------------------------------

#[derive(Debug, PartialEq)]
pub struct InstanceArgItem {
    pub name: Ident,
    pub value: SurfaceExpr,
    /// The value's source text, kept for parameter values (which the model
    /// stores as text) and for clock arguments (a bare name).
    pub text: String,
    pub span: Span,
}

/// `instance Name : Component { arg = value }`
#[derive(Debug, PartialEq)]
pub struct InstanceItem {
    pub name: Ident,
    pub component: Ident,
    pub args: Vec<InstanceArgItem>,
    pub span: Span,
}

pub open spec fn arg_lowers(n: SyntaxNode, a: InstanceArgItem) -> bool {
    &&& a.span == n.span
    &&& first_kid(n, KindClass::Is(SyntaxKind::NameRef)) matches Some(r)
    &&& ident_of(r, a.name)
    &&& first_kid(n, KindClass::Expr) matches Some(v)
    &&& expr_lowers(v, a.value)
    &&& a.text@ == trim(node_text(v))
}

pub open spec fn instance_arg_nodes(n: SyntaxNode) -> Seq<SyntaxNode> {
    match first_kid(n, KindClass::Is(SyntaxKind::InstanceBody)) {
        Some(b) => kids(b, KindClass::Is(SyntaxKind::InstanceArg)),
        None => Seq::empty(),
    }
}

pub open spec fn instance_lowers(n: SyntaxNode, x: InstanceItem) -> bool {
    &&& x.span == n.span
    &&& first_kid(n, KindClass::Is(SyntaxKind::Name)) matches Some(m)
    &&& ident_of(m, x.name)
    &&& first_kid(n, KindClass::Is(SyntaxKind::NameRef)) matches Some(c)
    &&& ident_of(c, x.component)
    &&& instance_arg_nodes(n).len() == x.args@.len()
    &&& forall|i: int|
        0 <= i < x.args@.len() ==> arg_lowers(instance_arg_nodes(n)[i], #[trigger] x.args@[i])
}

pub fn instance(i: &InstanceDecl) -> (r: Option<InstanceItem>)
    ensures
        r matches Some(x) ==> instance_lowers(i@, x),
        r is None ==> forall|x: InstanceItem| !instance_lowers(i@, x),
{
    let args_in = i.args();
    let ghost av = views(args_in@);
    assert(av == instance_arg_nodes(i@));
    let mut args: Vec<InstanceArgItem> = Vec::new();
    let mut k: usize = 0;
    while k < args_in.len()
        invariant
            k <= args_in@.len(),
            av == views(args_in@),
            av == instance_arg_nodes(i@),
            args@.len() == k,
            forall|j: int| 0 <= j < k ==> arg_lowers(av[j], #[trigger] args@[j]),
        decreases args_in@.len() - k,
    {
        let a = args_in[k];
        assert(av[k as int] == a@);
        let lowered = match (a.value(), a.name()) {
            (Some(v), Some(nm)) => match (ident_ref(&nm), lower_expr(&v)) {
                (Some(id), Some(value)) => Some(
                    InstanceArgItem { name: id, value, text: trimmed_text(v.syntax()), span: a.0.span },
                ),
                _ => {
                    assert forall|x: InstanceArgItem| !arg_lowers(a@, x) by {
                        if arg_lowers(a@, x) {
                            assert(ident_of(nm@, x.name));
                            assert(expr_lowers(v@, x.value));
                        }
                    }
                    None
                },
            },
            _ => None,
        };
        match lowered {
            Some(x) => {
                args.push(x);
            },
            None => {
                assert forall|x: InstanceItem| !instance_lowers(i@, x) by {
                    if instance_lowers(i@, x) {
                        assert(arg_lowers(av[k as int], x.args@[k as int]));
                    }
                }
                return None;
            },
        }
        k = k + 1;
    }
    let name = match i.name() {
        Some(n) => match ident(&n) {
            Some(id) => id,
            None => {
                return None;
            },
        },
        None => {
            return None;
        },
    };
    let component = match i.component() {
        Some(n) => match ident_ref(&n) {
            Some(id) => id,
            None => {
                return None;
            },
        },
        None => {
            return None;
        },
    };
    Some(InstanceItem { name, component, args, span: i.0.span })
}

// ---- enums ----------------------------------------------------------------------

#[derive(Debug, PartialEq)]
pub struct VariantItem {
    pub name: Ident,
    pub fields: Vec<SurfaceType>,
    pub span: Span,
}

/// `enum Name<T…> { variants }`
#[derive(Debug, PartialEq)]
pub struct EnumItem {
    pub name: Ident,
    pub type_params: Vec<Ident>,
    pub variants: Vec<VariantItem>,
    pub span: Span,
}

pub open spec fn variant_field_nodes(n: SyntaxNode) -> Seq<SyntaxNode> {
    match first_kid(n, KindClass::Is(SyntaxKind::TypeList)) {
        Some(l) => kids(l, KindClass::Type),
        None => Seq::empty(),
    }
}

pub open spec fn type_param_nodes(n: SyntaxNode) -> Seq<SyntaxNode> {
    match first_kid(n, KindClass::Is(SyntaxKind::TypeParamList)) {
        Some(l) => kids(l, KindClass::Is(SyntaxKind::Name)),
        None => Seq::empty(),
    }
}

pub open spec fn variant_lowers(n: SyntaxNode, v: VariantItem) -> bool {
    &&& v.span == n.span
    &&& first_kid(n, KindClass::Is(SyntaxKind::Name)) matches Some(m)
    &&& ident_of(m, v.name)
    &&& types_lower(variant_field_nodes(n), v.fields@)
}

pub open spec fn enum_lowers(n: SyntaxNode, e: EnumItem) -> bool {
    &&& e.span == n.span
    &&& first_kid(n, KindClass::Is(SyntaxKind::Name)) matches Some(m)
    &&& ident_of(m, e.name)
    &&& super::idents_of(type_param_nodes(n), e.type_params@)
    &&& kids(n, KindClass::Is(SyntaxKind::EnumVariant)).len() == e.variants@.len()
    &&& forall|i: int|
        0 <= i < e.variants@.len() ==> variant_lowers(
            kids(n, KindClass::Is(SyntaxKind::EnumVariant))[i],
            #[trigger] e.variants@[i],
        )
}

pub fn enum_(e: &crate::ast::nodes::EnumDecl) -> (r: Option<EnumItem>)
    ensures
        r matches Some(x) ==> enum_lowers(e@, x),
        r is None ==> forall|x: EnumItem| !enum_lowers(e@, x),
{
    let name_node = e.name();
    let params_in = e.type_params();
    let ghost pv = params_in@;
    let type_params = super::idents(params_in);
    let variants_in = e.variants();
    let ghost vv = views(variants_in@);
    let mut variants: Vec<VariantItem> = Vec::new();
    let mut k: usize = 0;
    while k < variants_in.len()
        invariant
            k <= variants_in@.len(),
            vv == views(variants_in@),
            vv == kids(e@, KindClass::Is(SyntaxKind::EnumVariant)),
            variants@.len() == k,
            forall|j: int| 0 <= j < k ==> variant_lowers(vv[j], #[trigger] variants@[j]),
        decreases variants_in@.len() - k,
    {
        let v = variants_in[k];
        assert(vv[k as int] == v@);
        let fields_in = v.fields();
        let ghost fv = fields_in@;
        proof {
            assert forall|i: int| 0 <= i < fv.len() implies #[trigger] fv[i]@ == variant_field_nodes(v@)[i] by {
                assert(views(fv)[i] == fv[i]@);
            }
        }
        let fields = lower_type_list(fields_in);
        let lowered = match (v.name(), fields) {
            (Some(nm), Some(fields)) => match ident(&nm) {
                Some(id) => Some(VariantItem { name: id, fields, span: v.0.span }),
                None => None,
            },
            (_, None) => {
                assert forall|x: VariantItem| !variant_lowers(v@, x) by {
                    if variant_lowers(v@, x) {
                        assert(types_lower(views(fv), x.fields@));
                    }
                }
                None
            },
            _ => None,
        };
        match lowered {
            Some(x) => {
                variants.push(x);
            },
            None => {
                assert forall|x: EnumItem| !enum_lowers(e@, x) by {
                    if enum_lowers(e@, x) {
                        assert(variant_lowers(vv[k as int], x.variants@[k as int]));
                    }
                }
                return None;
            },
        }
        k = k + 1;
    }
    let name = match name_node {
        Some(n) => match ident(&n) {
            Some(id) => id,
            None => {
                return None;
            },
        },
        None => {
            return None;
        },
    };
    match type_params {
        Some(type_params) => Some(EnumItem { name, type_params, variants, span: e.0.span }),
        None => {
            assert forall|x: EnumItem| !enum_lowers(e@, x) by {
                if enum_lowers(e@, x) {
                    let i = choose|i: int| 0 <= i < pv.len() && !has_ident(#[trigger] pv[i]@);
                    assert(views(pv)[i] == pv[i]@);
                    assert(ident_of(type_param_nodes(e@)[i], x.type_params@[i]));
                }
            }
            None
        },
    }
}

/// Lower the field types of a variant (types that are not below one owner
/// node in the recursion: a variant's fields are whole types of their own).
fn lower_type_list(ts: Vec<crate::ast::nodes::Type>) -> (r: Option<Vec<SurfaceType>>)
    requires
        forall|i: int| 0 <= i < ts@.len() ==> (#[trigger] ts@[i]).shaped(),
    ensures
        r matches Some(v) ==> types_lower(views(ts@), v@),
        r is None ==> forall|v: Seq<SurfaceType>| !types_lower(views(ts@), v),
{
    let ghost ns = views(ts@);
    let mut out: Vec<SurfaceType> = Vec::new();
    let mut i: usize = 0;
    while i < ts.len()
        invariant
            i <= ts@.len(),
            ns == views(ts@),
            out@.len() == i,
            forall|j: int| 0 <= j < ts@.len() ==> (#[trigger] ts@[j]).shaped(),
            forall|j: int| 0 <= j < i ==> type_lowers(ns[j], #[trigger] out@[j]),
        decreases ts@.len() - i,
    {
        assert(ns[i as int] == ts@[i as int]@);
        match lower_type(&ts[i]) {
            Some(s) => {
                out.push(s);
            },
            None => {
                assert forall|v: Seq<SurfaceType>| !types_lower(ns, v) by {
                    if types_lower(ns, v) {
                        assert(type_lowers(ns[i as int], v[i as int]));
                    }
                }
                return None;
            },
        }
        i = i + 1;
    }
    Some(out)
}

// ---- devices ------------------------------------------------------------------------

/// `u16::from_str`: an optional `+`, then one or more digits, in range.
pub open spec fn parse_u16(s: Seq<char>) -> Option<u16> {
    let body = if s.len() > 0 && s[0] == '+' {
        s.skip(1)
    } else {
        s
    };
    if body.len() > 0 && crate::literal::all_digits(body) && crate::literal::digits_value(body)
        <= u16::MAX {
        Some(crate::literal::digits_value(body) as u16)
    } else {
        None
    }
}

fn parse_u16_c(text: &str) -> (r: Option<u16>)
    ensures
        r == parse_u16(text@),
{
    let cs = crate::text::chars_of(text);
    let ghost s = cs@;
    let start: usize = if cs.len() > 0 && cs[0] == '+' {
        1
    } else {
        0
    };
    let ghost body = s.subrange(start as int, s.len() as int);
    assert(body =~= if s.len() > 0 && s[0] == '+' {
        s.skip(1)
    } else {
        s
    });
    if start == cs.len() {
        return None;
    }
    let mut v: u32 = 0;
    let mut i = start;
    while i < cs.len()
        invariant
            start <= i <= cs@.len(),
            s == cs@,
            s == text@,
            body == s.subrange(start as int, s.len() as int),
            body == (if s.len() > 0 && s[0] == '+' {
                s.skip(1)
            } else {
                s
            }),
            crate::literal::all_digits(s.subrange(start as int, i as int)),
            v == crate::literal::digits_value(s.subrange(start as int, i as int)),
            v <= u16::MAX,
        decreases cs@.len() - i,
    {
        let c = cs[i];
        if !('0' <= c && c <= '9') {
            assert(!crate::literal::is_digit_char(body[i - start]));
            return None;
        }
        assert(s.subrange(start as int, i + 1).drop_last() =~= s.subrange(start as int, i as int));
        let d = (c as u32) - ('0' as u32);
        let nv = v * 10 + d;
        assert(crate::literal::all_digits(s.subrange(start as int, i + 1))) by {
            assert forall|j: int| 0 <= j < i + 1 - start implies #[trigger] crate::literal::is_digit_char(
                s.subrange(start as int, i + 1)[j],
            ) by {
                if j < i - start {
                    assert(s.subrange(start as int, i + 1)[j] == s.subrange(start as int, i as int)[j]);
                }
            }
        }
        if nv > 65535 {
            proof {
                if crate::literal::all_digits(body) {
                    crate::literal::lemma_digits_value_grows(body, (i + 1 - start) as int);
                    assert(body.subrange(0, (i + 1 - start) as int) =~= s.subrange(start as int, i + 1));
                }
            }
            return None;
        }
        v = nv;
        i = i + 1;
    }
    assert(s.subrange(start as int, i as int) =~= body);
    Some(v as u16)
}

/// `device Name : kind for output { pin i = name }`
#[derive(Debug, PartialEq)]
pub struct DeviceItem {
    pub name: Ident,
    pub kind: Ident,
    pub output: Option<Ident>,
    /// `(requirement index, pin name)` as written.
    pub pins: Vec<(u16, Ident)>,
    /// The realization profile, when the body names one.
    pub realization: Option<Ident>,
    pub span: Span,
}

pub open spec fn pin_nodes(n: SyntaxNode) -> Seq<SyntaxNode> {
    match first_kid(n, KindClass::Is(SyntaxKind::DeviceBody)) {
        Some(b) => kids(b, KindClass::Is(SyntaxKind::PinFix)),
        None => Seq::empty(),
    }
}

pub open spec fn pin_lowers(n: SyntaxNode, p: (u16, Ident)) -> bool {
    &&& first_tok(n, SyntaxKind::Number) matches Some(t)
    &&& parse_u16(t.text@) == Some(p.0)
    &&& first_kid(n, KindClass::Is(SyntaxKind::NameRef)) matches Some(r)
    &&& ident_of(r, p.1)
}

/// Whether a pin lowers.
pub open spec fn pin_ok(n: SyntaxNode) -> bool {
    &&& first_tok(n, SyntaxKind::Number) matches Some(t)
    &&& parse_u16(t.text@) is Some
    &&& first_kid(n, KindClass::Is(SyntaxKind::NameRef)) matches Some(r)
    &&& has_ident(r)
}

pub open spec fn device_header_ok(n: SyntaxNode) -> bool {
    &&& first_kid(n, KindClass::Is(SyntaxKind::Name)) matches Some(m)
    &&& has_ident(m)
    &&& nth_kid(n, KindClass::Is(SyntaxKind::NameRef), 0) matches Some(k)
    &&& has_ident(k)
    &&& (nth_kid(n, KindClass::Is(SyntaxKind::NameRef), 1) matches Some(o) ==> has_ident(o))
    &&& (crate::ast::reading::realization_node(n) matches Some(r) ==> has_ident(r))
}

pub open spec fn device_lowers(n: SyntaxNode, d: DeviceItem) -> bool {
    &&& d.span == n.span
    &&& first_kid(n, KindClass::Is(SyntaxKind::Name)) matches Some(m)
    &&& ident_of(m, d.name)
    &&& nth_kid(n, KindClass::Is(SyntaxKind::NameRef), 0) matches Some(k)
    &&& ident_of(k, d.kind)
    &&& match nth_kid(n, KindClass::Is(SyntaxKind::NameRef), 1) {
        Some(o) => d.output matches Some(i) && ident_of(o, i),
        None => d.output is None,
    }
    &&& pin_nodes(n).len() == d.pins@.len()
    &&& forall|i: int| 0 <= i < d.pins@.len() ==> pin_lowers(pin_nodes(n)[i], #[trigger] d.pins@[i])
    &&& match crate::ast::reading::realization_node(n) {
        Some(r) => d.realization matches Some(i) && ident_of(r, i),
        None => d.realization is None,
    }
}

/// The first of `ps` from `i` on that does not lower.
pub open spec fn first_bad_pin(ps: Seq<SyntaxNode>, i: int) -> Option<int>
    decreases ps.len() - i,
{
    if i < 0 || i >= ps.len() {
        None
    } else if !pin_ok(ps[i]) {
        Some(i)
    } else {
        first_bad_pin(ps, i + 1)
    }
}

/// The pin index token of a device that cannot be read as an index, when
/// that is what stops the device from lowering.
pub open spec fn bad_pin_index(n: SyntaxNode) -> Option<SyntaxToken> {
    if device_header_ok(n) {
        match first_bad_pin(pin_nodes(n), 0) {
            Some(i) => match first_tok(pin_nodes(n)[i], SyntaxKind::Number) {
                Some(t) => if parse_u16(t.text@) is None {
                    Some(t)
                } else {
                    None
                },
                None => None,
            },
            None => None,
        }
    } else {
        None
    }
}

/// A diagnostic as a value: its code, span, message, what was found, and
/// its hint.
pub open spec fn err_view(e: SyntaxError) -> ErrView {
    ErrView {
        code: e.code,
        span: e.span,
        message: e.message@,
        expected: e.expected@.map_values(|x: String| x@),
        found: e.found@,
        hint: match e.hint {
            Some(h) => Some(h@),
            None => None,
        },
    }
}

/// The views of a list of diagnostics.
pub open spec fn err_views(s: Seq<SyntaxError>) -> Seq<ErrView> {
    s.map_values(|e: SyntaxError| err_view(e))
}

pub struct ErrView {
    pub code: SyntaxErrorCode,
    pub span: Span,
    pub message: Seq<char>,
    pub expected: Seq<Seq<char>>,
    pub found: Seq<char>,
    pub hint: Option<Seq<char>>,
}

/// `new` is `old` with diagnostics whose views are `added` appended.
pub open spec fn pushed(old: Seq<SyntaxError>, new: Seq<SyntaxError>, added: Seq<ErrView>) -> bool {
    &&& new.len() == old.len() + added.len()
    &&& new.subrange(0, old.len() as int) == old
    &&& forall|i: int| 0 <= i < added.len() ==> err_view(#[trigger] new[old.len() + i]) == added[i]
}

/// The diagnostic for an unreadable pin index.
pub open spec fn bad_pin_error(t: SyntaxToken) -> ErrView {
    ErrView {
        code: SyntaxErrorCode::Unexpected,
        span: t.span,
        message: "a pin index is a small whole number"@,
        expected: Seq::empty(),
        found: "`"@ + t.text@ + "`"@,
        hint: None,
    }
}

pub fn device(d: &DeviceDecl, errors: &mut Vec<SyntaxError>) -> (r: Option<DeviceItem>)
    ensures
        r matches Some(x) ==> device_lowers(d@, x),
        r is None ==> forall|x: DeviceItem| !device_lowers(d@, x),
        pushed(
            old(errors)@,
            final(errors)@,
            match bad_pin_index(d@) {
                Some(t) => seq![bad_pin_error(t)],
                None => Seq::empty(),
            },
        ),
{
    proof {
        assert(errors@.subrange(0, errors@.len() as int) =~= errors@);
    }
    let name = match d.name() {
        Some(n) => match ident(&n) {
            Some(i) => i,
            None => {
                return None;
            },
        },
        None => {
            return None;
        },
    };
    let kind = match d.kind() {
        Some(n) => match ident_ref(&n) {
            Some(i) => i,
            None => {
                return None;
            },
        },
        None => {
            return None;
        },
    };
    let output = match d.output() {
        Some(o) => match ident_ref(&o) {
            Some(i) => Some(i),
            None => {
                return None;
            },
        },
        None => None,
    };
    let realization = match d.realization() {
        Some(r) => match ident_ref(&r) {
            Some(i) => Some(i),
            None => {
                return None;
            },
        },
        None => None,
    };
    assert(device_header_ok(d@));
    let pins_in = d.pins();
    let ghost pv = views(pins_in@);
    assert(pv == pin_nodes(d@));
    let mut pins: Vec<(u16, Ident)> = Vec::new();
    let mut k: usize = 0;
    while k < pins_in.len()
        invariant
            k <= pins_in@.len(),
            pv == views(pins_in@),
            pv == pin_nodes(d@),
            device_header_ok(d@),
            pins@.len() == k,
            errors@ == old(errors)@,
            old(errors)@.subrange(0, old(errors)@.len() as int) == old(errors)@,
            forall|j: int| 0 <= j < k ==> pin_lowers(pv[j], #[trigger] pins@[j]),
            forall|j: int| 0 <= j < k ==> pin_ok(#[trigger] pv[j]),
            first_bad_pin(pv, 0) == first_bad_pin(pv, k as int),
        decreases pins_in@.len() - k,
    {
        let pin = pins_in[k];
        assert(pv[k as int] == pin@);
        let index_tok = match pin.index() {
            Some(t) => t,
            None => {
                assert(first_bad_pin(pv, k as int) == Some(k as int));
                assert forall|x: DeviceItem| !device_lowers(d@, x) by {
                    if device_lowers(d@, x) {
                        assert(pin_lowers(pv[k as int], x.pins@[k as int]));
                    }
                }
                return None;
            },
        };
        let index = match parse_u16_c(index_tok.text.as_str()) {
            Some(i) => i,
            None => {
                let mut found = String::from_str("`");
                found.append(index_tok.text.as_str());
                found.append("`");
                errors.push(
                    SyntaxError::new(
                        SyntaxErrorCode::Unexpected,
                        index_tok.span,
                        String::from_str("a pin index is a small whole number"),
                        found,
                    ),
                );
                assert(first_bad_pin(pv, k as int) == Some(k as int));
                assert(errors@.subrange(0, old(errors)@.len() as int) =~= old(errors)@);
                assert(err_view(errors@[old(errors)@.len() + 0int]) == bad_pin_error(*index_tok));
                assert forall|x: DeviceItem| !device_lowers(d@, x) by {
                    if device_lowers(d@, x) {
                        assert(pin_lowers(pv[k as int], x.pins@[k as int]));
                    }
                }
                return None;
            },
        };
        let pin_name = match pin.pin() {
            Some(r) => match ident_ref(&r) {
                Some(i) => i,
                None => {
                    assert(first_bad_pin(pv, k as int) == Some(k as int));
                    assert forall|x: DeviceItem| !device_lowers(d@, x) by {
                        if device_lowers(d@, x) {
                            assert(pin_lowers(pv[k as int], x.pins@[k as int]));
                        }
                    }
                    return None;
                },
            },
            None => {
                assert(first_bad_pin(pv, k as int) == Some(k as int));
                assert forall|x: DeviceItem| !device_lowers(d@, x) by {
                    if device_lowers(d@, x) {
                        assert(pin_lowers(pv[k as int], x.pins@[k as int]));
                    }
                }
                return None;
            },
        };
        pins.push((index, pin_name));
        k = k + 1;
    }
    assert(first_bad_pin(pv, k as int) is None);
    Some(DeviceItem { name, kind, output, pins, realization, span: d.0.span })
}

// ---- mappings, definitions, ports -------------------------------------------------

#[derive(Debug, PartialEq)]
pub struct MappingDefinition {
    /// The name repeated before the parameters (checked against the
    /// declaration's name).
    pub name: Ident,
    pub params: Vec<SurfacePattern>,
    pub body: SurfaceExpr,
    pub span: Span,
}

pub open spec fn def_param_nodes(n: SyntaxNode) -> Seq<SyntaxNode> {
    match first_kid(n, KindClass::Is(SyntaxKind::ParamList)) {
        Some(l) => kids(l, KindClass::Pattern),
        None => Seq::empty(),
    }
}

pub open spec fn def_lowers(n: SyntaxNode, d: MappingDefinition) -> bool {
    &&& d.span == n.span
    &&& first_kid(n, KindClass::Is(SyntaxKind::NameRef)) matches Some(r)
    &&& ident_of(r, d.name)
    &&& patterns_lower(def_param_nodes(n), d.params@)
    &&& first_kid(n, KindClass::Expr) matches Some(b)
    &&& expr_lowers(b, d.body)
}

/// The structural checks of a definition `d` (lowered from node `n`) of
/// a declaration named `name` with signature `sig`: a definition named
/// otherwise, and a parameter count other than the signature's arity.
/// Only made when the declaration parsed cleanly (`clean`).
pub open spec fn def_errors(
    n: SyntaxNode,
    d: MappingDefinition,
    name: Ident,
    sig: SurfaceType,
    clean: bool,
) -> Seq<ErrView> {
    let arity = super::uncurried(sig, Seq::empty()).0.len();
    let count = d.params@.len();
    let misnamed = if clean && d.name.name@ != name.name@ {
        seq![
            ErrView {
                code: SyntaxErrorCode::Unexpected,
                span: d.name.span,
                message: "this definition is named `"@ + d.name.name@
                    + "`, but the mapping declared above it is `"@ + name.name@ + "`"@,
                expected: Seq::empty(),
                found: "`"@ + d.name.name@ + "`"@,
                hint: Some(
                    "A definition repeats the name of its signature: `"@ + name.name@ + "("@
                        + crate::diagnostics::spec_join(super::describe_all(d.params@), ", "@)
                        + ") = …`."@,
                ),
            },
        ]
    } else {
        Seq::empty()
    };
    let miscounted = if clean && count != arity {
        seq![
            ErrView {
                code: SyntaxErrorCode::Unexpected,
                span: match first_kid(n, KindClass::Is(SyntaxKind::ParamList)) {
                    Some(l) => l.span,
                    None => n.span,
                },
                message: "`"@ + name.name@ + "` reads "@ + crate::text::decimal_text(arity) + " input"@
                    + (if arity == 1 {
                    ""@
                } else {
                    "s"@
                }) + " by its signature, but its definition names "@ + crate::text::decimal_text(count),
                expected: Seq::empty(),
                found: crate::text::decimal_text(count) + " parameter(s)"@,
                hint: Some("Each `->` in the signature except the last introduces one input."@),
            },
        ]
    } else {
        Seq::empty()
    };
    misnamed + miscounted
}

/// The definition part shared by mappings and ports: name check, arity
/// check, parameters and body.
pub fn definition(
    def: &MappingDef,
    name: &Ident,
    signature: &SurfaceType,
    clean: bool,
    errors: &mut Vec<SyntaxError>,
) -> (r: Option<MappingDefinition>)
    ensures
        r matches Some(d) ==> def_lowers(def@, d) && pushed(
            old(errors)@,
            final(errors)@,
            def_errors(def@, d, *name, *signature, clean),
        ),
        r is None ==> (forall|d: MappingDefinition| !def_lowers(def@, d)) && final(errors)@ == old(
            errors,
        )@,
{
    let def_name = match def.name() {
        Some(r) => match ident_ref(&r) {
            Some(i) => i,
            None => {
                return None;
            },
        },
        None => {
            return None;
        },
    };
    let params_in = def.params();
    let ghost pv = params_in@;
    let params = match lower_pattern_list(params_in) {
        Some(p) => p,
        None => {
            assert forall|d: MappingDefinition| !def_lowers(def@, d) by {
                if def_lowers(def@, d) {
                    assert(patterns_lower(views(pv), d.params@));
                }
            }
            return None;
        },
    };
    let body = match def.body() {
        Some(b) => b,
        None => {
            return None;
        },
    };
    let body = match lower_expr(&body) {
        Some(x) => x,
        None => {
            assert forall|d: MappingDefinition| !def_lowers(def@, d) by {
                if def_lowers(def@, d) {
                    assert(expr_lowers(body@, d.body));
                }
            }
            return None;
        },
    };
    let ghost e0 = errors@;
    proof {
        assert(e0.subrange(0, e0.len() as int) =~= e0);
    }
    if clean && !crate::text::str_eq(def_name.name.as_str(), name.name.as_str()) {
        let mut message = String::from_str("this definition is named `");
        message.append(def_name.name.as_str());
        message.append("`, but the mapping declared above it is `");
        message.append(name.name.as_str());
        message.append("`");
        let mut found = String::from_str("`");
        found.append(def_name.name.as_str());
        found.append("`");
        let mut hint = String::from_str("A definition repeats the name of its signature: `");
        hint.append(name.name.as_str());
        hint.append("(");
        let described = super::describe_joined(&params);
        hint.append(described.as_str());
        hint.append(") = …`.");
        errors.push(
            SyntaxError::new(SyntaxErrorCode::Unexpected, def_name.span, message, found).with_hint(hint),
        );
    }
    let ghost e1 = errors@;
    let (inputs, _) = signature.uncurry();
    let arity = inputs.len();
    assert(arity == super::uncurried(*signature, Seq::empty()).0.len());
    if clean && params.len() != arity {
        let span = match def.param_list() {
            Some(l) => l.0.span,
            None => def.0.span,
        };
        let count = crate::text::u64_text(params.len() as u64);
        let mut message = String::from_str("`");
        message.append(name.name.as_str());
        message.append("` reads ");
        let a = crate::text::u64_text(arity as u64);
        message.append(a.as_str());
        message.append(" input");
        if arity != 1 {
            message.append("s");
        } else {
            proof {
                reveal_strlit("");
            }
        }
        message.append(" by its signature, but its definition names ");
        message.append(count.as_str());
        let mut found = crate::text::u64_text(params.len() as u64);
        found.append(" parameter(s)");
        let hint = String::from_str("Each `->` in the signature except the last introduces one input.");
        errors.push(SyntaxError::new(SyntaxErrorCode::Unexpected, span, message, found).with_hint(hint));
    }
    let d = MappingDefinition { name: def_name, params, body, span: def.0.span };
    proof {
        let added = def_errors(def@, d, *name, *signature, clean);
        assert(errors@.subrange(0, e0.len() as int) =~= e0);
        assert forall|i: int| 0 <= i < added.len() implies err_view(#[trigger] errors@[e0.len() + i])
            == added[i] by {
        }
    }
    Some(d)
}

/// Lower the parameter patterns of a definition.
fn lower_pattern_list(ps: Vec<crate::ast::nodes::Pattern>) -> (r: Option<Vec<SurfacePattern>>)
    requires
        forall|i: int| 0 <= i < ps@.len() ==> (#[trigger] ps@[i]).shaped(),
    ensures
        r matches Some(v) ==> patterns_lower(views(ps@), v@),
        r is None ==> forall|v: Seq<SurfacePattern>| !patterns_lower(views(ps@), v),
{
    let ghost ns = views(ps@);
    let mut out: Vec<SurfacePattern> = Vec::new();
    let mut i: usize = 0;
    while i < ps.len()
        invariant
            i <= ps@.len(),
            ns == views(ps@),
            out@.len() == i,
            forall|j: int| 0 <= j < ps@.len() ==> (#[trigger] ps@[j]).shaped(),
            forall|j: int| 0 <= j < i ==> super::pattern_lowers(ns[j], #[trigger] out@[j]),
        decreases ps@.len() - i,
    {
        assert(ns[i as int] == ps@[i as int]@);
        match super::lower_pattern(&ps[i]) {
            Some(s) => {
                out.push(s);
            },
            None => {
                assert forall|v: Seq<SurfacePattern>| !patterns_lower(ns, v) by {
                    if patterns_lower(ns, v) {
                        assert(super::pattern_lowers(ns[i as int], v[i as int]));
                    }
                }
                return None;
            },
        }
        i = i + 1;
    }
    Some(out)
}

/// `d` is what the optional definition child of `n` lowers to: nothing
/// when there is no definition or it does not lower.
pub open spec fn def_part_lowers(n: SyntaxNode, d: Option<MappingDefinition>) -> bool {
    match first_kid(n, KindClass::Is(SyntaxKind::MappingDef)) {
        Some(dn) => match d {
            Some(x) => def_lowers(dn, x),
            None => forall|x: MappingDefinition| !def_lowers(dn, x),
        },
        None => d is None,
    }
}

/// The diagnostics the definition part of `n` adds.
pub open spec fn def_part_errors(
    n: SyntaxNode,
    d: Option<MappingDefinition>,
    name: Ident,
    sig: SurfaceType,
    clean: bool,
) -> Seq<ErrView> {
    match d {
        Some(x) => def_errors(first_kid(n, KindClass::Is(SyntaxKind::MappingDef))->0, x, name, sig, clean),
        None => Seq::empty(),
    }
}

fn definition_part(
    n: &SyntaxNode,
    def: Option<MappingDef>,
    name: &Ident,
    signature: &SurfaceType,
    clean: bool,
    errors: &mut Vec<SyntaxError>,
) -> (r: Option<MappingDefinition>)
    requires
        super::super::ast::support::opt_view(def) == first_kid(
            *n,
            KindClass::Is(SyntaxKind::MappingDef),
        ),
    ensures
        def_part_lowers(*n, r),
        pushed(old(errors)@, final(errors)@, def_part_errors(*n, r, *name, *signature, clean)),
{
    proof {
        assert(errors@.subrange(0, errors@.len() as int) =~= errors@);
    }
    match def {
        Some(dn) => definition(&dn, name, signature, clean, errors),
        None => None,
    }
}

#[derive(Debug, PartialEq)]
pub struct MappingItem {
    pub name: Ident,
    /// The type as written, e.g. `Held -> Tilt -> Brightness`.
    pub signature: SurfaceType,
    /// The `@domain` tag, if written.
    pub clock: Option<Ident>,
    pub definition: Option<MappingDefinition>,
    pub span: Span,
}

pub open spec fn mapping_lowers(n: SyntaxNode, m: MappingItem) -> bool {
    &&& m.span == n.span
    &&& first_kid(n, KindClass::Is(SyntaxKind::Name)) matches Some(nm)
    &&& ident_of(nm, m.name)
    &&& first_kid(n, KindClass::Type) matches Some(t)
    &&& type_lowers(t, m.signature)
    &&& clock_lowers(n, m.clock)
    &&& def_part_lowers(n, m.definition)
}

pub fn mapping(m: &MappingDecl, clean: bool, errors: &mut Vec<SyntaxError>) -> (r: Option<MappingItem>)
    ensures
        r matches Some(x) ==> mapping_lowers(m@, x) && pushed(
            old(errors)@,
            final(errors)@,
            def_part_errors(m@, x.definition, x.name, x.signature, clean),
        ),
        r is None ==> (forall|x: MappingItem| !mapping_lowers(m@, x)) && final(errors)@ == old(
            errors,
        )@,
{
    let name = match m.name() {
        Some(n) => match ident(&n) {
            Some(i) => i,
            None => {
                return None;
            },
        },
        None => {
            return None;
        },
    };
    let t = match m.signature() {
        Some(t) => t,
        None => {
            return None;
        },
    };
    let signature = match lower_type(&t) {
        Some(s) => s,
        None => {
            assert forall|x: MappingItem| !mapping_lowers(m@, x) by {
                if mapping_lowers(m@, x) {
                    assert(type_lowers(t@, x.signature));
                }
            }
            return None;
        },
    };
    let definition = definition_part(m.0, m.definition(), &name, &signature, clean, errors);
    Some(MappingItem { name, signature, clock: clock_of(m.0), definition, span: m.0.span })
}

#[derive(Clone, Copy, Debug, PartialEq, Eq, Structural)]
pub enum PortWord {
    Requires,
    Provides,
    Param,
}

/// `requires|provides|param Name : Type @clock? definition?`
#[derive(Debug, PartialEq)]
pub struct PortItem {
    pub word: PortWord,
    pub name: Ident,
    pub signature: SurfaceType,
    pub clock: Option<Ident>,
    pub definition: Option<MappingDefinition>,
    pub span: Span,
}

/// The port word of a `PortDecl` node, as the surface tree spells it.
pub open spec fn port_word_of(n: SyntaxNode) -> Option<PortWord> {
    match crate::ast::reading::first_in(toks(n), crate::ast::reading::TokSet::PortWord) {
        Some(t) => match spec_port_word(t.kind) {
            Some(crate::ast::reading::PortWord::Requires) => Some(PortWord::Requires),
            Some(crate::ast::reading::PortWord::Provides) => Some(PortWord::Provides),
            Some(crate::ast::reading::PortWord::Param) => Some(PortWord::Param),
            None => None,
        },
        None => None,
    }
}

pub open spec fn port_lowers(n: SyntaxNode, p: PortItem) -> bool {
    &&& p.span == n.span
    &&& port_word_of(n) == Some(p.word)
    &&& first_kid(n, KindClass::Is(SyntaxKind::Name)) matches Some(nm)
    &&& ident_of(nm, p.name)
    &&& first_kid(n, KindClass::Type) matches Some(t)
    &&& type_lowers(t, p.signature)
    &&& clock_lowers(n, p.clock)
    &&& def_part_lowers(n, p.definition)
}

pub fn port(p: &crate::ast::nodes::PortDecl, clean: bool, errors: &mut Vec<SyntaxError>) -> (r: Option<PortItem>)
    ensures
        r matches Some(x) ==> port_lowers(p@, x) && pushed(
            old(errors)@,
            final(errors)@,
            def_part_errors(p@, x.definition, x.name, x.signature, clean),
        ),
        r is None ==> (forall|x: PortItem| !port_lowers(p@, x)) && final(errors)@ == old(errors)@,
{
    let word = match p.word() {
        Some(crate::ast::reading::PortWord::Requires) => PortWord::Requires,
        Some(crate::ast::reading::PortWord::Provides) => PortWord::Provides,
        Some(crate::ast::reading::PortWord::Param) => PortWord::Param,
        None => {
            return None;
        },
    };
    let name = match p.name() {
        Some(n) => match ident(&n) {
            Some(i) => i,
            None => {
                return None;
            },
        },
        None => {
            return None;
        },
    };
    let t = match p.signature() {
        Some(t) => t,
        None => {
            return None;
        },
    };
    let signature = match lower_type(&t) {
        Some(s) => s,
        None => {
            assert forall|x: PortItem| !port_lowers(p@, x) by {
                if port_lowers(p@, x) {
                    assert(type_lowers(t@, x.signature));
                }
            }
            return None;
        },
    };
    let definition = definition_part(p.0, p.definition(), &name, &signature, clean, errors);
    Some(PortItem { word, name, signature, clock: clock_of(p.0), definition, span: p.0.span })
}

// ---- combining the pieces ------------------------------------------------------------

pub proof fn lemma_pushed_trans(
    a: Seq<SyntaxError>,
    b: Seq<SyntaxError>,
    c: Seq<SyntaxError>,
    x: Seq<ErrView>,
    y: Seq<ErrView>,
)
    requires
        pushed(a, b, x),
        pushed(b, c, y),
    ensures
        pushed(a, c, x + y),
{
    assert(c.subrange(0, a.len() as int) =~= b.subrange(0, a.len() as int));
    assert forall|i: int| 0 <= i < (x + y).len() implies err_view(#[trigger] c[a.len() + i]) == (x
        + y)[i] by {
        if i < x.len() {
            assert(c[a.len() + i] == b[a.len() + i]);
        } else {
            assert(c[b.len() + (i - x.len())] == c[a.len() + i]);
        }
    }
}

/// Whether a diagnostic overlaps `span` (an empty diagnostic counts as one
/// character wide).
pub open spec fn overlaps(e: SyntaxError, span: Span) -> bool {
    let end = if e.span.end >= e.span.start + 1 {
        e.span.end as int
    } else {
        e.span.start + 1
    };
    e.span.start < span.end && span.start < end
}

/// Structural checks are only meaningful on an item that parsed cleanly; a
/// syntax error inside it already explains any mismatch.
pub open spec fn spec_clean(errs: Seq<SyntaxError>, span: Span) -> bool {
    forall|i: int| 0 <= i < errs.len() ==> !overlaps(#[trigger] errs[i], span)
}

fn clean(errs: &Vec<SyntaxError>, span: Span) -> (r: bool)
    ensures
        r == spec_clean(errs@, span),
{
    let mut i: usize = 0;
    while i < errs.len()
        invariant
            i <= errs@.len(),
            forall|j: int| 0 <= j < i ==> !overlaps(#[trigger] errs@[j], span),
        decreases errs@.len() - i,
    {
        let e = &errs[i];
        let one_past: u64 = e.span.start as u64 + 1;
        let end: u64 = if e.span.end as u64 >= one_past {
            e.span.end as u64
        } else {
            one_past
        };
        if (e.span.start as u64) < span.end as u64 && (span.start as u64) < end {
            return false;
        }
        i = i + 1;
    }
    true
}

/// `use concept Name` / `use output Name`
#[derive(Debug, PartialEq)]
pub struct UseItem {
    pub concept: bool,
    pub name: Ident,
    pub span: Span,
}

pub open spec fn use_lowers(n: SyntaxNode, u: UseItem) -> bool {
    &&& u.span == n.span
    &&& u.concept == first_tok(n, SyntaxKind::KwConcept) is Some
    &&& first_kid(n, KindClass::Is(SyntaxKind::NameRef)) matches Some(r)
    &&& ident_of(r, u.name)
}

#[derive(Debug, PartialEq)]
pub enum ComponentBodyItem {
    Concept(ConceptItem),
    Mapping(MappingItem),
    Enum(EnumItem),
    Clock(ClockItem),
    Output(OutputItem),
    Drive(DriveItem),
    Device(DeviceItem),
    Use(UseItem),
    ParamClock(ClockItem),
    Port(PortItem),
}

impl ComponentBodyItem {
    pub fn span(&self) -> (r: Span)
        ensures
            r == body_item_span(*self),
    {
        match self {
            ComponentBodyItem::Concept(i) => i.span,
            ComponentBodyItem::Mapping(i) => i.span,
            ComponentBodyItem::Enum(i) => i.span,
            ComponentBodyItem::Clock(i) => i.span,
            ComponentBodyItem::Output(i) => i.span,
            ComponentBodyItem::Drive(i) => i.span,
            ComponentBodyItem::Device(i) => i.span,
            ComponentBodyItem::Use(i) => i.span,
            ComponentBodyItem::ParamClock(i) => i.span,
            ComponentBodyItem::Port(i) => i.span,
        }
    }
}

pub open spec fn body_item_span(x: ComponentBodyItem) -> Span {
    match x {
        ComponentBodyItem::Concept(i) => i.span,
        ComponentBodyItem::Mapping(i) => i.span,
        ComponentBodyItem::Enum(i) => i.span,
        ComponentBodyItem::Clock(i) => i.span,
        ComponentBodyItem::Output(i) => i.span,
        ComponentBodyItem::Drive(i) => i.span,
        ComponentBodyItem::Device(i) => i.span,
        ComponentBodyItem::Use(i) => i.span,
        ComponentBodyItem::ParamClock(i) => i.span,
        ComponentBodyItem::Port(i) => i.span,
    }
}

/// `x` is what the component body item node `n` lowers to.
pub open spec fn body_item_lowers(n: SyntaxNode, x: ComponentBodyItem) -> bool {
    match x {
        ComponentBodyItem::Concept(c) => n.kind == SyntaxKind::ConceptDecl && concept_lowers(n, c),
        ComponentBodyItem::Mapping(m) => n.kind == SyntaxKind::MappingDecl && mapping_lowers(n, m),
        ComponentBodyItem::Enum(e) => n.kind == SyntaxKind::EnumDecl && enum_lowers(n, e),
        ComponentBodyItem::Clock(c) => n.kind == SyntaxKind::ClockDecl && clock_item_lowers(n, c),
        ComponentBodyItem::Output(o) => n.kind == SyntaxKind::OutputDecl && output_lowers(n, o),
        ComponentBodyItem::Drive(d) => n.kind == SyntaxKind::DriveDecl && drive_lowers(n, d),
        ComponentBodyItem::Device(d) => n.kind == SyntaxKind::DeviceDecl && device_lowers(n, d),
        ComponentBodyItem::Use(u) => n.kind == SyntaxKind::UseDecl && use_lowers(n, u),
        ComponentBodyItem::ParamClock(c) => n.kind == SyntaxKind::ParamClockDecl
            && clock_item_lowers(n, c),
        ComponentBodyItem::Port(p) => n.kind == SyntaxKind::PortDecl && port_lowers(n, p),
    }
}

/// The diagnostics lowering a body item node adds, given what it lowered
/// to (if anything).
pub open spec fn body_item_errors(
    n: SyntaxNode,
    x: Option<ComponentBodyItem>,
    syn: Seq<SyntaxError>,
) -> Seq<ErrView> {
    match x {
        Some(ComponentBodyItem::Mapping(m)) => def_part_errors(
            n,
            m.definition,
            m.name,
            m.signature,
            spec_clean(syn, n.span),
        ),
        Some(ComponentBodyItem::Port(p)) => def_part_errors(
            n,
            p.definition,
            p.name,
            p.signature,
            spec_clean(syn, n.span),
        ),
        _ => device_errors(n),
    }
}

/// The diagnostic of a device whose pin index does not read.
pub open spec fn device_errors(n: SyntaxNode) -> Seq<ErrView> {
    if n.kind == SyntaxKind::DeviceDecl {
        match bad_pin_index(n) {
            Some(t) => seq![bad_pin_error(t)],
            None => Seq::empty(),
        }
    } else {
        Seq::empty()
    }
}

/// Lower one component body item, adding its diagnostics.
pub fn component_item(
    item: &crate::ast::nodes::ComponentItem,
    syn: &Vec<SyntaxError>,
    errors: &mut Vec<SyntaxError>,
) -> (r: Option<ComponentBodyItem>)
    requires
        item.shaped(),
    ensures
        r matches Some(x) ==> body_item_lowers(item@, x),
        r is None ==> forall|x: ComponentBodyItem| !body_item_lowers(item@, x),
        pushed(old(errors)@, final(errors)@, body_item_errors(item@, r, syn@)),
{
    proof {
        assert(errors@.subrange(0, errors@.len() as int) =~= errors@);
    }
    match item {
        crate::ast::nodes::ComponentItem::Concept(c) => match concept(c) {
            Some(x) => Some(ComponentBodyItem::Concept(x)),
            None => None,
        },
        crate::ast::nodes::ComponentItem::Mapping(m) => {
            let is_clean = clean(syn, m.0.span);
            match mapping(m, is_clean, errors) {
                Some(x) => Some(ComponentBodyItem::Mapping(x)),
                None => None,
            }
        },
        crate::ast::nodes::ComponentItem::Enum(e) => match enum_(e) {
            Some(x) => Some(ComponentBodyItem::Enum(x)),
            None => None,
        },
        crate::ast::nodes::ComponentItem::Clock(c) => match clock(c) {
            Some(x) => Some(ComponentBodyItem::Clock(x)),
            None => None,
        },
        crate::ast::nodes::ComponentItem::Output(o) => match output(o) {
            Some(x) => Some(ComponentBodyItem::Output(x)),
            None => None,
        },
        crate::ast::nodes::ComponentItem::Drive(d) => match drive(d) {
            Some(x) => Some(ComponentBodyItem::Drive(x)),
            None => None,
        },
        crate::ast::nodes::ComponentItem::Device(d) => match device(d, errors) {
            Some(x) => Some(ComponentBodyItem::Device(x)),
            None => None,
        },
        crate::ast::nodes::ComponentItem::Use(u) => {
            let name = match u.name() {
                Some(n) => match ident_ref(&n) {
                    Some(i) => i,
                    None => {
                        return None;
                    },
                },
                None => {
                    return None;
                },
            };
            Some(ComponentBodyItem::Use(UseItem { concept: u.is_concept(), name, span: u.0.span }))
        },
        crate::ast::nodes::ComponentItem::ParamClock(pc) => {
            let name = match pc.name() {
                Some(n) => match ident(&n) {
                    Some(i) => i,
                    None => {
                        return None;
                    },
                },
                None => {
                    return None;
                },
            };
            Some(ComponentBodyItem::ParamClock(ClockItem { name, span: pc.0.span }))
        },
        crate::ast::nodes::ComponentItem::Port(p) => {
            let is_clean = clean(syn, p.0.span);
            match port(p, is_clean, errors) {
                Some(x) => Some(ComponentBodyItem::Port(x)),
                None => None,
            }
        },
    }
}

/// `out` holds what the body item nodes `ns` lower to, in order, leaving
/// out those that do not lower.
pub open spec fn body_items_lowered(ns: Seq<SyntaxNode>, out: Seq<ComponentBodyItem>) -> bool
    decreases ns.len(),
{
    if ns.len() == 0 {
        out.len() == 0
    } else if exists|x: ComponentBodyItem| body_item_lowers(ns.last(), x) {
        &&& out.len() > 0
        &&& body_item_lowers(ns.last(), out.last())
        &&& body_items_lowered(ns.drop_last(), out.drop_last())
    } else {
        body_items_lowered(ns.drop_last(), out)
    }
}

/// The diagnostics lowering the body item nodes `ns` adds, given `out`.
pub open spec fn body_items_errors(
    ns: Seq<SyntaxNode>,
    out: Seq<ComponentBodyItem>,
    syn: Seq<SyntaxError>,
) -> Seq<ErrView>
    decreases ns.len(),
{
    if ns.len() == 0 {
        Seq::empty()
    } else if exists|x: ComponentBodyItem| body_item_lowers(ns.last(), x) {
        body_items_errors(ns.drop_last(), out.drop_last(), syn) + body_item_errors(
            ns.last(),
            Some(out.last()),
            syn,
        )
    } else {
        body_items_errors(ns.drop_last(), out, syn) + body_item_errors(ns.last(), None, syn)
    }
}

/// `component Name { items }`
#[derive(Debug, PartialEq)]
pub struct ComponentItem {
    pub name: Ident,
    pub items: Vec<ComponentBodyItem>,
    /// The span of the `{ … }` body, for splicing new items into it.
    pub body_span: Span,
    pub span: Span,
}

pub open spec fn component_item_nodes(n: SyntaxNode) -> Seq<SyntaxNode> {
    match first_kid(n, KindClass::Is(SyntaxKind::ComponentBody)) {
        Some(b) => kids(b, KindClass::ComponentItem),
        None => Seq::empty(),
    }
}

pub open spec fn component_lowers(n: SyntaxNode, c: ComponentItem) -> bool {
    &&& c.span == n.span
    &&& first_kid(n, KindClass::Is(SyntaxKind::Name)) matches Some(m)
    &&& ident_of(m, c.name)
    &&& first_kid(n, KindClass::Is(SyntaxKind::ComponentBody)) matches Some(b)
    &&& c.body_span == b.span
    &&& body_items_lowered(component_item_nodes(n), c.items@)
}

/// Whether a component node lowers: its name and its body are there (an
/// item that does not lower is left out; the rest stands).
pub open spec fn component_header_ok(n: SyntaxNode) -> bool {
    &&& first_kid(n, KindClass::Is(SyntaxKind::Name)) matches Some(m)
    &&& has_ident(m)
    &&& first_kid(n, KindClass::Is(SyntaxKind::ComponentBody)) is Some
}

/// The diagnostics a component adds: those of its items, when it lowers.
pub open spec fn component_errors(n: SyntaxNode, c: Option<ComponentItem>, syn: Seq<SyntaxError>) -> Seq<
    ErrView,
> {
    match c {
        Some(x) => body_items_errors(component_item_nodes(n), x.items@, syn),
        None => Seq::empty(),
    }
}

pub fn component(
    c: &crate::ast::nodes::ComponentDecl,
    syn: &Vec<SyntaxError>,
    errors: &mut Vec<SyntaxError>,
) -> (r: Option<ComponentItem>)
    ensures
        r matches Some(x) ==> component_lowers(c@, x),
        r is None ==> !component_header_ok(c@) && forall|x: ComponentItem| !component_lowers(c@, x),
        pushed(old(errors)@, final(errors)@, component_errors(c@, r, syn@)),
{
    proof {
        assert(errors@.subrange(0, errors@.len() as int) =~= errors@);
    }
    let name = match c.name() {
        Some(n) => match ident(&n) {
            Some(i) => i,
            None => {
                return None;
            },
        },
        None => {
            return None;
        },
    };
    let body = match c.body() {
        Some(b) => b,
        None => {
            return None;
        },
    };
    let items_in = c.items();
    let ghost nv = views(items_in@);
    assert(nv == component_item_nodes(c@));
    let ghost e0 = errors@;
    let mut items: Vec<ComponentBodyItem> = Vec::new();
    let mut k: usize = 0;
    assert(nv.subrange(0, 0) =~= Seq::<SyntaxNode>::empty());
    while k < items_in.len()
        invariant
            k <= items_in@.len(),
            nv == views(items_in@),
            forall|j: int| 0 <= j < items_in@.len() ==> (#[trigger] items_in@[j]).shaped(),
            body_items_lowered(nv.subrange(0, k as int), items@),
            pushed(e0, errors@, body_items_errors(nv.subrange(0, k as int), items@, syn@)),
        decreases items_in@.len() - k,
    {
        let it = items_in[k];
        assert(nv[k as int] == it@);
        let ghost before_items = items@;
        let ghost before_errors = errors@;
        let lowered = component_item(&it, syn, errors);
        proof {
            let pre = nv.subrange(0, k as int);
            let now = nv.subrange(0, k + 1);
            assert(now.drop_last() =~= pre);
            assert(now.last() == it@);
        }
        match lowered {
            Some(x) => {
                items.push(x);
                proof {
                    assert(items@.drop_last() =~= before_items);
                    lemma_pushed_trans(
                        e0,
                        before_errors,
                        errors@,
                        body_items_errors(nv.subrange(0, k as int), before_items, syn@),
                        body_item_errors(it@, Some(items@.last()), syn@),
                    );
                }
            },
            None => {
                proof {
                    lemma_pushed_trans(
                        e0,
                        before_errors,
                        errors@,
                        body_items_errors(nv.subrange(0, k as int), before_items, syn@),
                        body_item_errors(it@, None, syn@),
                    );
                }
            },
        }
        k = k + 1;
    }
    assert(nv.subrange(0, k as int) =~= nv);
    Some(ComponentItem { name, items, body_span: body.0.span, span: c.0.span })
}

// ---- modules ---------------------------------------------------------------------------

#[derive(Debug, PartialEq)]
pub enum SurfaceItem {
    Concept(ConceptItem),
    Mapping(MappingItem),
    Enum(EnumItem),
    Clock(ClockItem),
    Output(OutputItem),
    Drive(DriveItem),
    Device(DeviceItem),
    Component(ComponentItem),
    Instance(InstanceItem),
    Bind(BindItem),
    Export(ExportItem),
}

pub open spec fn item_span(x: SurfaceItem) -> Span {
    match x {
        SurfaceItem::Concept(i) => i.span,
        SurfaceItem::Mapping(i) => i.span,
        SurfaceItem::Enum(i) => i.span,
        SurfaceItem::Clock(i) => i.span,
        SurfaceItem::Output(i) => i.span,
        SurfaceItem::Drive(i) => i.span,
        SurfaceItem::Device(i) => i.span,
        SurfaceItem::Component(i) => i.span,
        SurfaceItem::Instance(i) => i.span,
        SurfaceItem::Bind(i) => i.span,
        SurfaceItem::Export(i) => i.span,
    }
}

impl SurfaceItem {
    pub fn span(&self) -> (r: Span)
        ensures
            r == item_span(*self),
    {
        match self {
            SurfaceItem::Concept(i) => i.span,
            SurfaceItem::Mapping(i) => i.span,
            SurfaceItem::Enum(i) => i.span,
            SurfaceItem::Clock(i) => i.span,
            SurfaceItem::Output(i) => i.span,
            SurfaceItem::Drive(i) => i.span,
            SurfaceItem::Device(i) => i.span,
            SurfaceItem::Component(i) => i.span,
            SurfaceItem::Instance(i) => i.span,
            SurfaceItem::Bind(i) => i.span,
            SurfaceItem::Export(i) => i.span,
        }
    }
}

/// `x` is what the top-level item node `n` lowers to.
pub open spec fn item_lowers(n: SyntaxNode, x: SurfaceItem) -> bool {
    match x {
        SurfaceItem::Concept(c) => n.kind == SyntaxKind::ConceptDecl && concept_lowers(n, c),
        SurfaceItem::Mapping(m) => n.kind == SyntaxKind::MappingDecl && mapping_lowers(n, m),
        SurfaceItem::Enum(e) => n.kind == SyntaxKind::EnumDecl && enum_lowers(n, e),
        SurfaceItem::Clock(c) => n.kind == SyntaxKind::ClockDecl && clock_item_lowers(n, c),
        SurfaceItem::Output(o) => n.kind == SyntaxKind::OutputDecl && output_lowers(n, o),
        SurfaceItem::Drive(d) => n.kind == SyntaxKind::DriveDecl && drive_lowers(n, d),
        SurfaceItem::Device(d) => n.kind == SyntaxKind::DeviceDecl && device_lowers(n, d),
        SurfaceItem::Component(c) => n.kind == SyntaxKind::ComponentDecl && component_lowers(n, c),
        SurfaceItem::Instance(i) => n.kind == SyntaxKind::InstanceDecl && instance_lowers(n, i),
        SurfaceItem::Bind(b) => n.kind == SyntaxKind::BindDecl && bind_lowers(n, b),
        SurfaceItem::Export(e) => n.kind == SyntaxKind::ExportDecl && export_lowers(n, e),
    }
}

/// The diagnostics lowering a top-level item node adds, given what it
/// lowered to (if anything).
pub open spec fn item_errors(n: SyntaxNode, x: Option<SurfaceItem>, syn: Seq<SyntaxError>) -> Seq<
    ErrView,
> {
    match x {
        Some(SurfaceItem::Mapping(m)) => def_part_errors(
            n,
            m.definition,
            m.name,
            m.signature,
            spec_clean(syn, n.span),
        ),
        Some(SurfaceItem::Component(c)) => component_errors(n, Some(c), syn),
        _ => device_errors(n),
    }
}

/// Lower one top-level item, adding its diagnostics.
pub fn item(
    it: &crate::ast::nodes::Item,
    syn: &Vec<SyntaxError>,
    errors: &mut Vec<SyntaxError>,
) -> (r: Option<SurfaceItem>)
    requires
        it.shaped(),
    ensures
        r matches Some(x) ==> item_lowers(it@, x),
        r is None ==> forall|x: SurfaceItem| !item_lowers(it@, x),
        pushed(old(errors)@, final(errors)@, item_errors(it@, r, syn@)),
{
    proof {
        assert(errors@.subrange(0, errors@.len() as int) =~= errors@);
    }
    match it {
        crate::ast::nodes::Item::Concept(c) => match concept(c) {
            Some(x) => Some(SurfaceItem::Concept(x)),
            None => None,
        },
        crate::ast::nodes::Item::Mapping(m) => {
            let is_clean = clean(syn, m.0.span);
            match mapping(m, is_clean, errors) {
                Some(x) => Some(SurfaceItem::Mapping(x)),
                None => None,
            }
        },
        crate::ast::nodes::Item::Enum(e) => match enum_(e) {
            Some(x) => Some(SurfaceItem::Enum(x)),
            None => None,
        },
        crate::ast::nodes::Item::Clock(c) => match clock(c) {
            Some(x) => Some(SurfaceItem::Clock(x)),
            None => None,
        },
        crate::ast::nodes::Item::Output(o) => match output(o) {
            Some(x) => Some(SurfaceItem::Output(x)),
            None => None,
        },
        crate::ast::nodes::Item::Drive(d) => match drive(d) {
            Some(x) => Some(SurfaceItem::Drive(x)),
            None => None,
        },
        crate::ast::nodes::Item::Device(d) => match device(d, errors) {
            Some(x) => Some(SurfaceItem::Device(x)),
            None => None,
        },
        crate::ast::nodes::Item::Component(c) => match component(c, syn, errors) {
            Some(x) => Some(SurfaceItem::Component(x)),
            None => None,
        },
        crate::ast::nodes::Item::Instance(i) => match instance(i) {
            Some(x) => Some(SurfaceItem::Instance(x)),
            None => None,
        },
        crate::ast::nodes::Item::Bind(b) => match bind(b) {
            Some(x) => Some(SurfaceItem::Bind(x)),
            None => None,
        },
        crate::ast::nodes::Item::Export(e) => match export(e) {
            Some(x) => Some(SurfaceItem::Export(x)),
            None => None,
        },
    }
}

/// `out` holds what the item nodes `ns` lower to, in order, leaving out
/// those that do not lower.
pub open spec fn items_lowered(ns: Seq<SyntaxNode>, out: Seq<SurfaceItem>) -> bool
    decreases ns.len(),
{
    if ns.len() == 0 {
        out.len() == 0
    } else if exists|x: SurfaceItem| item_lowers(ns.last(), x) {
        &&& out.len() > 0
        &&& item_lowers(ns.last(), out.last())
        &&& items_lowered(ns.drop_last(), out.drop_last())
    } else {
        items_lowered(ns.drop_last(), out)
    }
}

/// The diagnostics lowering the item nodes `ns` adds, given `out`.
pub open spec fn items_errors(ns: Seq<SyntaxNode>, out: Seq<SurfaceItem>, syn: Seq<SyntaxError>) -> Seq<
    ErrView,
>
    decreases ns.len(),
{
    if ns.len() == 0 {
        Seq::empty()
    } else if exists|x: SurfaceItem| item_lowers(ns.last(), x) {
        items_errors(ns.drop_last(), out.drop_last(), syn) + item_errors(ns.last(), Some(out.last()), syn)
    } else {
        items_errors(ns.drop_last(), out, syn) + item_errors(ns.last(), None, syn)
    }
}

/// A module as written.
#[derive(Debug, PartialEq)]
pub struct SurfaceModule {
    pub items: Vec<SurfaceItem>,
}

/// The concepts among `items`, in order.
pub open spec fn concepts_of(items: Seq<SurfaceItem>) -> Seq<ConceptItem>
    decreases items.len(),
{
    if items.len() == 0 {
        Seq::empty()
    } else {
        match items.last() {
            SurfaceItem::Concept(c) => concepts_of(items.drop_last()).push(c),
            _ => concepts_of(items.drop_last()),
        }
    }
}

pub open spec fn mappings_of(items: Seq<SurfaceItem>) -> Seq<MappingItem>
    decreases items.len(),
{
    if items.len() == 0 {
        Seq::empty()
    } else {
        match items.last() {
            SurfaceItem::Mapping(m) => mappings_of(items.drop_last()).push(m),
            _ => mappings_of(items.drop_last()),
        }
    }
}

pub open spec fn enums_of(items: Seq<SurfaceItem>) -> Seq<EnumItem>
    decreases items.len(),
{
    if items.len() == 0 {
        Seq::empty()
    } else {
        match items.last() {
            SurfaceItem::Enum(e) => enums_of(items.drop_last()).push(e),
            _ => enums_of(items.drop_last()),
        }
    }
}

impl SurfaceModule {
    pub fn concepts(&self) -> (r: Vec<&ConceptItem>)
        ensures
            r@.map_values(|x: &ConceptItem| *x) == concepts_of(self.items@),
    {
        let mut out: Vec<&ConceptItem> = Vec::new();
        let mut i: usize = 0;
        while i < self.items.len()
            invariant
                i <= self.items@.len(),
                out@.map_values(|x: &ConceptItem| *x) == concepts_of(self.items@.subrange(0, i as int)),
            decreases self.items@.len() - i,
        {
            assert(self.items@.subrange(0, i + 1).drop_last() =~= self.items@.subrange(0, i as int));
            let ghost before = out@;
            if let SurfaceItem::Concept(c) = &self.items[i] {
                out.push(c);
                assert(out@.map_values(|x: &ConceptItem| *x) =~= before.map_values(|x: &ConceptItem| *x).push(*c));
            }
            i = i + 1;
        }
        assert(self.items@.subrange(0, i as int) =~= self.items@);
        out
    }

    pub fn mappings(&self) -> (r: Vec<&MappingItem>)
        ensures
            r@.map_values(|x: &MappingItem| *x) == mappings_of(self.items@),
    {
        let mut out: Vec<&MappingItem> = Vec::new();
        let mut i: usize = 0;
        while i < self.items.len()
            invariant
                i <= self.items@.len(),
                out@.map_values(|x: &MappingItem| *x) == mappings_of(self.items@.subrange(0, i as int)),
            decreases self.items@.len() - i,
        {
            assert(self.items@.subrange(0, i + 1).drop_last() =~= self.items@.subrange(0, i as int));
            let ghost before = out@;
            if let SurfaceItem::Mapping(m) = &self.items[i] {
                out.push(m);
                assert(out@.map_values(|x: &MappingItem| *x) =~= before.map_values(|x: &MappingItem| *x).push(*m));
            }
            i = i + 1;
        }
        assert(self.items@.subrange(0, i as int) =~= self.items@);
        out
    }

    pub fn enums(&self) -> (r: Vec<&EnumItem>)
        ensures
            r@.map_values(|x: &EnumItem| *x) == enums_of(self.items@),
    {
        let mut out: Vec<&EnumItem> = Vec::new();
        let mut i: usize = 0;
        while i < self.items.len()
            invariant
                i <= self.items@.len(),
                out@.map_values(|x: &EnumItem| *x) == enums_of(self.items@.subrange(0, i as int)),
            decreases self.items@.len() - i,
        {
            assert(self.items@.subrange(0, i + 1).drop_last() =~= self.items@.subrange(0, i as int));
            let ghost before = out@;
            if let SurfaceItem::Enum(e) = &self.items[i] {
                out.push(e);
                assert(out@.map_values(|x: &EnumItem| *x) =~= before.map_values(|x: &EnumItem| *x).push(*e));
            }
            i = i + 1;
        }
        assert(self.items@.subrange(0, i as int) =~= self.items@);
        out
    }
}

fn copy_errors(v: &Vec<SyntaxError>) -> (r: Vec<SyntaxError>)
    ensures
        err_views(r@) == err_views(v@),
{
    let mut out: Vec<SyntaxError> = Vec::new();
    let mut i: usize = 0;
    while i < v.len()
        invariant
            i <= v@.len(),
            err_views(out@) == err_views(v@.subrange(0, i as int)),
        decreases v@.len() - i,
    {
        let e = v[i].copy();
        assert(err_view(e) == err_view(v@[i as int]));
        let ghost before = out@;
        out.push(e);
        assert(err_views(out@) =~= err_views(before).push(err_view(v@[i as int])));
        assert(err_views(out@) =~= err_views(v@.subrange(0, i + 1)));
        i = i + 1;
    }
    assert(v@.subrange(0, i as int) =~= v@);
    out
}

/// Lower a parsed module.  Beyond syntax errors, lowering reports the
/// structural mismatches it can see without any semantic context: a
/// definition whose name differs from its declaration and a parameter count
/// that disagrees with the signature's arity.  Those are returned alongside
/// the (possibly partial) module, all diagnostics ordered by span.
pub fn lower_module(parse: &crate::syntax::Parse) -> (r: (SurfaceModule, Vec<SyntaxError>))
    requires
        parse.root.kind == SyntaxKind::Module,
    ensures
        items_lowered(kids(parse.root, KindClass::Item), r.0.items@),
        exists|all: Seq<SyntaxError>|
            #![trigger all.to_multiset()]
            err_views(all) == err_views(parse.errors@) + items_errors(kids(parse.root, KindClass::Item), r.0.items@, parse.errors@)
                && r.1@.to_multiset() == all.to_multiset(),
        crate::diagnostics::errors_sorted(r.1@),
{
    let mut errors = copy_errors(&parse.errors);
    let ghost e0 = errors@;
    let module = crate::ast::nodes::Module(&parse.root);
    let items_in = module.items();
    let ghost nv = views(items_in@);
    let mut items: Vec<SurfaceItem> = Vec::new();
    let mut k: usize = 0;
    assert(nv.subrange(0, 0) =~= Seq::<SyntaxNode>::empty());
    assert(e0.subrange(0, e0.len() as int) =~= e0);
    while k < items_in.len()
        invariant
            k <= items_in@.len(),
            nv == views(items_in@),
            nv == kids(parse.root, KindClass::Item),
            forall|j: int| 0 <= j < items_in@.len() ==> (#[trigger] items_in@[j]).shaped(),
            items_lowered(nv.subrange(0, k as int), items@),
            pushed(e0, errors@, items_errors(nv.subrange(0, k as int), items@, parse.errors@)),
        decreases items_in@.len() - k,
    {
        let it = items_in[k];
        assert(nv[k as int] == it@);
        let ghost before_items = items@;
        let ghost before_errors = errors@;
        let lowered = item(&it, &parse.errors, &mut errors);
        proof {
            let pre = nv.subrange(0, k as int);
            let now = nv.subrange(0, k + 1);
            assert(now.drop_last() =~= pre);
            assert(now.last() == it@);
        }
        match lowered {
            Some(x) => {
                items.push(x);
                proof {
                    assert(items@.drop_last() =~= before_items);
                    lemma_pushed_trans(
                        e0,
                        before_errors,
                        errors@,
                        items_errors(nv.subrange(0, k as int), before_items, parse.errors@),
                        item_errors(it@, Some(items@.last()), parse.errors@),
                    );
                }
            },
            None => {
                proof {
                    lemma_pushed_trans(
                        e0,
                        before_errors,
                        errors@,
                        items_errors(nv.subrange(0, k as int), before_items, parse.errors@),
                        item_errors(it@, None, parse.errors@),
                    );
                }
            },
        }
        k = k + 1;
    }
    assert(nv.subrange(0, k as int) =~= nv);
    let ghost all = errors@;
    proof {
        let added = items_errors(nv, items@, parse.errors@);
        let want = err_views(parse.errors@) + added;
        assert forall|i: int| 0 <= i < all.len() implies #[trigger] err_views(all)[i] == want[i] by {
            if i < e0.len() {
                assert(all[i] == e0[i]);
                assert(err_views(e0)[i] == err_view(e0[i]));
            } else {
                assert(err_view(all[e0.len() + (i - e0.len())]) == added[i - e0.len()]);
            }
        }
        assert(err_views(all) =~= want);
    }
    let sorted = crate::diagnostics::sort_errors(errors);
    (SurfaceModule { items }, sorted)
}

/// The diagnostic for a formula that has no usable expression.
pub fn incomplete(span: Span) -> (r: SyntaxError)
    ensures
        err_view(r) == (ErrView {
            code: SyntaxErrorCode::Expected,
            span,
            message: "this part of the source is incomplete"@,
            expected: Seq::empty(),
            found: "nothing"@,
            hint: None,
        }),
{
    SyntaxError::new(
        SyntaxErrorCode::Expected,
        span,
        String::from_str("this part of the source is incomplete"),
        String::from_str("nothing"),
    )
}

/// The diagnostic for a formula with no usable expression, spanning `sp`.
pub open spec fn incomplete_view(sp: Span) -> ErrView {
    ErrView {
        code: SyntaxErrorCode::Expected,
        span: sp,
        message: "this part of the source is incomplete"@,
        expected: Seq::empty(),
        found: "nothing"@,
        hint: None,
    }
}

/// `r` is what lowering the parsed formula `parse` gives: its syntax errors
/// when there are any; else its expression lowered, or the one
/// "incomplete" diagnostic when there is no expression or it does not lower.
pub open spec fn formula_outcome(
    parse: crate::syntax::Parse,
    r: Result<super::SurfaceExpr, Vec<SyntaxError>>,
) -> bool {
    &&& parse.errors@.len() > 0 ==> (r matches Err(es) && err_views(es@) == err_views(
        parse.errors@,
    ))
    &&& parse.errors@.len() == 0 ==> match first_kid(parse.root, KindClass::Expr) {
        Some(en) => match r {
            Ok(s) => expr_lowers(en, s),
            Err(es) => (forall|s: super::SurfaceExpr| !expr_lowers(en, s)) && es@.len() == 1
                && err_view(es@[0]) == incomplete_view(parse.root.span),
        },
        None => r matches Err(es) && es@.len() == 1 && err_view(es@[0]) == incomplete_view(
            parse.root.span,
        ),
    }
}

/// Lower a parsed formula.  `Err` carries the syntax errors when there are
/// any; an error-free tree from the parser always lowers (a tree built by
/// hand whose expression does not lowers to one `incomplete` error).
pub fn lower_formula(parse: &crate::syntax::Parse) -> (r: Result<super::SurfaceExpr, Vec<SyntaxError>>)
    requires
        parse.root.kind == SyntaxKind::Formula,
    ensures
        formula_outcome(*parse, r),
{
    if !parse.is_ok() {
        return Err(copy_errors(&parse.errors));
    }
    let root = crate::ast::nodes::Formula(&parse.root);
    match root.expr() {
        Some(e) => match lower_expr(&e) {
            Some(s) => Ok(s),
            None => {
                let mut v: Vec<SyntaxError> = Vec::new();
                v.push(incomplete(parse.root.span));
                Err(v)
            },
        },
        None => {
            let mut v: Vec<SyntaxError> = Vec::new();
            v.push(incomplete(parse.root.span));
            Err(v)
        },
    }
}

} // verus!
