//! The typed views, one per node kind, plus the enums that group them
//! (`Item`, `ComponentItem`, `Type`, `Expr`, `Pattern`).
use super::support::{
    child_nodes, child_token, deref_nodes, first_kid, first_tok, kids, last_child_node, last_kid,
    nth_child_node, nth_kid, opt_view, views, KindClass,
};
use crate::kind::SyntaxKind;
use crate::syntax::SyntaxNode;
use vstd::prelude::*;

verus! {

/// A whole source file: `Item*`.
#[derive(Clone, Copy, Debug)]
pub struct Module<'a>(pub &'a SyntaxNode);

impl<'a> View for Module<'a> {
    type V = SyntaxNode;

    open spec fn view(&self) -> SyntaxNode {
        *self.0
    }
}

impl<'a> Module<'a> {
    pub fn cast(node: &'a SyntaxNode) -> (r: Option<Module<'a>>)
        ensures
            node.kind == SyntaxKind::Module ==> opt_view(r) == Some(*node),
            node.kind != SyntaxKind::Module ==> r is None,
    {
        if node.kind == SyntaxKind::Module {
            Some(Module(node))
        } else {
            None
        }
    }

    pub fn syntax(&self) -> (r: &'a SyntaxNode)
        ensures
            *r == self@,
    {
        self.0
    }

    pub fn items(&self) -> (r: Vec<Item<'a>>)
        ensures
            views(r@) == kids(self@, KindClass::Item),
            forall|i: int| 0 <= i < r@.len() ==> #[trigger] r@[i].shaped(),
    {
        Item::from_nodes(child_nodes(self.0, KindClass::Item))
    }

    pub fn concepts(&self) -> (r: Vec<ConceptDecl<'a>>)
        ensures
            views(r@) == kids(self@, KindClass::Is(SyntaxKind::ConceptDecl)),
    {
        ConceptDecl::from_nodes(child_nodes(self.0, KindClass::Is(SyntaxKind::ConceptDecl)))
    }

    pub fn mappings(&self) -> (r: Vec<MappingDecl<'a>>)
        ensures
            views(r@) == kids(self@, KindClass::Is(SyntaxKind::MappingDecl)),
    {
        MappingDecl::from_nodes(child_nodes(self.0, KindClass::Is(SyntaxKind::MappingDecl)))
    }

    pub fn enums(&self) -> (r: Vec<EnumDecl<'a>>)
        ensures
            views(r@) == kids(self@, KindClass::Is(SyntaxKind::EnumDecl)),
    {
        EnumDecl::from_nodes(child_nodes(self.0, KindClass::Is(SyntaxKind::EnumDecl)))
    }
}

/// The expression-only entry point (the canvas formula field).
#[derive(Clone, Copy, Debug)]
pub struct Formula<'a>(pub &'a SyntaxNode);

impl<'a> View for Formula<'a> {
    type V = SyntaxNode;

    open spec fn view(&self) -> SyntaxNode {
        *self.0
    }
}

impl<'a> Formula<'a> {
    pub fn cast(node: &'a SyntaxNode) -> (r: Option<Formula<'a>>)
        ensures
            node.kind == SyntaxKind::Formula ==> opt_view(r) == Some(*node),
            node.kind != SyntaxKind::Formula ==> r is None,
    {
        if node.kind == SyntaxKind::Formula {
            Some(Formula(node))
        } else {
            None
        }
    }

    pub fn syntax(&self) -> (r: &'a SyntaxNode)
        ensures
            *r == self@,
    {
        self.0
    }

    pub fn expr(&self) -> (r: Option<Expr<'a>>)
        ensures
            opt_view(r) == nth_kid(self@, KindClass::Expr, 0),
            r matches Some(x) ==> x.shaped(),
    {
        match nth_child_node(self.0, KindClass::Expr, 0) {
            Some(n) => Some(Expr::from_node(n)),
            None => None,
        }
    }
}

/// A definition-site identifier.
#[derive(Clone, Copy, Debug)]
pub struct Name<'a>(pub &'a SyntaxNode);

impl<'a> View for Name<'a> {
    type V = SyntaxNode;

    open spec fn view(&self) -> SyntaxNode {
        *self.0
    }
}

impl<'a> Name<'a> {
    pub fn cast(node: &'a SyntaxNode) -> (r: Option<Name<'a>>)
        ensures
            node.kind == SyntaxKind::Name ==> opt_view(r) == Some(*node),
            node.kind != SyntaxKind::Name ==> r is None,
    {
        if node.kind == SyntaxKind::Name {
            Some(Name(node))
        } else {
            None
        }
    }

    pub fn syntax(&self) -> (r: &'a SyntaxNode)
        ensures
            *r == self@,
    {
        self.0
    }
}

/// A reference-site identifier.
#[derive(Clone, Copy, Debug)]
pub struct NameRef<'a>(pub &'a SyntaxNode);

impl<'a> View for NameRef<'a> {
    type V = SyntaxNode;

    open spec fn view(&self) -> SyntaxNode {
        *self.0
    }
}

impl<'a> NameRef<'a> {
    pub fn cast(node: &'a SyntaxNode) -> (r: Option<NameRef<'a>>)
        ensures
            node.kind == SyntaxKind::NameRef ==> opt_view(r) == Some(*node),
            node.kind != SyntaxKind::NameRef ==> r is None,
    {
        if node.kind == SyntaxKind::NameRef {
            Some(NameRef(node))
        } else {
            None
        }
    }

    pub fn syntax(&self) -> (r: &'a SyntaxNode)
        ensures
            *r == self@,
    {
        self.0
    }
}

/// `concept Name (: Type)?`
#[derive(Clone, Copy, Debug)]
pub struct ConceptDecl<'a>(pub &'a SyntaxNode);

impl<'a> View for ConceptDecl<'a> {
    type V = SyntaxNode;

    open spec fn view(&self) -> SyntaxNode {
        *self.0
    }
}

impl<'a> ConceptDecl<'a> {
    pub fn cast(node: &'a SyntaxNode) -> (r: Option<ConceptDecl<'a>>)
        ensures
            node.kind == SyntaxKind::ConceptDecl ==> opt_view(r) == Some(*node),
            node.kind != SyntaxKind::ConceptDecl ==> r is None,
    {
        if node.kind == SyntaxKind::ConceptDecl {
            Some(ConceptDecl(node))
        } else {
            None
        }
    }

    pub fn syntax(&self) -> (r: &'a SyntaxNode)
        ensures
            *r == self@,
    {
        self.0
    }

    pub fn name(&self) -> (r: Option<Name<'a>>)
        ensures
            opt_view(r) == nth_kid(self@, KindClass::Is(SyntaxKind::Name), 0),
    {
        match nth_child_node(self.0, KindClass::Is(SyntaxKind::Name), 0) {
            Some(n) => Some(Name(n)),
            None => None,
        }
    }

    /// `ordered concept …`: the designer declared the concept ordered.
    pub fn is_ordered(&self) -> (r: bool)
        ensures
            r == first_tok(self@, SyntaxKind::KwOrdered) is Some,
    {
        child_token(self.0, SyntaxKind::KwOrdered).is_some()
    }

    /// The representation type after `:`; `None` for an open concept.
    pub fn representation(&self) -> (r: Option<Type<'a>>)
        ensures
            opt_view(r) == nth_kid(self@, KindClass::Type, 0),
            r matches Some(x) ==> x.shaped(),
    {
        match nth_child_node(self.0, KindClass::Type, 0) {
            Some(n) => Some(Type::from_node(n)),
            None => None,
        }
    }
}

/// `mapping Name : Type MappingDef?`
#[derive(Clone, Copy, Debug)]
pub struct MappingDecl<'a>(pub &'a SyntaxNode);

impl<'a> View for MappingDecl<'a> {
    type V = SyntaxNode;

    open spec fn view(&self) -> SyntaxNode {
        *self.0
    }
}

impl<'a> MappingDecl<'a> {
    pub fn cast(node: &'a SyntaxNode) -> (r: Option<MappingDecl<'a>>)
        ensures
            node.kind == SyntaxKind::MappingDecl ==> opt_view(r) == Some(*node),
            node.kind != SyntaxKind::MappingDecl ==> r is None,
    {
        if node.kind == SyntaxKind::MappingDecl {
            Some(MappingDecl(node))
        } else {
            None
        }
    }

    pub fn syntax(&self) -> (r: &'a SyntaxNode)
        ensures
            *r == self@,
    {
        self.0
    }

    pub fn name(&self) -> (r: Option<Name<'a>>)
        ensures
            opt_view(r) == nth_kid(self@, KindClass::Is(SyntaxKind::Name), 0),
    {
        match nth_child_node(self.0, KindClass::Is(SyntaxKind::Name), 0) {
            Some(n) => Some(Name(n)),
            None => None,
        }
    }

    /// The type after `:`.
    pub fn signature(&self) -> (r: Option<Type<'a>>)
        ensures
            opt_view(r) == nth_kid(self@, KindClass::Type, 0),
            r matches Some(x) ==> x.shaped(),
    {
        match nth_child_node(self.0, KindClass::Type, 0) {
            Some(n) => Some(Type::from_node(n)),
            None => None,
        }
    }

    /// The `@domain` tag, if written.
    pub fn clock_tag(&self) -> (r: Option<ClockTag<'a>>)
        ensures
            opt_view(r) == nth_kid(self@, KindClass::Is(SyntaxKind::ClockTag), 0),
    {
        match nth_child_node(self.0, KindClass::Is(SyntaxKind::ClockTag), 0) {
            Some(n) => Some(ClockTag(n)),
            None => None,
        }
    }

    pub fn definition(&self) -> (r: Option<MappingDef<'a>>)
        ensures
            opt_view(r) == nth_kid(self@, KindClass::Is(SyntaxKind::MappingDef), 0),
    {
        match nth_child_node(self.0, KindClass::Is(SyntaxKind::MappingDef), 0) {
            Some(n) => Some(MappingDef(n)),
            None => None,
        }
    }
}

/// `name(params) = expr`
#[derive(Clone, Copy, Debug)]
pub struct MappingDef<'a>(pub &'a SyntaxNode);

impl<'a> View for MappingDef<'a> {
    type V = SyntaxNode;

    open spec fn view(&self) -> SyntaxNode {
        *self.0
    }
}

impl<'a> MappingDef<'a> {
    pub fn cast(node: &'a SyntaxNode) -> (r: Option<MappingDef<'a>>)
        ensures
            node.kind == SyntaxKind::MappingDef ==> opt_view(r) == Some(*node),
            node.kind != SyntaxKind::MappingDef ==> r is None,
    {
        if node.kind == SyntaxKind::MappingDef {
            Some(MappingDef(node))
        } else {
            None
        }
    }

    pub fn syntax(&self) -> (r: &'a SyntaxNode)
        ensures
            *r == self@,
    {
        self.0
    }

    /// The name repeated before the parameters.
    pub fn name(&self) -> (r: Option<NameRef<'a>>)
        ensures
            opt_view(r) == nth_kid(self@, KindClass::Is(SyntaxKind::NameRef), 0),
    {
        match nth_child_node(self.0, KindClass::Is(SyntaxKind::NameRef), 0) {
            Some(n) => Some(NameRef(n)),
            None => None,
        }
    }

    pub fn param_list(&self) -> (r: Option<ParamList<'a>>)
        ensures
            opt_view(r) == nth_kid(self@, KindClass::Is(SyntaxKind::ParamList), 0),
    {
        match nth_child_node(self.0, KindClass::Is(SyntaxKind::ParamList), 0) {
            Some(n) => Some(ParamList(n)),
            None => None,
        }
    }

    pub fn params(&self) -> (r: Vec<Pattern<'a>>)
        ensures
            views(r@) == match first_kid(self@, KindClass::Is(SyntaxKind::ParamList)) {
                Some(b) => kids(b, KindClass::Pattern),
                None => Seq::<SyntaxNode>::empty(),
            },
            forall|i: int| 0 <= i < r@.len() ==> #[trigger] r@[i].shaped(),
    {
        match nth_child_node(self.0, KindClass::Is(SyntaxKind::ParamList), 0) {
            Some(b) => Pattern::from_nodes(child_nodes(b, KindClass::Pattern)),
            None => {
                let v: Vec<Pattern<'a>> = Vec::new();
                assert(views(v@) =~= Seq::<SyntaxNode>::empty());
                v
            },
        }
    }

    pub fn body(&self) -> (r: Option<Expr<'a>>)
        ensures
            opt_view(r) == nth_kid(self@, KindClass::Expr, 0),
            r matches Some(x) ==> x.shaped(),
    {
        match nth_child_node(self.0, KindClass::Expr, 0) {
            Some(n) => Some(Expr::from_node(n)),
            None => None,
        }
    }
}

/// `enum Name<T…> { variants }`
#[derive(Clone, Copy, Debug)]
pub struct EnumDecl<'a>(pub &'a SyntaxNode);

impl<'a> View for EnumDecl<'a> {
    type V = SyntaxNode;

    open spec fn view(&self) -> SyntaxNode {
        *self.0
    }
}

impl<'a> EnumDecl<'a> {
    pub fn cast(node: &'a SyntaxNode) -> (r: Option<EnumDecl<'a>>)
        ensures
            node.kind == SyntaxKind::EnumDecl ==> opt_view(r) == Some(*node),
            node.kind != SyntaxKind::EnumDecl ==> r is None,
    {
        if node.kind == SyntaxKind::EnumDecl {
            Some(EnumDecl(node))
        } else {
            None
        }
    }

    pub fn syntax(&self) -> (r: &'a SyntaxNode)
        ensures
            *r == self@,
    {
        self.0
    }

    pub fn name(&self) -> (r: Option<Name<'a>>)
        ensures
            opt_view(r) == nth_kid(self@, KindClass::Is(SyntaxKind::Name), 0),
    {
        match nth_child_node(self.0, KindClass::Is(SyntaxKind::Name), 0) {
            Some(n) => Some(Name(n)),
            None => None,
        }
    }

    pub fn type_params(&self) -> (r: Vec<Name<'a>>)
        ensures
            views(r@) == match first_kid(self@, KindClass::Is(SyntaxKind::TypeParamList)) {
                Some(b) => kids(b, KindClass::Is(SyntaxKind::Name)),
                None => Seq::<SyntaxNode>::empty(),
            },
    {
        match nth_child_node(self.0, KindClass::Is(SyntaxKind::TypeParamList), 0) {
            Some(b) => Name::from_nodes(child_nodes(b, KindClass::Is(SyntaxKind::Name))),
            None => {
                let v: Vec<Name<'a>> = Vec::new();
                assert(views(v@) =~= Seq::<SyntaxNode>::empty());
                v
            },
        }
    }

    pub fn variants(&self) -> (r: Vec<EnumVariant<'a>>)
        ensures
            views(r@) == kids(self@, KindClass::Is(SyntaxKind::EnumVariant)),
    {
        EnumVariant::from_nodes(child_nodes(self.0, KindClass::Is(SyntaxKind::EnumVariant)))
    }
}

#[derive(Clone, Copy, Debug)]
pub struct EnumVariant<'a>(pub &'a SyntaxNode);

impl<'a> View for EnumVariant<'a> {
    type V = SyntaxNode;

    open spec fn view(&self) -> SyntaxNode {
        *self.0
    }
}

impl<'a> EnumVariant<'a> {
    pub fn cast(node: &'a SyntaxNode) -> (r: Option<EnumVariant<'a>>)
        ensures
            node.kind == SyntaxKind::EnumVariant ==> opt_view(r) == Some(*node),
            node.kind != SyntaxKind::EnumVariant ==> r is None,
    {
        if node.kind == SyntaxKind::EnumVariant {
            Some(EnumVariant(node))
        } else {
            None
        }
    }

    pub fn syntax(&self) -> (r: &'a SyntaxNode)
        ensures
            *r == self@,
    {
        self.0
    }

    pub fn name(&self) -> (r: Option<Name<'a>>)
        ensures
            opt_view(r) == nth_kid(self@, KindClass::Is(SyntaxKind::Name), 0),
    {
        match nth_child_node(self.0, KindClass::Is(SyntaxKind::Name), 0) {
            Some(n) => Some(Name(n)),
            None => None,
        }
    }

    /// Field types of `Variant(A, B)`; empty for a nullary variant.
    pub fn fields(&self) -> (r: Vec<Type<'a>>)
        ensures
            views(r@) == match first_kid(self@, KindClass::Is(SyntaxKind::TypeList)) {
                Some(b) => kids(b, KindClass::Type),
                None => Seq::<SyntaxNode>::empty(),
            },
            forall|i: int| 0 <= i < r@.len() ==> #[trigger] r@[i].shaped(),
    {
        match nth_child_node(self.0, KindClass::Is(SyntaxKind::TypeList), 0) {
            Some(b) => Type::from_nodes(child_nodes(b, KindClass::Type)),
            None => {
                let v: Vec<Type<'a>> = Vec::new();
                assert(views(v@) =~= Seq::<SyntaxNode>::empty());
                v
            },
        }
    }
}

#[derive(Clone, Copy, Debug)]
pub struct TypeParamList<'a>(pub &'a SyntaxNode);

impl<'a> View for TypeParamList<'a> {
    type V = SyntaxNode;

    open spec fn view(&self) -> SyntaxNode {
        *self.0
    }
}

impl<'a> TypeParamList<'a> {
    pub fn cast(node: &'a SyntaxNode) -> (r: Option<TypeParamList<'a>>)
        ensures
            node.kind == SyntaxKind::TypeParamList ==> opt_view(r) == Some(*node),
            node.kind != SyntaxKind::TypeParamList ==> r is None,
    {
        if node.kind == SyntaxKind::TypeParamList {
            Some(TypeParamList(node))
        } else {
            None
        }
    }

    pub fn syntax(&self) -> (r: &'a SyntaxNode)
        ensures
            *r == self@,
    {
        self.0
    }
}

#[derive(Clone, Copy, Debug)]
pub struct ParamList<'a>(pub &'a SyntaxNode);

impl<'a> View for ParamList<'a> {
    type V = SyntaxNode;

    open spec fn view(&self) -> SyntaxNode {
        *self.0
    }
}

impl<'a> ParamList<'a> {
    pub fn cast(node: &'a SyntaxNode) -> (r: Option<ParamList<'a>>)
        ensures
            node.kind == SyntaxKind::ParamList ==> opt_view(r) == Some(*node),
            node.kind != SyntaxKind::ParamList ==> r is None,
    {
        if node.kind == SyntaxKind::ParamList {
            Some(ParamList(node))
        } else {
            None
        }
    }

    pub fn syntax(&self) -> (r: &'a SyntaxNode)
        ensures
            *r == self@,
    {
        self.0
    }

    pub fn params(&self) -> (r: Vec<Pattern<'a>>)
        ensures
            views(r@) == kids(self@, KindClass::Pattern),
            forall|i: int| 0 <= i < r@.len() ==> #[trigger] r@[i].shaped(),
    {
        Pattern::from_nodes(child_nodes(self.0, KindClass::Pattern))
    }
}

/// `clock Name`
#[derive(Clone, Copy, Debug)]
pub struct ClockDecl<'a>(pub &'a SyntaxNode);

impl<'a> View for ClockDecl<'a> {
    type V = SyntaxNode;

    open spec fn view(&self) -> SyntaxNode {
        *self.0
    }
}

impl<'a> ClockDecl<'a> {
    pub fn cast(node: &'a SyntaxNode) -> (r: Option<ClockDecl<'a>>)
        ensures
            node.kind == SyntaxKind::ClockDecl ==> opt_view(r) == Some(*node),
            node.kind != SyntaxKind::ClockDecl ==> r is None,
    {
        if node.kind == SyntaxKind::ClockDecl {
            Some(ClockDecl(node))
        } else {
            None
        }
    }

    pub fn syntax(&self) -> (r: &'a SyntaxNode)
        ensures
            *r == self@,
    {
        self.0
    }

    pub fn name(&self) -> (r: Option<Name<'a>>)
        ensures
            opt_view(r) == nth_kid(self@, KindClass::Is(SyntaxKind::Name), 0),
    {
        match nth_child_node(self.0, KindClass::Is(SyntaxKind::Name), 0) {
            Some(n) => Some(Name(n)),
            None => None,
        }
    }
}

/// `@ NameRef`
#[derive(Clone, Copy, Debug)]
pub struct ClockTag<'a>(pub &'a SyntaxNode);

impl<'a> View for ClockTag<'a> {
    type V = SyntaxNode;

    open spec fn view(&self) -> SyntaxNode {
        *self.0
    }
}

impl<'a> ClockTag<'a> {
    pub fn cast(node: &'a SyntaxNode) -> (r: Option<ClockTag<'a>>)
        ensures
            node.kind == SyntaxKind::ClockTag ==> opt_view(r) == Some(*node),
            node.kind != SyntaxKind::ClockTag ==> r is None,
    {
        if node.kind == SyntaxKind::ClockTag {
            Some(ClockTag(node))
        } else {
            None
        }
    }

    pub fn syntax(&self) -> (r: &'a SyntaxNode)
        ensures
            *r == self@,
    {
        self.0
    }

    pub fn name(&self) -> (r: Option<NameRef<'a>>)
        ensures
            opt_view(r) == nth_kid(self@, KindClass::Is(SyntaxKind::NameRef), 0),
    {
        match nth_child_node(self.0, KindClass::Is(SyntaxKind::NameRef), 0) {
            Some(n) => Some(NameRef(n)),
            None => None,
        }
    }
}

/// `output Name : Type ClockTag? optional?`
#[derive(Clone, Copy, Debug)]
pub struct OutputDecl<'a>(pub &'a SyntaxNode);

impl<'a> View for OutputDecl<'a> {
    type V = SyntaxNode;

    open spec fn view(&self) -> SyntaxNode {
        *self.0
    }
}

impl<'a> OutputDecl<'a> {
    pub fn cast(node: &'a SyntaxNode) -> (r: Option<OutputDecl<'a>>)
        ensures
            node.kind == SyntaxKind::OutputDecl ==> opt_view(r) == Some(*node),
            node.kind != SyntaxKind::OutputDecl ==> r is None,
    {
        if node.kind == SyntaxKind::OutputDecl {
            Some(OutputDecl(node))
        } else {
            None
        }
    }

    pub fn syntax(&self) -> (r: &'a SyntaxNode)
        ensures
            *r == self@,
    {
        self.0
    }

    pub fn name(&self) -> (r: Option<Name<'a>>)
        ensures
            opt_view(r) == nth_kid(self@, KindClass::Is(SyntaxKind::Name), 0),
    {
        match nth_child_node(self.0, KindClass::Is(SyntaxKind::Name), 0) {
            Some(n) => Some(Name(n)),
            None => None,
        }
    }

    pub fn accepts(&self) -> (r: Option<Type<'a>>)
        ensures
            opt_view(r) == nth_kid(self@, KindClass::Type, 0),
            r matches Some(x) ==> x.shaped(),
    {
        match nth_child_node(self.0, KindClass::Type, 0) {
            Some(n) => Some(Type::from_node(n)),
            None => None,
        }
    }

    pub fn clock_tag(&self) -> (r: Option<ClockTag<'a>>)
        ensures
            opt_view(r) == nth_kid(self@, KindClass::Is(SyntaxKind::ClockTag), 0),
    {
        match nth_child_node(self.0, KindClass::Is(SyntaxKind::ClockTag), 0) {
            Some(n) => Some(ClockTag(n)),
            None => None,
        }
    }
}

/// `drive NameRef by NameRef` (or the older `=`)
#[derive(Clone, Copy, Debug)]
pub struct DriveDecl<'a>(pub &'a SyntaxNode);

impl<'a> View for DriveDecl<'a> {
    type V = SyntaxNode;

    open spec fn view(&self) -> SyntaxNode {
        *self.0
    }
}

impl<'a> DriveDecl<'a> {
    pub fn cast(node: &'a SyntaxNode) -> (r: Option<DriveDecl<'a>>)
        ensures
            node.kind == SyntaxKind::DriveDecl ==> opt_view(r) == Some(*node),
            node.kind != SyntaxKind::DriveDecl ==> r is None,
    {
        if node.kind == SyntaxKind::DriveDecl {
            Some(DriveDecl(node))
        } else {
            None
        }
    }

    pub fn syntax(&self) -> (r: &'a SyntaxNode)
        ensures
            *r == self@,
    {
        self.0
    }

    /// The output, then the relationship.
    pub fn output(&self) -> (r: Option<NameRef<'a>>)
        ensures
            opt_view(r) == nth_kid(self@, KindClass::Is(SyntaxKind::NameRef), 0),
    {
        match nth_child_node(self.0, KindClass::Is(SyntaxKind::NameRef), 0) {
            Some(n) => Some(NameRef(n)),
            None => None,
        }
    }

    pub fn driver(&self) -> (r: Option<NameRef<'a>>)
        ensures
            opt_view(r) == nth_kid(self@, KindClass::Is(SyntaxKind::NameRef), 1),
    {
        match nth_child_node(self.0, KindClass::Is(SyntaxKind::NameRef), 1) {
            Some(n) => Some(NameRef(n)),
            None => None,
        }
    }
}

/// `device Name : kind (for NameRef)? DeviceBody?`
#[derive(Clone, Copy, Debug)]
pub struct DeviceDecl<'a>(pub &'a SyntaxNode);

impl<'a> View for DeviceDecl<'a> {
    type V = SyntaxNode;

    open spec fn view(&self) -> SyntaxNode {
        *self.0
    }
}

impl<'a> DeviceDecl<'a> {
    pub fn cast(node: &'a SyntaxNode) -> (r: Option<DeviceDecl<'a>>)
        ensures
            node.kind == SyntaxKind::DeviceDecl ==> opt_view(r) == Some(*node),
            node.kind != SyntaxKind::DeviceDecl ==> r is None,
    {
        if node.kind == SyntaxKind::DeviceDecl {
            Some(DeviceDecl(node))
        } else {
            None
        }
    }

    pub fn syntax(&self) -> (r: &'a SyntaxNode)
        ensures
            *r == self@,
    {
        self.0
    }

    pub fn name(&self) -> (r: Option<Name<'a>>)
        ensures
            opt_view(r) == nth_kid(self@, KindClass::Is(SyntaxKind::Name), 0),
    {
        match nth_child_node(self.0, KindClass::Is(SyntaxKind::Name), 0) {
            Some(n) => Some(Name(n)),
            None => None,
        }
    }

    /// The kind after `:`, then the output after `for`.
    pub fn kind(&self) -> (r: Option<NameRef<'a>>)
        ensures
            opt_view(r) == nth_kid(self@, KindClass::Is(SyntaxKind::NameRef), 0),
    {
        match nth_child_node(self.0, KindClass::Is(SyntaxKind::NameRef), 0) {
            Some(n) => Some(NameRef(n)),
            None => None,
        }
    }

    pub fn output(&self) -> (r: Option<NameRef<'a>>)
        ensures
            opt_view(r) == nth_kid(self@, KindClass::Is(SyntaxKind::NameRef), 1),
    {
        match nth_child_node(self.0, KindClass::Is(SyntaxKind::NameRef), 1) {
            Some(n) => Some(NameRef(n)),
            None => None,
        }
    }

    pub fn pins(&self) -> (r: Vec<PinFix<'a>>)
        ensures
            views(r@) == match first_kid(self@, KindClass::Is(SyntaxKind::DeviceBody)) {
                Some(b) => kids(b, KindClass::Is(SyntaxKind::PinFix)),
                None => Seq::<SyntaxNode>::empty(),
            },
    {
        match nth_child_node(self.0, KindClass::Is(SyntaxKind::DeviceBody), 0) {
            Some(b) => PinFix::from_nodes(child_nodes(b, KindClass::Is(SyntaxKind::PinFix))),
            None => {
                let v: Vec<PinFix<'a>> = Vec::new();
                assert(views(v@) =~= Seq::<SyntaxNode>::empty());
                v
            },
        }
    }
}

#[derive(Clone, Copy, Debug)]
pub struct DeviceBody<'a>(pub &'a SyntaxNode);

impl<'a> View for DeviceBody<'a> {
    type V = SyntaxNode;

    open spec fn view(&self) -> SyntaxNode {
        *self.0
    }
}

impl<'a> DeviceBody<'a> {
    pub fn cast(node: &'a SyntaxNode) -> (r: Option<DeviceBody<'a>>)
        ensures
            node.kind == SyntaxKind::DeviceBody ==> opt_view(r) == Some(*node),
            node.kind != SyntaxKind::DeviceBody ==> r is None,
    {
        if node.kind == SyntaxKind::DeviceBody {
            Some(DeviceBody(node))
        } else {
            None
        }
    }

    pub fn syntax(&self) -> (r: &'a SyntaxNode)
        ensures
            *r == self@,
    {
        self.0
    }
}

/// `pin Number = Ident`
#[derive(Clone, Copy, Debug)]
pub struct PinFix<'a>(pub &'a SyntaxNode);

impl<'a> View for PinFix<'a> {
    type V = SyntaxNode;

    open spec fn view(&self) -> SyntaxNode {
        *self.0
    }
}

impl<'a> PinFix<'a> {
    pub fn cast(node: &'a SyntaxNode) -> (r: Option<PinFix<'a>>)
        ensures
            node.kind == SyntaxKind::PinFix ==> opt_view(r) == Some(*node),
            node.kind != SyntaxKind::PinFix ==> r is None,
    {
        if node.kind == SyntaxKind::PinFix {
            Some(PinFix(node))
        } else {
            None
        }
    }

    pub fn syntax(&self) -> (r: &'a SyntaxNode)
        ensures
            *r == self@,
    {
        self.0
    }

    pub fn pin(&self) -> (r: Option<NameRef<'a>>)
        ensures
            opt_view(r) == nth_kid(self@, KindClass::Is(SyntaxKind::NameRef), 0),
    {
        match nth_child_node(self.0, KindClass::Is(SyntaxKind::NameRef), 0) {
            Some(n) => Some(NameRef(n)),
            None => None,
        }
    }
}

/// `component Name { ComponentItem* }`
#[derive(Clone, Copy, Debug)]
pub struct ComponentDecl<'a>(pub &'a SyntaxNode);

impl<'a> View for ComponentDecl<'a> {
    type V = SyntaxNode;

    open spec fn view(&self) -> SyntaxNode {
        *self.0
    }
}

impl<'a> ComponentDecl<'a> {
    pub fn cast(node: &'a SyntaxNode) -> (r: Option<ComponentDecl<'a>>)
        ensures
            node.kind == SyntaxKind::ComponentDecl ==> opt_view(r) == Some(*node),
            node.kind != SyntaxKind::ComponentDecl ==> r is None,
    {
        if node.kind == SyntaxKind::ComponentDecl {
            Some(ComponentDecl(node))
        } else {
            None
        }
    }

    pub fn syntax(&self) -> (r: &'a SyntaxNode)
        ensures
            *r == self@,
    {
        self.0
    }

    pub fn name(&self) -> (r: Option<Name<'a>>)
        ensures
            opt_view(r) == nth_kid(self@, KindClass::Is(SyntaxKind::Name), 0),
    {
        match nth_child_node(self.0, KindClass::Is(SyntaxKind::Name), 0) {
            Some(n) => Some(Name(n)),
            None => None,
        }
    }

    pub fn body(&self) -> (r: Option<ComponentBody<'a>>)
        ensures
            opt_view(r) == nth_kid(self@, KindClass::Is(SyntaxKind::ComponentBody), 0),
    {
        match nth_child_node(self.0, KindClass::Is(SyntaxKind::ComponentBody), 0) {
            Some(n) => Some(ComponentBody(n)),
            None => None,
        }
    }

    pub fn items(&self) -> (r: Vec<ComponentItem<'a>>)
        ensures
            views(r@) == match first_kid(self@, KindClass::Is(SyntaxKind::ComponentBody)) {
                Some(b) => kids(b, KindClass::ComponentItem),
                None => Seq::<SyntaxNode>::empty(),
            },
            forall|i: int| 0 <= i < r@.len() ==> #[trigger] r@[i].shaped(),
    {
        match nth_child_node(self.0, KindClass::Is(SyntaxKind::ComponentBody), 0) {
            Some(b) => ComponentItem::from_nodes(child_nodes(b, KindClass::ComponentItem)),
            None => {
                let v: Vec<ComponentItem<'a>> = Vec::new();
                assert(views(v@) =~= Seq::<SyntaxNode>::empty());
                v
            },
        }
    }
}

#[derive(Clone, Copy, Debug)]
pub struct ComponentBody<'a>(pub &'a SyntaxNode);

impl<'a> View for ComponentBody<'a> {
    type V = SyntaxNode;

    open spec fn view(&self) -> SyntaxNode {
        *self.0
    }
}

impl<'a> ComponentBody<'a> {
    pub fn cast(node: &'a SyntaxNode) -> (r: Option<ComponentBody<'a>>)
        ensures
            node.kind == SyntaxKind::ComponentBody ==> opt_view(r) == Some(*node),
            node.kind != SyntaxKind::ComponentBody ==> r is None,
    {
        if node.kind == SyntaxKind::ComponentBody {
            Some(ComponentBody(node))
        } else {
            None
        }
    }

    pub fn syntax(&self) -> (r: &'a SyntaxNode)
        ensures
            *r == self@,
    {
        self.0
    }
}

/// `use concept NameRef` / `use output NameRef`
#[derive(Clone, Copy, Debug)]
pub struct UseDecl<'a>(pub &'a SyntaxNode);

impl<'a> View for UseDecl<'a> {
    type V = SyntaxNode;

    open spec fn view(&self) -> SyntaxNode {
        *self.0
    }
}

impl<'a> UseDecl<'a> {
    pub fn cast(node: &'a SyntaxNode) -> (r: Option<UseDecl<'a>>)
        ensures
            node.kind == SyntaxKind::UseDecl ==> opt_view(r) == Some(*node),
            node.kind != SyntaxKind::UseDecl ==> r is None,
    {
        if node.kind == SyntaxKind::UseDecl {
            Some(UseDecl(node))
        } else {
            None
        }
    }

    pub fn syntax(&self) -> (r: &'a SyntaxNode)
        ensures
            *r == self@,
    {
        self.0
    }

    /// `true` for `use concept`, `false` for `use output`.
    pub fn is_concept(&self) -> (r: bool)
        ensures
            r == first_tok(self@, SyntaxKind::KwConcept) is Some,
    {
        child_token(self.0, SyntaxKind::KwConcept).is_some()
    }

    pub fn name(&self) -> (r: Option<NameRef<'a>>)
        ensures
            opt_view(r) == nth_kid(self@, KindClass::Is(SyntaxKind::NameRef), 0),
    {
        match nth_child_node(self.0, KindClass::Is(SyntaxKind::NameRef), 0) {
            Some(n) => Some(NameRef(n)),
            None => None,
        }
    }
}

/// `param clock Name`
#[derive(Clone, Copy, Debug)]
pub struct ParamClockDecl<'a>(pub &'a SyntaxNode);

impl<'a> View for ParamClockDecl<'a> {
    type V = SyntaxNode;

    open spec fn view(&self) -> SyntaxNode {
        *self.0
    }
}

impl<'a> ParamClockDecl<'a> {
    pub fn cast(node: &'a SyntaxNode) -> (r: Option<ParamClockDecl<'a>>)
        ensures
            node.kind == SyntaxKind::ParamClockDecl ==> opt_view(r) == Some(*node),
            node.kind != SyntaxKind::ParamClockDecl ==> r is None,
    {
        if node.kind == SyntaxKind::ParamClockDecl {
            Some(ParamClockDecl(node))
        } else {
            None
        }
    }

    pub fn syntax(&self) -> (r: &'a SyntaxNode)
        ensures
            *r == self@,
    {
        self.0
    }

    pub fn name(&self) -> (r: Option<Name<'a>>)
        ensures
            opt_view(r) == nth_kid(self@, KindClass::Is(SyntaxKind::Name), 0),
    {
        match nth_child_node(self.0, KindClass::Is(SyntaxKind::Name), 0) {
            Some(n) => Some(Name(n)),
            None => None,
        }
    }
}

/// `(requires | provides | param) Name : Type ClockTag? MappingDef?`
#[derive(Clone, Copy, Debug)]
pub struct PortDecl<'a>(pub &'a SyntaxNode);

impl<'a> View for PortDecl<'a> {
    type V = SyntaxNode;

    open spec fn view(&self) -> SyntaxNode {
        *self.0
    }
}

impl<'a> PortDecl<'a> {
    pub fn cast(node: &'a SyntaxNode) -> (r: Option<PortDecl<'a>>)
        ensures
            node.kind == SyntaxKind::PortDecl ==> opt_view(r) == Some(*node),
            node.kind != SyntaxKind::PortDecl ==> r is None,
    {
        if node.kind == SyntaxKind::PortDecl {
            Some(PortDecl(node))
        } else {
            None
        }
    }

    pub fn syntax(&self) -> (r: &'a SyntaxNode)
        ensures
            *r == self@,
    {
        self.0
    }

    pub fn name(&self) -> (r: Option<Name<'a>>)
        ensures
            opt_view(r) == nth_kid(self@, KindClass::Is(SyntaxKind::Name), 0),
    {
        match nth_child_node(self.0, KindClass::Is(SyntaxKind::Name), 0) {
            Some(n) => Some(Name(n)),
            None => None,
        }
    }

    pub fn signature(&self) -> (r: Option<Type<'a>>)
        ensures
            opt_view(r) == nth_kid(self@, KindClass::Type, 0),
            r matches Some(x) ==> x.shaped(),
    {
        match nth_child_node(self.0, KindClass::Type, 0) {
            Some(n) => Some(Type::from_node(n)),
            None => None,
        }
    }

    pub fn clock_tag(&self) -> (r: Option<ClockTag<'a>>)
        ensures
            opt_view(r) == nth_kid(self@, KindClass::Is(SyntaxKind::ClockTag), 0),
    {
        match nth_child_node(self.0, KindClass::Is(SyntaxKind::ClockTag), 0) {
            Some(n) => Some(ClockTag(n)),
            None => None,
        }
    }

    pub fn definition(&self) -> (r: Option<MappingDef<'a>>)
        ensures
            opt_view(r) == nth_kid(self@, KindClass::Is(SyntaxKind::MappingDef), 0),
    {
        match nth_child_node(self.0, KindClass::Is(SyntaxKind::MappingDef), 0) {
            Some(n) => Some(MappingDef(n)),
            None => None,
        }
    }
}

/// `instance Name : NameRef InstanceBody?`
#[derive(Clone, Copy, Debug)]
pub struct InstanceDecl<'a>(pub &'a SyntaxNode);

impl<'a> View for InstanceDecl<'a> {
    type V = SyntaxNode;

    open spec fn view(&self) -> SyntaxNode {
        *self.0
    }
}

impl<'a> InstanceDecl<'a> {
    pub fn cast(node: &'a SyntaxNode) -> (r: Option<InstanceDecl<'a>>)
        ensures
            node.kind == SyntaxKind::InstanceDecl ==> opt_view(r) == Some(*node),
            node.kind != SyntaxKind::InstanceDecl ==> r is None,
    {
        if node.kind == SyntaxKind::InstanceDecl {
            Some(InstanceDecl(node))
        } else {
            None
        }
    }

    pub fn syntax(&self) -> (r: &'a SyntaxNode)
        ensures
            *r == self@,
    {
        self.0
    }

    pub fn name(&self) -> (r: Option<Name<'a>>)
        ensures
            opt_view(r) == nth_kid(self@, KindClass::Is(SyntaxKind::Name), 0),
    {
        match nth_child_node(self.0, KindClass::Is(SyntaxKind::Name), 0) {
            Some(n) => Some(Name(n)),
            None => None,
        }
    }

    pub fn component(&self) -> (r: Option<NameRef<'a>>)
        ensures
            opt_view(r) == nth_kid(self@, KindClass::Is(SyntaxKind::NameRef), 0),
    {
        match nth_child_node(self.0, KindClass::Is(SyntaxKind::NameRef), 0) {
            Some(n) => Some(NameRef(n)),
            None => None,
        }
    }

    pub fn args(&self) -> (r: Vec<InstanceArg<'a>>)
        ensures
            views(r@) == match first_kid(self@, KindClass::Is(SyntaxKind::InstanceBody)) {
                Some(b) => kids(b, KindClass::Is(SyntaxKind::InstanceArg)),
                None => Seq::<SyntaxNode>::empty(),
            },
    {
        match nth_child_node(self.0, KindClass::Is(SyntaxKind::InstanceBody), 0) {
            Some(b) => InstanceArg::from_nodes(child_nodes(b, KindClass::Is(SyntaxKind::InstanceArg))),
            None => {
                let v: Vec<InstanceArg<'a>> = Vec::new();
                assert(views(v@) =~= Seq::<SyntaxNode>::empty());
                v
            },
        }
    }
}

#[derive(Clone, Copy, Debug)]
pub struct InstanceBody<'a>(pub &'a SyntaxNode);

impl<'a> View for InstanceBody<'a> {
    type V = SyntaxNode;

    open spec fn view(&self) -> SyntaxNode {
        *self.0
    }
}

impl<'a> InstanceBody<'a> {
    pub fn cast(node: &'a SyntaxNode) -> (r: Option<InstanceBody<'a>>)
        ensures
            node.kind == SyntaxKind::InstanceBody ==> opt_view(r) == Some(*node),
            node.kind != SyntaxKind::InstanceBody ==> r is None,
    {
        if node.kind == SyntaxKind::InstanceBody {
            Some(InstanceBody(node))
        } else {
            None
        }
    }

    pub fn syntax(&self) -> (r: &'a SyntaxNode)
        ensures
            *r == self@,
    {
        self.0
    }
}

/// `NameRef = Expr`
#[derive(Clone, Copy, Debug)]
pub struct InstanceArg<'a>(pub &'a SyntaxNode);

impl<'a> View for InstanceArg<'a> {
    type V = SyntaxNode;

    open spec fn view(&self) -> SyntaxNode {
        *self.0
    }
}

impl<'a> InstanceArg<'a> {
    pub fn cast(node: &'a SyntaxNode) -> (r: Option<InstanceArg<'a>>)
        ensures
            node.kind == SyntaxKind::InstanceArg ==> opt_view(r) == Some(*node),
            node.kind != SyntaxKind::InstanceArg ==> r is None,
    {
        if node.kind == SyntaxKind::InstanceArg {
            Some(InstanceArg(node))
        } else {
            None
        }
    }

    pub fn syntax(&self) -> (r: &'a SyntaxNode)
        ensures
            *r == self@,
    {
        self.0
    }

    pub fn name(&self) -> (r: Option<NameRef<'a>>)
        ensures
            opt_view(r) == nth_kid(self@, KindClass::Is(SyntaxKind::NameRef), 0),
    {
        match nth_child_node(self.0, KindClass::Is(SyntaxKind::NameRef), 0) {
            Some(n) => Some(NameRef(n)),
            None => None,
        }
    }

    pub fn value(&self) -> (r: Option<Expr<'a>>)
        ensures
            opt_view(r) == nth_kid(self@, KindClass::Expr, 0),
            r matches Some(x) ==> x.shaped(),
    {
        match nth_child_node(self.0, KindClass::Expr, 0) {
            Some(n) => Some(Expr::from_node(n)),
            None => None,
        }
    }
}

/// `bind BindEnd = BindEnd (init Expr)?`
#[derive(Clone, Copy, Debug)]
pub struct BindDecl<'a>(pub &'a SyntaxNode);

impl<'a> View for BindDecl<'a> {
    type V = SyntaxNode;

    open spec fn view(&self) -> SyntaxNode {
        *self.0
    }
}

impl<'a> BindDecl<'a> {
    pub fn cast(node: &'a SyntaxNode) -> (r: Option<BindDecl<'a>>)
        ensures
            node.kind == SyntaxKind::BindDecl ==> opt_view(r) == Some(*node),
            node.kind != SyntaxKind::BindDecl ==> r is None,
    {
        if node.kind == SyntaxKind::BindDecl {
            Some(BindDecl(node))
        } else {
            None
        }
    }

    pub fn syntax(&self) -> (r: &'a SyntaxNode)
        ensures
            *r == self@,
    {
        self.0
    }

    pub fn destination(&self) -> (r: Option<BindEnd<'a>>)
        ensures
            opt_view(r) == nth_kid(self@, KindClass::Is(SyntaxKind::BindEnd), 0),
    {
        match nth_child_node(self.0, KindClass::Is(SyntaxKind::BindEnd), 0) {
            Some(n) => Some(BindEnd(n)),
            None => None,
        }
    }

    pub fn source(&self) -> (r: Option<BindEnd<'a>>)
        ensures
            opt_view(r) == nth_kid(self@, KindClass::Is(SyntaxKind::BindEnd), 1),
    {
        match nth_child_node(self.0, KindClass::Is(SyntaxKind::BindEnd), 1) {
            Some(n) => Some(BindEnd(n)),
            None => None,
        }
    }

    /// The expression after `init`, if any.
    pub fn init(&self) -> (r: Option<Expr<'a>>)
        ensures
            opt_view(r) == nth_kid(self@, KindClass::Expr, 0),
            r matches Some(x) ==> x.shaped(),
    {
        match nth_child_node(self.0, KindClass::Expr, 0) {
            Some(n) => Some(Expr::from_node(n)),
            None => None,
        }
    }
}

/// `NameRef (. NameRef)?`
#[derive(Clone, Copy, Debug)]
pub struct BindEnd<'a>(pub &'a SyntaxNode);

impl<'a> View for BindEnd<'a> {
    type V = SyntaxNode;

    open spec fn view(&self) -> SyntaxNode {
        *self.0
    }
}

impl<'a> BindEnd<'a> {
    pub fn cast(node: &'a SyntaxNode) -> (r: Option<BindEnd<'a>>)
        ensures
            node.kind == SyntaxKind::BindEnd ==> opt_view(r) == Some(*node),
            node.kind != SyntaxKind::BindEnd ==> r is None,
    {
        if node.kind == SyntaxKind::BindEnd {
            Some(BindEnd(node))
        } else {
            None
        }
    }

    pub fn syntax(&self) -> (r: &'a SyntaxNode)
        ensures
            *r == self@,
    {
        self.0
    }

    /// `instance` of `instance.port`, or the relationship's name.
    pub fn first(&self) -> (r: Option<NameRef<'a>>)
        ensures
            opt_view(r) == nth_kid(self@, KindClass::Is(SyntaxKind::NameRef), 0),
    {
        match nth_child_node(self.0, KindClass::Is(SyntaxKind::NameRef), 0) {
            Some(n) => Some(NameRef(n)),
            None => None,
        }
    }

    /// `port` of `instance.port`.
    pub fn second(&self) -> (r: Option<NameRef<'a>>)
        ensures
            opt_view(r) == nth_kid(self@, KindClass::Is(SyntaxKind::NameRef), 1),
    {
        match nth_child_node(self.0, KindClass::Is(SyntaxKind::NameRef), 1) {
            Some(n) => Some(NameRef(n)),
            None => None,
        }
    }
}

/// `export BindEnd as Name`
#[derive(Clone, Copy, Debug)]
pub struct ExportDecl<'a>(pub &'a SyntaxNode);

impl<'a> View for ExportDecl<'a> {
    type V = SyntaxNode;

    open spec fn view(&self) -> SyntaxNode {
        *self.0
    }
}

impl<'a> ExportDecl<'a> {
    pub fn cast(node: &'a SyntaxNode) -> (r: Option<ExportDecl<'a>>)
        ensures
            node.kind == SyntaxKind::ExportDecl ==> opt_view(r) == Some(*node),
            node.kind != SyntaxKind::ExportDecl ==> r is None,
    {
        if node.kind == SyntaxKind::ExportDecl {
            Some(ExportDecl(node))
        } else {
            None
        }
    }

    pub fn syntax(&self) -> (r: &'a SyntaxNode)
        ensures
            *r == self@,
    {
        self.0
    }

    pub fn port(&self) -> (r: Option<BindEnd<'a>>)
        ensures
            opt_view(r) == nth_kid(self@, KindClass::Is(SyntaxKind::BindEnd), 0),
    {
        match nth_child_node(self.0, KindClass::Is(SyntaxKind::BindEnd), 0) {
            Some(n) => Some(BindEnd(n)),
            None => None,
        }
    }

    pub fn name(&self) -> (r: Option<Name<'a>>)
        ensures
            opt_view(r) == nth_kid(self@, KindClass::Is(SyntaxKind::Name), 0),
    {
        match nth_child_node(self.0, KindClass::Is(SyntaxKind::Name), 0) {
            Some(n) => Some(Name(n)),
            None => None,
        }
    }
}

/// `Name` or `Name<Args>`
#[derive(Clone, Copy, Debug)]
pub struct NamedType<'a>(pub &'a SyntaxNode);

impl<'a> View for NamedType<'a> {
    type V = SyntaxNode;

    open spec fn view(&self) -> SyntaxNode {
        *self.0
    }
}

impl<'a> NamedType<'a> {
    pub fn cast(node: &'a SyntaxNode) -> (r: Option<NamedType<'a>>)
        ensures
            node.kind == SyntaxKind::NamedType ==> opt_view(r) == Some(*node),
            node.kind != SyntaxKind::NamedType ==> r is None,
    {
        if node.kind == SyntaxKind::NamedType {
            Some(NamedType(node))
        } else {
            None
        }
    }

    pub fn syntax(&self) -> (r: &'a SyntaxNode)
        ensures
            *r == self@,
    {
        self.0
    }

    pub fn name(&self) -> (r: Option<NameRef<'a>>)
        ensures
            opt_view(r) == nth_kid(self@, KindClass::Is(SyntaxKind::NameRef), 0),
    {
        match nth_child_node(self.0, KindClass::Is(SyntaxKind::NameRef), 0) {
            Some(n) => Some(NameRef(n)),
            None => None,
        }
    }

    pub fn type_args(&self) -> (r: Vec<Type<'a>>)
        ensures
            views(r@) == match first_kid(self@, KindClass::Is(SyntaxKind::TypeArgList)) {
                Some(b) => kids(b, KindClass::Type),
                None => Seq::<SyntaxNode>::empty(),
            },
            forall|i: int| 0 <= i < r@.len() ==> #[trigger] r@[i].shaped(),
    {
        match nth_child_node(self.0, KindClass::Is(SyntaxKind::TypeArgList), 0) {
            Some(b) => Type::from_nodes(child_nodes(b, KindClass::Type)),
            None => {
                let v: Vec<Type<'a>> = Vec::new();
                assert(views(v@) =~= Seq::<SyntaxNode>::empty());
                v
            },
        }
    }

    pub fn has_type_args(&self) -> (r: bool)
        ensures
            r == first_kid(self@, KindClass::Is(SyntaxKind::TypeArgList)) is Some,
    {
        nth_child_node(self.0, KindClass::Is(SyntaxKind::TypeArgList), 0).is_some()
    }
}

/// `A -> B` (right-associative)
#[derive(Clone, Copy, Debug)]
pub struct FunctionType<'a>(pub &'a SyntaxNode);

impl<'a> View for FunctionType<'a> {
    type V = SyntaxNode;

    open spec fn view(&self) -> SyntaxNode {
        *self.0
    }
}

impl<'a> FunctionType<'a> {
    pub fn cast(node: &'a SyntaxNode) -> (r: Option<FunctionType<'a>>)
        ensures
            node.kind == SyntaxKind::FunctionType ==> opt_view(r) == Some(*node),
            node.kind != SyntaxKind::FunctionType ==> r is None,
    {
        if node.kind == SyntaxKind::FunctionType {
            Some(FunctionType(node))
        } else {
            None
        }
    }

    pub fn syntax(&self) -> (r: &'a SyntaxNode)
        ensures
            *r == self@,
    {
        self.0
    }

    pub fn domain(&self) -> (r: Option<Type<'a>>)
        ensures
            opt_view(r) == nth_kid(self@, KindClass::Type, 0),
            r matches Some(x) ==> x.shaped(),
    {
        match nth_child_node(self.0, KindClass::Type, 0) {
            Some(n) => Some(Type::from_node(n)),
            None => None,
        }
    }

    pub fn codomain(&self) -> (r: Option<Type<'a>>)
        ensures
            opt_view(r) == nth_kid(self@, KindClass::Type, 1),
            r matches Some(x) ==> x.shaped(),
    {
        match nth_child_node(self.0, KindClass::Type, 1) {
            Some(n) => Some(Type::from_node(n)),
            None => None,
        }
    }
}

#[derive(Clone, Copy, Debug)]
pub struct ParenType<'a>(pub &'a SyntaxNode);

impl<'a> View for ParenType<'a> {
    type V = SyntaxNode;

    open spec fn view(&self) -> SyntaxNode {
        *self.0
    }
}

impl<'a> ParenType<'a> {
    pub fn cast(node: &'a SyntaxNode) -> (r: Option<ParenType<'a>>)
        ensures
            node.kind == SyntaxKind::ParenType ==> opt_view(r) == Some(*node),
            node.kind != SyntaxKind::ParenType ==> r is None,
    {
        if node.kind == SyntaxKind::ParenType {
            Some(ParenType(node))
        } else {
            None
        }
    }

    pub fn syntax(&self) -> (r: &'a SyntaxNode)
        ensures
            *r == self@,
    {
        self.0
    }

    pub fn inner(&self) -> (r: Option<Type<'a>>)
        ensures
            opt_view(r) == nth_kid(self@, KindClass::Type, 0),
            r matches Some(x) ==> x.shaped(),
    {
        match nth_child_node(self.0, KindClass::Type, 0) {
            Some(n) => Some(Type::from_node(n)),
            None => None,
        }
    }
}

/// `()`: the empty product as a type.
#[derive(Clone, Copy, Debug)]
pub struct UnitType<'a>(pub &'a SyntaxNode);

impl<'a> View for UnitType<'a> {
    type V = SyntaxNode;

    open spec fn view(&self) -> SyntaxNode {
        *self.0
    }
}

impl<'a> UnitType<'a> {
    pub fn cast(node: &'a SyntaxNode) -> (r: Option<UnitType<'a>>)
        ensures
            node.kind == SyntaxKind::UnitType ==> opt_view(r) == Some(*node),
            node.kind != SyntaxKind::UnitType ==> r is None,
    {
        if node.kind == SyntaxKind::UnitType {
            Some(UnitType(node))
        } else {
            None
        }
    }

    pub fn syntax(&self) -> (r: &'a SyntaxNode)
        ensures
            *r == self@,
    {
        self.0
    }
}

/// `(A, B)`: a product, spelled as a relationship's domain.
#[derive(Clone, Copy, Debug)]
pub struct TupleType<'a>(pub &'a SyntaxNode);

impl<'a> View for TupleType<'a> {
    type V = SyntaxNode;

    open spec fn view(&self) -> SyntaxNode {
        *self.0
    }
}

impl<'a> TupleType<'a> {
    pub fn cast(node: &'a SyntaxNode) -> (r: Option<TupleType<'a>>)
        ensures
            node.kind == SyntaxKind::TupleType ==> opt_view(r) == Some(*node),
            node.kind != SyntaxKind::TupleType ==> r is None,
    {
        if node.kind == SyntaxKind::TupleType {
            Some(TupleType(node))
        } else {
            None
        }
    }

    pub fn syntax(&self) -> (r: &'a SyntaxNode)
        ensures
            *r == self@,
    {
        self.0
    }

    pub fn parts(&self) -> (r: Vec<Type<'a>>)
        ensures
            views(r@) == kids(self@, KindClass::Type),
            forall|i: int| 0 <= i < r@.len() ==> #[trigger] r@[i].shaped(),
    {
        Type::from_nodes(child_nodes(self.0, KindClass::Type))
    }
}

#[derive(Clone, Copy, Debug)]
pub struct TypeArgList<'a>(pub &'a SyntaxNode);

impl<'a> View for TypeArgList<'a> {
    type V = SyntaxNode;

    open spec fn view(&self) -> SyntaxNode {
        *self.0
    }
}

impl<'a> TypeArgList<'a> {
    pub fn cast(node: &'a SyntaxNode) -> (r: Option<TypeArgList<'a>>)
        ensures
            node.kind == SyntaxKind::TypeArgList ==> opt_view(r) == Some(*node),
            node.kind != SyntaxKind::TypeArgList ==> r is None,
    {
        if node.kind == SyntaxKind::TypeArgList {
            Some(TypeArgList(node))
        } else {
            None
        }
    }

    pub fn syntax(&self) -> (r: &'a SyntaxNode)
        ensures
            *r == self@,
    {
        self.0
    }
}

#[derive(Clone, Copy, Debug)]
pub struct TypeList<'a>(pub &'a SyntaxNode);

impl<'a> View for TypeList<'a> {
    type V = SyntaxNode;

    open spec fn view(&self) -> SyntaxNode {
        *self.0
    }
}

impl<'a> TypeList<'a> {
    pub fn cast(node: &'a SyntaxNode) -> (r: Option<TypeList<'a>>)
        ensures
            node.kind == SyntaxKind::TypeList ==> opt_view(r) == Some(*node),
            node.kind != SyntaxKind::TypeList ==> r is None,
    {
        if node.kind == SyntaxKind::TypeList {
            Some(TypeList(node))
        } else {
            None
        }
    }

    pub fn syntax(&self) -> (r: &'a SyntaxNode)
        ensures
            *r == self@,
    {
        self.0
    }

    pub fn types(&self) -> (r: Vec<Type<'a>>)
        ensures
            views(r@) == kids(self@, KindClass::Type),
            forall|i: int| 0 <= i < r@.len() ==> #[trigger] r@[i].shaped(),
    {
        Type::from_nodes(child_nodes(self.0, KindClass::Type))
    }
}

/// `?`: a slot, an expression not yet written.
#[derive(Clone, Copy, Debug)]
pub struct SlotExpr<'a>(pub &'a SyntaxNode);

impl<'a> View for SlotExpr<'a> {
    type V = SyntaxNode;

    open spec fn view(&self) -> SyntaxNode {
        *self.0
    }
}

impl<'a> SlotExpr<'a> {
    pub fn cast(node: &'a SyntaxNode) -> (r: Option<SlotExpr<'a>>)
        ensures
            node.kind == SyntaxKind::SlotExpr ==> opt_view(r) == Some(*node),
            node.kind != SyntaxKind::SlotExpr ==> r is None,
    {
        if node.kind == SyntaxKind::SlotExpr {
            Some(SlotExpr(node))
        } else {
            None
        }
    }

    pub fn syntax(&self) -> (r: &'a SyntaxNode)
        ensures
            *r == self@,
    {
        self.0
    }
}

/// `()`: the unique value of the empty product.
#[derive(Clone, Copy, Debug)]
pub struct UnitExpr<'a>(pub &'a SyntaxNode);

impl<'a> View for UnitExpr<'a> {
    type V = SyntaxNode;

    open spec fn view(&self) -> SyntaxNode {
        *self.0
    }
}

impl<'a> UnitExpr<'a> {
    pub fn cast(node: &'a SyntaxNode) -> (r: Option<UnitExpr<'a>>)
        ensures
            node.kind == SyntaxKind::UnitExpr ==> opt_view(r) == Some(*node),
            node.kind != SyntaxKind::UnitExpr ==> r is None,
    {
        if node.kind == SyntaxKind::UnitExpr {
            Some(UnitExpr(node))
        } else {
            None
        }
    }

    pub fn syntax(&self) -> (r: &'a SyntaxNode)
        ensures
            *r == self@,
    {
        self.0
    }
}

/// `all x in xs: body`: a binder over a collection.
#[derive(Clone, Copy, Debug)]
pub struct BinderExpr<'a>(pub &'a SyntaxNode);

impl<'a> View for BinderExpr<'a> {
    type V = SyntaxNode;

    open spec fn view(&self) -> SyntaxNode {
        *self.0
    }
}

impl<'a> BinderExpr<'a> {
    pub fn cast(node: &'a SyntaxNode) -> (r: Option<BinderExpr<'a>>)
        ensures
            node.kind == SyntaxKind::BinderExpr ==> opt_view(r) == Some(*node),
            node.kind != SyntaxKind::BinderExpr ==> r is None,
    {
        if node.kind == SyntaxKind::BinderExpr {
            Some(BinderExpr(node))
        } else {
            None
        }
    }

    pub fn syntax(&self) -> (r: &'a SyntaxNode)
        ensures
            *r == self@,
    {
        self.0
    }

    pub fn param(&self) -> (r: Option<Name<'a>>)
        ensures
            opt_view(r) == nth_kid(self@, KindClass::Is(SyntaxKind::Name), 0),
    {
        match nth_child_node(self.0, KindClass::Is(SyntaxKind::Name), 0) {
            Some(n) => Some(Name(n)),
            None => None,
        }
    }

    pub fn collection(&self) -> (r: Option<Expr<'a>>)
        ensures
            opt_view(r) == nth_kid(self@, KindClass::Expr, 0),
            r matches Some(x) ==> x.shaped(),
    {
        match nth_child_node(self.0, KindClass::Expr, 0) {
            Some(n) => Some(Expr::from_node(n)),
            None => None,
        }
    }

    pub fn body(&self) -> (r: Option<Expr<'a>>)
        ensures
            opt_view(r) == nth_kid(self@, KindClass::Expr, 1),
            r matches Some(x) ==> x.shaped(),
    {
        match nth_child_node(self.0, KindClass::Expr, 1) {
            Some(n) => Some(Expr::from_node(n)),
            None => None,
        }
    }
}

/// `lo .. hi`: a closed range.
#[derive(Clone, Copy, Debug)]
pub struct RangeExpr<'a>(pub &'a SyntaxNode);

impl<'a> View for RangeExpr<'a> {
    type V = SyntaxNode;

    open spec fn view(&self) -> SyntaxNode {
        *self.0
    }
}

impl<'a> RangeExpr<'a> {
    pub fn cast(node: &'a SyntaxNode) -> (r: Option<RangeExpr<'a>>)
        ensures
            node.kind == SyntaxKind::RangeExpr ==> opt_view(r) == Some(*node),
            node.kind != SyntaxKind::RangeExpr ==> r is None,
    {
        if node.kind == SyntaxKind::RangeExpr {
            Some(RangeExpr(node))
        } else {
            None
        }
    }

    pub fn syntax(&self) -> (r: &'a SyntaxNode)
        ensures
            *r == self@,
    {
        self.0
    }

    pub fn lo(&self) -> (r: Option<Expr<'a>>)
        ensures
            opt_view(r) == nth_kid(self@, KindClass::Expr, 0),
            r matches Some(x) ==> x.shaped(),
    {
        match nth_child_node(self.0, KindClass::Expr, 0) {
            Some(n) => Some(Expr::from_node(n)),
            None => None,
        }
    }

    pub fn hi(&self) -> (r: Option<Expr<'a>>)
        ensures
            opt_view(r) == nth_kid(self@, KindClass::Expr, 1),
            r matches Some(x) ==> x.shaped(),
    {
        match nth_child_node(self.0, KindClass::Expr, 1) {
            Some(n) => Some(Expr::from_node(n)),
            None => None,
        }
    }
}

/// `[a, b, c]`
#[derive(Clone, Copy, Debug)]
pub struct ListExpr<'a>(pub &'a SyntaxNode);

impl<'a> View for ListExpr<'a> {
    type V = SyntaxNode;

    open spec fn view(&self) -> SyntaxNode {
        *self.0
    }
}

impl<'a> ListExpr<'a> {
    pub fn cast(node: &'a SyntaxNode) -> (r: Option<ListExpr<'a>>)
        ensures
            node.kind == SyntaxKind::ListExpr ==> opt_view(r) == Some(*node),
            node.kind != SyntaxKind::ListExpr ==> r is None,
    {
        if node.kind == SyntaxKind::ListExpr {
            Some(ListExpr(node))
        } else {
            None
        }
    }

    pub fn syntax(&self) -> (r: &'a SyntaxNode)
        ensures
            *r == self@,
    {
        self.0
    }

    pub fn items(&self) -> (r: Vec<Expr<'a>>)
        ensures
            views(r@) == kids(self@, KindClass::Expr),
            forall|i: int| 0 <= i < r@.len() ==> #[trigger] r@[i].shaped(),
    {
        Expr::from_nodes(child_nodes(self.0, KindClass::Expr))
    }
}

/// `(a, b)`
#[derive(Clone, Copy, Debug)]
pub struct TupleExpr<'a>(pub &'a SyntaxNode);

impl<'a> View for TupleExpr<'a> {
    type V = SyntaxNode;

    open spec fn view(&self) -> SyntaxNode {
        *self.0
    }
}

impl<'a> TupleExpr<'a> {
    pub fn cast(node: &'a SyntaxNode) -> (r: Option<TupleExpr<'a>>)
        ensures
            node.kind == SyntaxKind::TupleExpr ==> opt_view(r) == Some(*node),
            node.kind != SyntaxKind::TupleExpr ==> r is None,
    {
        if node.kind == SyntaxKind::TupleExpr {
            Some(TupleExpr(node))
        } else {
            None
        }
    }

    pub fn syntax(&self) -> (r: &'a SyntaxNode)
        ensures
            *r == self@,
    {
        self.0
    }

    pub fn items(&self) -> (r: Vec<Expr<'a>>)
        ensures
            views(r@) == kids(self@, KindClass::Expr),
            forall|i: int| 0 <= i < r@.len() ==> #[trigger] r@[i].shaped(),
    {
        Expr::from_nodes(child_nodes(self.0, KindClass::Expr))
    }
}

/// `x => e` / `(x, y) => e`
#[derive(Clone, Copy, Debug)]
pub struct LambdaExpr<'a>(pub &'a SyntaxNode);

impl<'a> View for LambdaExpr<'a> {
    type V = SyntaxNode;

    open spec fn view(&self) -> SyntaxNode {
        *self.0
    }
}

impl<'a> LambdaExpr<'a> {
    pub fn cast(node: &'a SyntaxNode) -> (r: Option<LambdaExpr<'a>>)
        ensures
            node.kind == SyntaxKind::LambdaExpr ==> opt_view(r) == Some(*node),
            node.kind != SyntaxKind::LambdaExpr ==> r is None,
    {
        if node.kind == SyntaxKind::LambdaExpr {
            Some(LambdaExpr(node))
        } else {
            None
        }
    }

    pub fn syntax(&self) -> (r: &'a SyntaxNode)
        ensures
            *r == self@,
    {
        self.0
    }

    pub fn params(&self) -> (r: Vec<Name<'a>>)
        ensures
            views(r@) == match first_kid(self@, KindClass::Is(SyntaxKind::LambdaParams)) {
                Some(b) => kids(b, KindClass::Is(SyntaxKind::Name)),
                None => Seq::<SyntaxNode>::empty(),
            },
    {
        match nth_child_node(self.0, KindClass::Is(SyntaxKind::LambdaParams), 0) {
            Some(b) => Name::from_nodes(child_nodes(b, KindClass::Is(SyntaxKind::Name))),
            None => {
                let v: Vec<Name<'a>> = Vec::new();
                assert(views(v@) =~= Seq::<SyntaxNode>::empty());
                v
            },
        }
    }

    pub fn body(&self) -> (r: Option<Expr<'a>>)
        ensures
            opt_view(r) == nth_kid(self@, KindClass::Expr, 0),
            r matches Some(x) ==> x.shaped(),
    {
        match nth_child_node(self.0, KindClass::Expr, 0) {
            Some(n) => Some(Expr::from_node(n)),
            None => None,
        }
    }
}

#[derive(Clone, Copy, Debug)]
pub struct LambdaParams<'a>(pub &'a SyntaxNode);

impl<'a> View for LambdaParams<'a> {
    type V = SyntaxNode;

    open spec fn view(&self) -> SyntaxNode {
        *self.0
    }
}

impl<'a> LambdaParams<'a> {
    pub fn cast(node: &'a SyntaxNode) -> (r: Option<LambdaParams<'a>>)
        ensures
            node.kind == SyntaxKind::LambdaParams ==> opt_view(r) == Some(*node),
            node.kind != SyntaxKind::LambdaParams ==> r is None,
    {
        if node.kind == SyntaxKind::LambdaParams {
            Some(LambdaParams(node))
        } else {
            None
        }
    }

    pub fn syntax(&self) -> (r: &'a SyntaxNode)
        ensures
            *r == self@,
    {
        self.0
    }
}

#[derive(Clone, Copy, Debug)]
pub struct NameExpr<'a>(pub &'a SyntaxNode);

impl<'a> View for NameExpr<'a> {
    type V = SyntaxNode;

    open spec fn view(&self) -> SyntaxNode {
        *self.0
    }
}

impl<'a> NameExpr<'a> {
    pub fn cast(node: &'a SyntaxNode) -> (r: Option<NameExpr<'a>>)
        ensures
            node.kind == SyntaxKind::NameExpr ==> opt_view(r) == Some(*node),
            node.kind != SyntaxKind::NameExpr ==> r is None,
    {
        if node.kind == SyntaxKind::NameExpr {
            Some(NameExpr(node))
        } else {
            None
        }
    }

    pub fn syntax(&self) -> (r: &'a SyntaxNode)
        ensures
            *r == self@,
    {
        self.0
    }

    pub fn name(&self) -> (r: Option<NameRef<'a>>)
        ensures
            opt_view(r) == nth_kid(self@, KindClass::Is(SyntaxKind::NameRef), 0),
    {
        match nth_child_node(self.0, KindClass::Is(SyntaxKind::NameRef), 0) {
            Some(n) => Some(NameRef(n)),
            None => None,
        }
    }
}

/// A number (with optional unit) or `true`/`false`.
#[derive(Clone, Copy, Debug)]
pub struct LiteralExpr<'a>(pub &'a SyntaxNode);

impl<'a> View for LiteralExpr<'a> {
    type V = SyntaxNode;

    open spec fn view(&self) -> SyntaxNode {
        *self.0
    }
}

impl<'a> LiteralExpr<'a> {
    pub fn cast(node: &'a SyntaxNode) -> (r: Option<LiteralExpr<'a>>)
        ensures
            node.kind == SyntaxKind::LiteralExpr ==> opt_view(r) == Some(*node),
            node.kind != SyntaxKind::LiteralExpr ==> r is None,
    {
        if node.kind == SyntaxKind::LiteralExpr {
            Some(LiteralExpr(node))
        } else {
            None
        }
    }

    pub fn syntax(&self) -> (r: &'a SyntaxNode)
        ensures
            *r == self@,
    {
        self.0
    }

    pub fn unit(&self) -> (r: Option<UnitSuffix<'a>>)
        ensures
            opt_view(r) == nth_kid(self@, KindClass::Is(SyntaxKind::UnitSuffix), 0),
    {
        match nth_child_node(self.0, KindClass::Is(SyntaxKind::UnitSuffix), 0) {
            Some(n) => Some(UnitSuffix(n)),
            None => None,
        }
    }
}

#[derive(Clone, Copy, Debug)]
pub struct UnitSuffix<'a>(pub &'a SyntaxNode);

impl<'a> View for UnitSuffix<'a> {
    type V = SyntaxNode;

    open spec fn view(&self) -> SyntaxNode {
        *self.0
    }
}

impl<'a> UnitSuffix<'a> {
    pub fn cast(node: &'a SyntaxNode) -> (r: Option<UnitSuffix<'a>>)
        ensures
            node.kind == SyntaxKind::UnitSuffix ==> opt_view(r) == Some(*node),
            node.kind != SyntaxKind::UnitSuffix ==> r is None,
    {
        if node.kind == SyntaxKind::UnitSuffix {
            Some(UnitSuffix(node))
        } else {
            None
        }
    }

    pub fn syntax(&self) -> (r: &'a SyntaxNode)
        ensures
            *r == self@,
    {
        self.0
    }
}

#[derive(Clone, Copy, Debug)]
pub struct ParenExpr<'a>(pub &'a SyntaxNode);

impl<'a> View for ParenExpr<'a> {
    type V = SyntaxNode;

    open spec fn view(&self) -> SyntaxNode {
        *self.0
    }
}

impl<'a> ParenExpr<'a> {
    pub fn cast(node: &'a SyntaxNode) -> (r: Option<ParenExpr<'a>>)
        ensures
            node.kind == SyntaxKind::ParenExpr ==> opt_view(r) == Some(*node),
            node.kind != SyntaxKind::ParenExpr ==> r is None,
    {
        if node.kind == SyntaxKind::ParenExpr {
            Some(ParenExpr(node))
        } else {
            None
        }
    }

    pub fn syntax(&self) -> (r: &'a SyntaxNode)
        ensures
            *r == self@,
    {
        self.0
    }

    pub fn inner(&self) -> (r: Option<Expr<'a>>)
        ensures
            opt_view(r) == nth_kid(self@, KindClass::Expr, 0),
            r matches Some(x) ==> x.shaped(),
    {
        match nth_child_node(self.0, KindClass::Expr, 0) {
            Some(n) => Some(Expr::from_node(n)),
            None => None,
        }
    }
}

/// `callee(args)`
#[derive(Clone, Copy, Debug)]
pub struct CallExpr<'a>(pub &'a SyntaxNode);

impl<'a> View for CallExpr<'a> {
    type V = SyntaxNode;

    open spec fn view(&self) -> SyntaxNode {
        *self.0
    }
}

impl<'a> CallExpr<'a> {
    pub fn cast(node: &'a SyntaxNode) -> (r: Option<CallExpr<'a>>)
        ensures
            node.kind == SyntaxKind::CallExpr ==> opt_view(r) == Some(*node),
            node.kind != SyntaxKind::CallExpr ==> r is None,
    {
        if node.kind == SyntaxKind::CallExpr {
            Some(CallExpr(node))
        } else {
            None
        }
    }

    pub fn syntax(&self) -> (r: &'a SyntaxNode)
        ensures
            *r == self@,
    {
        self.0
    }

    pub fn callee(&self) -> (r: Option<Expr<'a>>)
        ensures
            opt_view(r) == nth_kid(self@, KindClass::Expr, 0),
            r matches Some(x) ==> x.shaped(),
    {
        match nth_child_node(self.0, KindClass::Expr, 0) {
            Some(n) => Some(Expr::from_node(n)),
            None => None,
        }
    }

    pub fn arg_list(&self) -> (r: Option<ArgList<'a>>)
        ensures
            opt_view(r) == nth_kid(self@, KindClass::Is(SyntaxKind::ArgList), 0),
    {
        match nth_child_node(self.0, KindClass::Is(SyntaxKind::ArgList), 0) {
            Some(n) => Some(ArgList(n)),
            None => None,
        }
    }

    pub fn arguments(&self) -> (r: Vec<Expr<'a>>)
        ensures
            views(r@) == match first_kid(self@, KindClass::Is(SyntaxKind::ArgList)) {
                Some(b) => kids(b, KindClass::Expr),
                None => Seq::<SyntaxNode>::empty(),
            },
            forall|i: int| 0 <= i < r@.len() ==> #[trigger] r@[i].shaped(),
    {
        match nth_child_node(self.0, KindClass::Is(SyntaxKind::ArgList), 0) {
            Some(b) => Expr::from_nodes(child_nodes(b, KindClass::Expr)),
            None => {
                let v: Vec<Expr<'a>> = Vec::new();
                assert(views(v@) =~= Seq::<SyntaxNode>::empty());
                v
            },
        }
    }
}

#[derive(Clone, Copy, Debug)]
pub struct ArgList<'a>(pub &'a SyntaxNode);

impl<'a> View for ArgList<'a> {
    type V = SyntaxNode;

    open spec fn view(&self) -> SyntaxNode {
        *self.0
    }
}

impl<'a> ArgList<'a> {
    pub fn cast(node: &'a SyntaxNode) -> (r: Option<ArgList<'a>>)
        ensures
            node.kind == SyntaxKind::ArgList ==> opt_view(r) == Some(*node),
            node.kind != SyntaxKind::ArgList ==> r is None,
    {
        if node.kind == SyntaxKind::ArgList {
            Some(ArgList(node))
        } else {
            None
        }
    }

    pub fn syntax(&self) -> (r: &'a SyntaxNode)
        ensures
            *r == self@,
    {
        self.0
    }

    pub fn args(&self) -> (r: Vec<Expr<'a>>)
        ensures
            views(r@) == kids(self@, KindClass::Expr),
            forall|i: int| 0 <= i < r@.len() ==> #[trigger] r@[i].shaped(),
    {
        Expr::from_nodes(child_nodes(self.0, KindClass::Expr))
    }
}

#[derive(Clone, Copy, Debug)]
pub struct UnaryExpr<'a>(pub &'a SyntaxNode);

impl<'a> View for UnaryExpr<'a> {
    type V = SyntaxNode;

    open spec fn view(&self) -> SyntaxNode {
        *self.0
    }
}

impl<'a> UnaryExpr<'a> {
    pub fn cast(node: &'a SyntaxNode) -> (r: Option<UnaryExpr<'a>>)
        ensures
            node.kind == SyntaxKind::UnaryExpr ==> opt_view(r) == Some(*node),
            node.kind != SyntaxKind::UnaryExpr ==> r is None,
    {
        if node.kind == SyntaxKind::UnaryExpr {
            Some(UnaryExpr(node))
        } else {
            None
        }
    }

    pub fn syntax(&self) -> (r: &'a SyntaxNode)
        ensures
            *r == self@,
    {
        self.0
    }

    pub fn operand(&self) -> (r: Option<Expr<'a>>)
        ensures
            opt_view(r) == nth_kid(self@, KindClass::Expr, 0),
            r matches Some(x) ==> x.shaped(),
    {
        match nth_child_node(self.0, KindClass::Expr, 0) {
            Some(n) => Some(Expr::from_node(n)),
            None => None,
        }
    }
}

#[derive(Clone, Copy, Debug)]
pub struct BinaryExpr<'a>(pub &'a SyntaxNode);

impl<'a> View for BinaryExpr<'a> {
    type V = SyntaxNode;

    open spec fn view(&self) -> SyntaxNode {
        *self.0
    }
}

impl<'a> BinaryExpr<'a> {
    pub fn cast(node: &'a SyntaxNode) -> (r: Option<BinaryExpr<'a>>)
        ensures
            node.kind == SyntaxKind::BinaryExpr ==> opt_view(r) == Some(*node),
            node.kind != SyntaxKind::BinaryExpr ==> r is None,
    {
        if node.kind == SyntaxKind::BinaryExpr {
            Some(BinaryExpr(node))
        } else {
            None
        }
    }

    pub fn syntax(&self) -> (r: &'a SyntaxNode)
        ensures
            *r == self@,
    {
        self.0
    }

    pub fn lhs(&self) -> (r: Option<Expr<'a>>)
        ensures
            opt_view(r) == nth_kid(self@, KindClass::Expr, 0),
            r matches Some(x) ==> x.shaped(),
    {
        match nth_child_node(self.0, KindClass::Expr, 0) {
            Some(n) => Some(Expr::from_node(n)),
            None => None,
        }
    }

    pub fn rhs(&self) -> (r: Option<Expr<'a>>)
        ensures
            opt_view(r) == nth_kid(self@, KindClass::Expr, 1),
            r matches Some(x) ==> x.shaped(),
    {
        match nth_child_node(self.0, KindClass::Expr, 1) {
            Some(n) => Some(Expr::from_node(n)),
            None => None,
        }
    }
}

#[derive(Clone, Copy, Debug)]
pub struct IfExpr<'a>(pub &'a SyntaxNode);

impl<'a> View for IfExpr<'a> {
    type V = SyntaxNode;

    open spec fn view(&self) -> SyntaxNode {
        *self.0
    }
}

impl<'a> IfExpr<'a> {
    pub fn cast(node: &'a SyntaxNode) -> (r: Option<IfExpr<'a>>)
        ensures
            node.kind == SyntaxKind::IfExpr ==> opt_view(r) == Some(*node),
            node.kind != SyntaxKind::IfExpr ==> r is None,
    {
        if node.kind == SyntaxKind::IfExpr {
            Some(IfExpr(node))
        } else {
            None
        }
    }

    pub fn syntax(&self) -> (r: &'a SyntaxNode)
        ensures
            *r == self@,
    {
        self.0
    }
}

#[derive(Clone, Copy, Debug)]
pub struct MatchExpr<'a>(pub &'a SyntaxNode);

impl<'a> View for MatchExpr<'a> {
    type V = SyntaxNode;

    open spec fn view(&self) -> SyntaxNode {
        *self.0
    }
}

impl<'a> MatchExpr<'a> {
    pub fn cast(node: &'a SyntaxNode) -> (r: Option<MatchExpr<'a>>)
        ensures
            node.kind == SyntaxKind::MatchExpr ==> opt_view(r) == Some(*node),
            node.kind != SyntaxKind::MatchExpr ==> r is None,
    {
        if node.kind == SyntaxKind::MatchExpr {
            Some(MatchExpr(node))
        } else {
            None
        }
    }

    pub fn syntax(&self) -> (r: &'a SyntaxNode)
        ensures
            *r == self@,
    {
        self.0
    }

    pub fn scrutinee(&self) -> (r: Option<Expr<'a>>)
        ensures
            opt_view(r) == nth_kid(self@, KindClass::Expr, 0),
            r matches Some(x) ==> x.shaped(),
    {
        match nth_child_node(self.0, KindClass::Expr, 0) {
            Some(n) => Some(Expr::from_node(n)),
            None => None,
        }
    }

    pub fn arm_list(&self) -> (r: Option<MatchArmList<'a>>)
        ensures
            opt_view(r) == nth_kid(self@, KindClass::Is(SyntaxKind::MatchArmList), 0),
    {
        match nth_child_node(self.0, KindClass::Is(SyntaxKind::MatchArmList), 0) {
            Some(n) => Some(MatchArmList(n)),
            None => None,
        }
    }

    pub fn arms(&self) -> (r: Vec<MatchArm<'a>>)
        ensures
            views(r@) == match first_kid(self@, KindClass::Is(SyntaxKind::MatchArmList)) {
                Some(b) => kids(b, KindClass::Is(SyntaxKind::MatchArm)),
                None => Seq::<SyntaxNode>::empty(),
            },
    {
        match nth_child_node(self.0, KindClass::Is(SyntaxKind::MatchArmList), 0) {
            Some(b) => MatchArm::from_nodes(child_nodes(b, KindClass::Is(SyntaxKind::MatchArm))),
            None => {
                let v: Vec<MatchArm<'a>> = Vec::new();
                assert(views(v@) =~= Seq::<SyntaxNode>::empty());
                v
            },
        }
    }
}

#[derive(Clone, Copy, Debug)]
pub struct MatchArmList<'a>(pub &'a SyntaxNode);

impl<'a> View for MatchArmList<'a> {
    type V = SyntaxNode;

    open spec fn view(&self) -> SyntaxNode {
        *self.0
    }
}

impl<'a> MatchArmList<'a> {
    pub fn cast(node: &'a SyntaxNode) -> (r: Option<MatchArmList<'a>>)
        ensures
            node.kind == SyntaxKind::MatchArmList ==> opt_view(r) == Some(*node),
            node.kind != SyntaxKind::MatchArmList ==> r is None,
    {
        if node.kind == SyntaxKind::MatchArmList {
            Some(MatchArmList(node))
        } else {
            None
        }
    }

    pub fn syntax(&self) -> (r: &'a SyntaxNode)
        ensures
            *r == self@,
    {
        self.0
    }

    pub fn arms(&self) -> (r: Vec<MatchArm<'a>>)
        ensures
            views(r@) == kids(self@, KindClass::Is(SyntaxKind::MatchArm)),
    {
        MatchArm::from_nodes(child_nodes(self.0, KindClass::Is(SyntaxKind::MatchArm)))
    }
}

#[derive(Clone, Copy, Debug)]
pub struct MatchArm<'a>(pub &'a SyntaxNode);

impl<'a> View for MatchArm<'a> {
    type V = SyntaxNode;

    open spec fn view(&self) -> SyntaxNode {
        *self.0
    }
}

impl<'a> MatchArm<'a> {
    pub fn cast(node: &'a SyntaxNode) -> (r: Option<MatchArm<'a>>)
        ensures
            node.kind == SyntaxKind::MatchArm ==> opt_view(r) == Some(*node),
            node.kind != SyntaxKind::MatchArm ==> r is None,
    {
        if node.kind == SyntaxKind::MatchArm {
            Some(MatchArm(node))
        } else {
            None
        }
    }

    pub fn syntax(&self) -> (r: &'a SyntaxNode)
        ensures
            *r == self@,
    {
        self.0
    }

    pub fn pattern(&self) -> (r: Option<Pattern<'a>>)
        ensures
            opt_view(r) == nth_kid(self@, KindClass::Pattern, 0),
            r matches Some(x) ==> x.shaped(),
    {
        match nth_child_node(self.0, KindClass::Pattern, 0) {
            Some(n) => Some(Pattern::from_node(n)),
            None => None,
        }
    }

    pub fn body(&self) -> (r: Option<Expr<'a>>)
        ensures
            opt_view(r) == nth_kid(self@, KindClass::Expr, 0),
            r matches Some(x) ==> x.shaped(),
    {
        match nth_child_node(self.0, KindClass::Expr, 0) {
            Some(n) => Some(Expr::from_node(n)),
            None => None,
        }
    }

    pub fn has_trailing_comma(&self) -> (r: bool)
        ensures
            r == first_tok(self@, SyntaxKind::Comma) is Some,
    {
        child_token(self.0, SyntaxKind::Comma).is_some()
    }
}

#[derive(Clone, Copy, Debug)]
pub struct BlockExpr<'a>(pub &'a SyntaxNode);

impl<'a> View for BlockExpr<'a> {
    type V = SyntaxNode;

    open spec fn view(&self) -> SyntaxNode {
        *self.0
    }
}

impl<'a> BlockExpr<'a> {
    pub fn cast(node: &'a SyntaxNode) -> (r: Option<BlockExpr<'a>>)
        ensures
            node.kind == SyntaxKind::BlockExpr ==> opt_view(r) == Some(*node),
            node.kind != SyntaxKind::BlockExpr ==> r is None,
    {
        if node.kind == SyntaxKind::BlockExpr {
            Some(BlockExpr(node))
        } else {
            None
        }
    }

    pub fn syntax(&self) -> (r: &'a SyntaxNode)
        ensures
            *r == self@,
    {
        self.0
    }

    pub fn lets(&self) -> (r: Vec<LetStmt<'a>>)
        ensures
            views(r@) == kids(self@, KindClass::Is(SyntaxKind::LetStmt)),
    {
        LetStmt::from_nodes(child_nodes(self.0, KindClass::Is(SyntaxKind::LetStmt)))
    }

    /// The final expression, whose value is the block's.
    pub fn tail(&self) -> (r: Option<Expr<'a>>)
        ensures
            opt_view(r) == last_kid(self@, KindClass::Expr),
            r matches Some(x) ==> x.shaped(),
    {
        match last_child_node(self.0, KindClass::Expr) {
            Some(n) => Some(Expr::from_node(n)),
            None => None,
        }
    }
}

#[derive(Clone, Copy, Debug)]
pub struct LetStmt<'a>(pub &'a SyntaxNode);

impl<'a> View for LetStmt<'a> {
    type V = SyntaxNode;

    open spec fn view(&self) -> SyntaxNode {
        *self.0
    }
}

impl<'a> LetStmt<'a> {
    pub fn cast(node: &'a SyntaxNode) -> (r: Option<LetStmt<'a>>)
        ensures
            node.kind == SyntaxKind::LetStmt ==> opt_view(r) == Some(*node),
            node.kind != SyntaxKind::LetStmt ==> r is None,
    {
        if node.kind == SyntaxKind::LetStmt {
            Some(LetStmt(node))
        } else {
            None
        }
    }

    pub fn syntax(&self) -> (r: &'a SyntaxNode)
        ensures
            *r == self@,
    {
        self.0
    }

    pub fn pattern(&self) -> (r: Option<Pattern<'a>>)
        ensures
            opt_view(r) == nth_kid(self@, KindClass::Pattern, 0),
            r matches Some(x) ==> x.shaped(),
    {
        match nth_child_node(self.0, KindClass::Pattern, 0) {
            Some(n) => Some(Pattern::from_node(n)),
            None => None,
        }
    }

    pub fn value(&self) -> (r: Option<Expr<'a>>)
        ensures
            opt_view(r) == nth_kid(self@, KindClass::Expr, 0),
            r matches Some(x) ==> x.shaped(),
    {
        match nth_child_node(self.0, KindClass::Expr, 0) {
            Some(n) => Some(Expr::from_node(n)),
            None => None,
        }
    }
}

#[derive(Clone, Copy, Debug)]
pub struct WildcardPattern<'a>(pub &'a SyntaxNode);

impl<'a> View for WildcardPattern<'a> {
    type V = SyntaxNode;

    open spec fn view(&self) -> SyntaxNode {
        *self.0
    }
}

impl<'a> WildcardPattern<'a> {
    pub fn cast(node: &'a SyntaxNode) -> (r: Option<WildcardPattern<'a>>)
        ensures
            node.kind == SyntaxKind::WildcardPattern ==> opt_view(r) == Some(*node),
            node.kind != SyntaxKind::WildcardPattern ==> r is None,
    {
        if node.kind == SyntaxKind::WildcardPattern {
            Some(WildcardPattern(node))
        } else {
            None
        }
    }

    pub fn syntax(&self) -> (r: &'a SyntaxNode)
        ensures
            *r == self@,
    {
        self.0
    }
}

/// A bare name: a binding or a nullary constructor, decided by name resolution.
#[derive(Clone, Copy, Debug)]
pub struct IdentPattern<'a>(pub &'a SyntaxNode);

impl<'a> View for IdentPattern<'a> {
    type V = SyntaxNode;

    open spec fn view(&self) -> SyntaxNode {
        *self.0
    }
}

impl<'a> IdentPattern<'a> {
    pub fn cast(node: &'a SyntaxNode) -> (r: Option<IdentPattern<'a>>)
        ensures
            node.kind == SyntaxKind::IdentPattern ==> opt_view(r) == Some(*node),
            node.kind != SyntaxKind::IdentPattern ==> r is None,
    {
        if node.kind == SyntaxKind::IdentPattern {
            Some(IdentPattern(node))
        } else {
            None
        }
    }

    pub fn syntax(&self) -> (r: &'a SyntaxNode)
        ensures
            *r == self@,
    {
        self.0
    }

    pub fn name(&self) -> (r: Option<Name<'a>>)
        ensures
            opt_view(r) == nth_kid(self@, KindClass::Is(SyntaxKind::Name), 0),
    {
        match nth_child_node(self.0, KindClass::Is(SyntaxKind::Name), 0) {
            Some(n) => Some(Name(n)),
            None => None,
        }
    }
}

#[derive(Clone, Copy, Debug)]
pub struct LiteralPattern<'a>(pub &'a SyntaxNode);

impl<'a> View for LiteralPattern<'a> {
    type V = SyntaxNode;

    open spec fn view(&self) -> SyntaxNode {
        *self.0
    }
}

impl<'a> LiteralPattern<'a> {
    pub fn cast(node: &'a SyntaxNode) -> (r: Option<LiteralPattern<'a>>)
        ensures
            node.kind == SyntaxKind::LiteralPattern ==> opt_view(r) == Some(*node),
            node.kind != SyntaxKind::LiteralPattern ==> r is None,
    {
        if node.kind == SyntaxKind::LiteralPattern {
            Some(LiteralPattern(node))
        } else {
            None
        }
    }

    pub fn syntax(&self) -> (r: &'a SyntaxNode)
        ensures
            *r == self@,
    {
        self.0
    }
}

/// `Name(patterns)`
#[derive(Clone, Copy, Debug)]
pub struct ConstructorPattern<'a>(pub &'a SyntaxNode);

impl<'a> View for ConstructorPattern<'a> {
    type V = SyntaxNode;

    open spec fn view(&self) -> SyntaxNode {
        *self.0
    }
}

impl<'a> ConstructorPattern<'a> {
    pub fn cast(node: &'a SyntaxNode) -> (r: Option<ConstructorPattern<'a>>)
        ensures
            node.kind == SyntaxKind::ConstructorPattern ==> opt_view(r) == Some(*node),
            node.kind != SyntaxKind::ConstructorPattern ==> r is None,
    {
        if node.kind == SyntaxKind::ConstructorPattern {
            Some(ConstructorPattern(node))
        } else {
            None
        }
    }

    pub fn syntax(&self) -> (r: &'a SyntaxNode)
        ensures
            *r == self@,
    {
        self.0
    }

    pub fn name(&self) -> (r: Option<NameRef<'a>>)
        ensures
            opt_view(r) == nth_kid(self@, KindClass::Is(SyntaxKind::NameRef), 0),
    {
        match nth_child_node(self.0, KindClass::Is(SyntaxKind::NameRef), 0) {
            Some(n) => Some(NameRef(n)),
            None => None,
        }
    }

    pub fn fields(&self) -> (r: Vec<Pattern<'a>>)
        ensures
            views(r@) == match first_kid(self@, KindClass::Is(SyntaxKind::PatternList)) {
                Some(b) => kids(b, KindClass::Pattern),
                None => Seq::<SyntaxNode>::empty(),
            },
            forall|i: int| 0 <= i < r@.len() ==> #[trigger] r@[i].shaped(),
    {
        match nth_child_node(self.0, KindClass::Is(SyntaxKind::PatternList), 0) {
            Some(b) => Pattern::from_nodes(child_nodes(b, KindClass::Pattern)),
            None => {
                let v: Vec<Pattern<'a>> = Vec::new();
                assert(views(v@) =~= Seq::<SyntaxNode>::empty());
                v
            },
        }
    }
}

#[derive(Clone, Copy, Debug)]
pub struct PatternList<'a>(pub &'a SyntaxNode);

impl<'a> View for PatternList<'a> {
    type V = SyntaxNode;

    open spec fn view(&self) -> SyntaxNode {
        *self.0
    }
}

impl<'a> PatternList<'a> {
    pub fn cast(node: &'a SyntaxNode) -> (r: Option<PatternList<'a>>)
        ensures
            node.kind == SyntaxKind::PatternList ==> opt_view(r) == Some(*node),
            node.kind != SyntaxKind::PatternList ==> r is None,
    {
        if node.kind == SyntaxKind::PatternList {
            Some(PatternList(node))
        } else {
            None
        }
    }

    pub fn syntax(&self) -> (r: &'a SyntaxNode)
        ensures
            *r == self@,
    {
        self.0
    }
}

/// A top-level declaration.
#[derive(Clone, Copy, Debug)]
pub enum Item<'a> {
    Concept(ConceptDecl<'a>),
    Mapping(MappingDecl<'a>),
    Enum(EnumDecl<'a>),
    Clock(ClockDecl<'a>),
    Output(OutputDecl<'a>),
    Drive(DriveDecl<'a>),
    Device(DeviceDecl<'a>),
    Component(ComponentDecl<'a>),
    Instance(InstanceDecl<'a>),
    Bind(BindDecl<'a>),
    Export(ExportDecl<'a>),
}

impl<'a> View for Item<'a> {
    type V = SyntaxNode;

    open spec fn view(&self) -> SyntaxNode {
        match self {
            Item::Concept(x) => x@,
            Item::Mapping(x) => x@,
            Item::Enum(x) => x@,
            Item::Clock(x) => x@,
            Item::Output(x) => x@,
            Item::Drive(x) => x@,
            Item::Device(x) => x@,
            Item::Component(x) => x@,
            Item::Instance(x) => x@,
            Item::Bind(x) => x@,
            Item::Export(x) => x@,
        }
    }
}

impl<'a> Item<'a> {
    /// Each variant holds a node of its own kind.
    pub open spec fn shaped(&self) -> bool {
        match self {
            Item::Concept(x) => x@.kind == SyntaxKind::ConceptDecl,
            Item::Mapping(x) => x@.kind == SyntaxKind::MappingDecl,
            Item::Enum(x) => x@.kind == SyntaxKind::EnumDecl,
            Item::Clock(x) => x@.kind == SyntaxKind::ClockDecl,
            Item::Output(x) => x@.kind == SyntaxKind::OutputDecl,
            Item::Drive(x) => x@.kind == SyntaxKind::DriveDecl,
            Item::Device(x) => x@.kind == SyntaxKind::DeviceDecl,
            Item::Component(x) => x@.kind == SyntaxKind::ComponentDecl,
            Item::Instance(x) => x@.kind == SyntaxKind::InstanceDecl,
            Item::Bind(x) => x@.kind == SyntaxKind::BindDecl,
            Item::Export(x) => x@.kind == SyntaxKind::ExportDecl,
        }
    }

    pub fn from_node(node: &'a SyntaxNode) -> (r: Item<'a>)
        requires
            KindClass::Item.spec_has(node.kind),
        ensures
            r@ == *node,
            r.shaped(),
    {
        match node.kind {
            SyntaxKind::ConceptDecl => Item::Concept(ConceptDecl(node)),
            SyntaxKind::MappingDecl => Item::Mapping(MappingDecl(node)),
            SyntaxKind::EnumDecl => Item::Enum(EnumDecl(node)),
            SyntaxKind::ClockDecl => Item::Clock(ClockDecl(node)),
            SyntaxKind::OutputDecl => Item::Output(OutputDecl(node)),
            SyntaxKind::DriveDecl => Item::Drive(DriveDecl(node)),
            SyntaxKind::DeviceDecl => Item::Device(DeviceDecl(node)),
            SyntaxKind::ComponentDecl => Item::Component(ComponentDecl(node)),
            SyntaxKind::InstanceDecl => Item::Instance(InstanceDecl(node)),
            SyntaxKind::BindDecl => Item::Bind(BindDecl(node)),
            _ => Item::Export(ExportDecl(node)),
        }
    }

    pub fn cast(node: &'a SyntaxNode) -> (r: Option<Item<'a>>)
        ensures
            KindClass::Item.spec_has(node.kind) ==> opt_view(r) == Some(*node) && r->0.shaped(),
            !KindClass::Item.spec_has(node.kind) ==> r is None,
    {
        if KindClass::Item.has(node.kind) {
            Some(Item::from_node(node))
        } else {
            None
        }
    }

    pub fn syntax(&self) -> (r: &'a SyntaxNode)
        ensures
            *r == self@,
    {
        match self {
            Item::Concept(x) => x.0,
            Item::Mapping(x) => x.0,
            Item::Enum(x) => x.0,
            Item::Clock(x) => x.0,
            Item::Output(x) => x.0,
            Item::Drive(x) => x.0,
            Item::Device(x) => x.0,
            Item::Component(x) => x.0,
            Item::Instance(x) => x.0,
            Item::Bind(x) => x.0,
            Item::Export(x) => x.0,
        }
    }
}

/// An item inside a `component { … }` body.
#[derive(Clone, Copy, Debug)]
pub enum ComponentItem<'a> {
    Concept(ConceptDecl<'a>),
    Mapping(MappingDecl<'a>),
    Enum(EnumDecl<'a>),
    Clock(ClockDecl<'a>),
    Output(OutputDecl<'a>),
    Drive(DriveDecl<'a>),
    Device(DeviceDecl<'a>),
    Use(UseDecl<'a>),
    ParamClock(ParamClockDecl<'a>),
    Port(PortDecl<'a>),
}

impl<'a> View for ComponentItem<'a> {
    type V = SyntaxNode;

    open spec fn view(&self) -> SyntaxNode {
        match self {
            ComponentItem::Concept(x) => x@,
            ComponentItem::Mapping(x) => x@,
            ComponentItem::Enum(x) => x@,
            ComponentItem::Clock(x) => x@,
            ComponentItem::Output(x) => x@,
            ComponentItem::Drive(x) => x@,
            ComponentItem::Device(x) => x@,
            ComponentItem::Use(x) => x@,
            ComponentItem::ParamClock(x) => x@,
            ComponentItem::Port(x) => x@,
        }
    }
}

impl<'a> ComponentItem<'a> {
    /// Each variant holds a node of its own kind.
    pub open spec fn shaped(&self) -> bool {
        match self {
            ComponentItem::Concept(x) => x@.kind == SyntaxKind::ConceptDecl,
            ComponentItem::Mapping(x) => x@.kind == SyntaxKind::MappingDecl,
            ComponentItem::Enum(x) => x@.kind == SyntaxKind::EnumDecl,
            ComponentItem::Clock(x) => x@.kind == SyntaxKind::ClockDecl,
            ComponentItem::Output(x) => x@.kind == SyntaxKind::OutputDecl,
            ComponentItem::Drive(x) => x@.kind == SyntaxKind::DriveDecl,
            ComponentItem::Device(x) => x@.kind == SyntaxKind::DeviceDecl,
            ComponentItem::Use(x) => x@.kind == SyntaxKind::UseDecl,
            ComponentItem::ParamClock(x) => x@.kind == SyntaxKind::ParamClockDecl,
            ComponentItem::Port(x) => x@.kind == SyntaxKind::PortDecl,
        }
    }

    pub fn from_node(node: &'a SyntaxNode) -> (r: ComponentItem<'a>)
        requires
            KindClass::ComponentItem.spec_has(node.kind),
        ensures
            r@ == *node,
            r.shaped(),
    {
        match node.kind {
            SyntaxKind::ConceptDecl => ComponentItem::Concept(ConceptDecl(node)),
            SyntaxKind::MappingDecl => ComponentItem::Mapping(MappingDecl(node)),
            SyntaxKind::EnumDecl => ComponentItem::Enum(EnumDecl(node)),
            SyntaxKind::ClockDecl => ComponentItem::Clock(ClockDecl(node)),
            SyntaxKind::OutputDecl => ComponentItem::Output(OutputDecl(node)),
            SyntaxKind::DriveDecl => ComponentItem::Drive(DriveDecl(node)),
            SyntaxKind::DeviceDecl => ComponentItem::Device(DeviceDecl(node)),
            SyntaxKind::UseDecl => ComponentItem::Use(UseDecl(node)),
            SyntaxKind::ParamClockDecl => ComponentItem::ParamClock(ParamClockDecl(node)),
            _ => ComponentItem::Port(PortDecl(node)),
        }
    }

    pub fn cast(node: &'a SyntaxNode) -> (r: Option<ComponentItem<'a>>)
        ensures
            KindClass::ComponentItem.spec_has(node.kind) ==> opt_view(r) == Some(*node) && r->0.shaped(),
            !KindClass::ComponentItem.spec_has(node.kind) ==> r is None,
    {
        if KindClass::ComponentItem.has(node.kind) {
            Some(ComponentItem::from_node(node))
        } else {
            None
        }
    }

    pub fn syntax(&self) -> (r: &'a SyntaxNode)
        ensures
            *r == self@,
    {
        match self {
            ComponentItem::Concept(x) => x.0,
            ComponentItem::Mapping(x) => x.0,
            ComponentItem::Enum(x) => x.0,
            ComponentItem::Clock(x) => x.0,
            ComponentItem::Output(x) => x.0,
            ComponentItem::Drive(x) => x.0,
            ComponentItem::Device(x) => x.0,
            ComponentItem::Use(x) => x.0,
            ComponentItem::ParamClock(x) => x.0,
            ComponentItem::Port(x) => x.0,
        }
    }
}

/// A type expression.
#[derive(Clone, Copy, Debug)]
pub enum Type<'a> {
    Named(NamedType<'a>),
    Function(FunctionType<'a>),
    Paren(ParenType<'a>),
    Unit(UnitType<'a>),
    Tuple(TupleType<'a>),
}

impl<'a> View for Type<'a> {
    type V = SyntaxNode;

    open spec fn view(&self) -> SyntaxNode {
        match self {
            Type::Named(x) => x@,
            Type::Function(x) => x@,
            Type::Paren(x) => x@,
            Type::Unit(x) => x@,
            Type::Tuple(x) => x@,
        }
    }
}

impl<'a> Type<'a> {
    /// Each variant holds a node of its own kind.
    pub open spec fn shaped(&self) -> bool {
        match self {
            Type::Named(x) => x@.kind == SyntaxKind::NamedType,
            Type::Function(x) => x@.kind == SyntaxKind::FunctionType,
            Type::Paren(x) => x@.kind == SyntaxKind::ParenType,
            Type::Unit(x) => x@.kind == SyntaxKind::UnitType,
            Type::Tuple(x) => x@.kind == SyntaxKind::TupleType,
        }
    }

    pub fn from_node(node: &'a SyntaxNode) -> (r: Type<'a>)
        requires
            KindClass::Type.spec_has(node.kind),
        ensures
            r@ == *node,
            r.shaped(),
    {
        match node.kind {
            SyntaxKind::NamedType => Type::Named(NamedType(node)),
            SyntaxKind::FunctionType => Type::Function(FunctionType(node)),
            SyntaxKind::ParenType => Type::Paren(ParenType(node)),
            SyntaxKind::UnitType => Type::Unit(UnitType(node)),
            _ => Type::Tuple(TupleType(node)),
        }
    }

    pub fn cast(node: &'a SyntaxNode) -> (r: Option<Type<'a>>)
        ensures
            KindClass::Type.spec_has(node.kind) ==> opt_view(r) == Some(*node) && r->0.shaped(),
            !KindClass::Type.spec_has(node.kind) ==> r is None,
    {
        if KindClass::Type.has(node.kind) {
            Some(Type::from_node(node))
        } else {
            None
        }
    }

    pub fn syntax(&self) -> (r: &'a SyntaxNode)
        ensures
            *r == self@,
    {
        match self {
            Type::Named(x) => x.0,
            Type::Function(x) => x.0,
            Type::Paren(x) => x.0,
            Type::Unit(x) => x.0,
            Type::Tuple(x) => x.0,
        }
    }
}

/// An expression.
#[derive(Clone, Copy, Debug)]
pub enum Expr<'a> {
    Name(NameExpr<'a>),
    Literal(LiteralExpr<'a>),
    Paren(ParenExpr<'a>),
    Call(CallExpr<'a>),
    Unary(UnaryExpr<'a>),
    Binary(BinaryExpr<'a>),
    If(IfExpr<'a>),
    Match(MatchExpr<'a>),
    Block(BlockExpr<'a>),
    List(ListExpr<'a>),
    Tuple(TupleExpr<'a>),
    Lambda(LambdaExpr<'a>),
    Slot(SlotExpr<'a>),
    Binder(BinderExpr<'a>),
    Range(RangeExpr<'a>),
    Unit(UnitExpr<'a>),
}

impl<'a> View for Expr<'a> {
    type V = SyntaxNode;

    open spec fn view(&self) -> SyntaxNode {
        match self {
            Expr::Name(x) => x@,
            Expr::Literal(x) => x@,
            Expr::Paren(x) => x@,
            Expr::Call(x) => x@,
            Expr::Unary(x) => x@,
            Expr::Binary(x) => x@,
            Expr::If(x) => x@,
            Expr::Match(x) => x@,
            Expr::Block(x) => x@,
            Expr::List(x) => x@,
            Expr::Tuple(x) => x@,
            Expr::Lambda(x) => x@,
            Expr::Slot(x) => x@,
            Expr::Binder(x) => x@,
            Expr::Range(x) => x@,
            Expr::Unit(x) => x@,
        }
    }
}

impl<'a> Expr<'a> {
    /// Each variant holds a node of its own kind.
    pub open spec fn shaped(&self) -> bool {
        match self {
            Expr::Name(x) => x@.kind == SyntaxKind::NameExpr,
            Expr::Literal(x) => x@.kind == SyntaxKind::LiteralExpr,
            Expr::Paren(x) => x@.kind == SyntaxKind::ParenExpr,
            Expr::Call(x) => x@.kind == SyntaxKind::CallExpr,
            Expr::Unary(x) => x@.kind == SyntaxKind::UnaryExpr,
            Expr::Binary(x) => x@.kind == SyntaxKind::BinaryExpr,
            Expr::If(x) => x@.kind == SyntaxKind::IfExpr,
            Expr::Match(x) => x@.kind == SyntaxKind::MatchExpr,
            Expr::Block(x) => x@.kind == SyntaxKind::BlockExpr,
            Expr::List(x) => x@.kind == SyntaxKind::ListExpr,
            Expr::Tuple(x) => x@.kind == SyntaxKind::TupleExpr,
            Expr::Lambda(x) => x@.kind == SyntaxKind::LambdaExpr,
            Expr::Slot(x) => x@.kind == SyntaxKind::SlotExpr,
            Expr::Binder(x) => x@.kind == SyntaxKind::BinderExpr,
            Expr::Range(x) => x@.kind == SyntaxKind::RangeExpr,
            Expr::Unit(x) => x@.kind == SyntaxKind::UnitExpr,
        }
    }

    pub fn from_node(node: &'a SyntaxNode) -> (r: Expr<'a>)
        requires
            KindClass::Expr.spec_has(node.kind),
        ensures
            r@ == *node,
            r.shaped(),
    {
        match node.kind {
            SyntaxKind::NameExpr => Expr::Name(NameExpr(node)),
            SyntaxKind::LiteralExpr => Expr::Literal(LiteralExpr(node)),
            SyntaxKind::ParenExpr => Expr::Paren(ParenExpr(node)),
            SyntaxKind::CallExpr => Expr::Call(CallExpr(node)),
            SyntaxKind::UnaryExpr => Expr::Unary(UnaryExpr(node)),
            SyntaxKind::BinaryExpr => Expr::Binary(BinaryExpr(node)),
            SyntaxKind::IfExpr => Expr::If(IfExpr(node)),
            SyntaxKind::MatchExpr => Expr::Match(MatchExpr(node)),
            SyntaxKind::BlockExpr => Expr::Block(BlockExpr(node)),
            SyntaxKind::ListExpr => Expr::List(ListExpr(node)),
            SyntaxKind::TupleExpr => Expr::Tuple(TupleExpr(node)),
            SyntaxKind::LambdaExpr => Expr::Lambda(LambdaExpr(node)),
            SyntaxKind::SlotExpr => Expr::Slot(SlotExpr(node)),
            SyntaxKind::BinderExpr => Expr::Binder(BinderExpr(node)),
            SyntaxKind::RangeExpr => Expr::Range(RangeExpr(node)),
            _ => Expr::Unit(UnitExpr(node)),
        }
    }

    pub fn cast(node: &'a SyntaxNode) -> (r: Option<Expr<'a>>)
        ensures
            KindClass::Expr.spec_has(node.kind) ==> opt_view(r) == Some(*node) && r->0.shaped(),
            !KindClass::Expr.spec_has(node.kind) ==> r is None,
    {
        if KindClass::Expr.has(node.kind) {
            Some(Expr::from_node(node))
        } else {
            None
        }
    }

    pub fn syntax(&self) -> (r: &'a SyntaxNode)
        ensures
            *r == self@,
    {
        match self {
            Expr::Name(x) => x.0,
            Expr::Literal(x) => x.0,
            Expr::Paren(x) => x.0,
            Expr::Call(x) => x.0,
            Expr::Unary(x) => x.0,
            Expr::Binary(x) => x.0,
            Expr::If(x) => x.0,
            Expr::Match(x) => x.0,
            Expr::Block(x) => x.0,
            Expr::List(x) => x.0,
            Expr::Tuple(x) => x.0,
            Expr::Lambda(x) => x.0,
            Expr::Slot(x) => x.0,
            Expr::Binder(x) => x.0,
            Expr::Range(x) => x.0,
            Expr::Unit(x) => x.0,
        }
    }
}

/// A pattern.
#[derive(Clone, Copy, Debug)]
pub enum Pattern<'a> {
    Wildcard(WildcardPattern<'a>),
    Ident(IdentPattern<'a>),
    Literal(LiteralPattern<'a>),
    Constructor(ConstructorPattern<'a>),
}

impl<'a> View for Pattern<'a> {
    type V = SyntaxNode;

    open spec fn view(&self) -> SyntaxNode {
        match self {
            Pattern::Wildcard(x) => x@,
            Pattern::Ident(x) => x@,
            Pattern::Literal(x) => x@,
            Pattern::Constructor(x) => x@,
        }
    }
}

impl<'a> Pattern<'a> {
    /// Each variant holds a node of its own kind.
    pub open spec fn shaped(&self) -> bool {
        match self {
            Pattern::Wildcard(x) => x@.kind == SyntaxKind::WildcardPattern,
            Pattern::Ident(x) => x@.kind == SyntaxKind::IdentPattern,
            Pattern::Literal(x) => x@.kind == SyntaxKind::LiteralPattern,
            Pattern::Constructor(x) => x@.kind == SyntaxKind::ConstructorPattern,
        }
    }

    pub fn from_node(node: &'a SyntaxNode) -> (r: Pattern<'a>)
        requires
            KindClass::Pattern.spec_has(node.kind),
        ensures
            r@ == *node,
            r.shaped(),
    {
        match node.kind {
            SyntaxKind::WildcardPattern => Pattern::Wildcard(WildcardPattern(node)),
            SyntaxKind::IdentPattern => Pattern::Ident(IdentPattern(node)),
            SyntaxKind::LiteralPattern => Pattern::Literal(LiteralPattern(node)),
            _ => Pattern::Constructor(ConstructorPattern(node)),
        }
    }

    pub fn cast(node: &'a SyntaxNode) -> (r: Option<Pattern<'a>>)
        ensures
            KindClass::Pattern.spec_has(node.kind) ==> opt_view(r) == Some(*node) && r->0.shaped(),
            !KindClass::Pattern.spec_has(node.kind) ==> r is None,
    {
        if KindClass::Pattern.has(node.kind) {
            Some(Pattern::from_node(node))
        } else {
            None
        }
    }

    pub fn syntax(&self) -> (r: &'a SyntaxNode)
        ensures
            *r == self@,
    {
        match self {
            Pattern::Wildcard(x) => x.0,
            Pattern::Ident(x) => x.0,
            Pattern::Literal(x) => x.0,
            Pattern::Constructor(x) => x.0,
        }
    }
}

impl<'a> ComponentItem<'a> {
    fn from_nodes(ns: Vec<&'a SyntaxNode>) -> (r: Vec<ComponentItem<'a>>)
        requires
            forall|i: int| 0 <= i < ns@.len() ==> KindClass::ComponentItem.spec_has(#[trigger] ns@[i].kind),
        ensures
            views(r@) == deref_nodes(ns@),
            forall|i: int| 0 <= i < r@.len() ==> #[trigger] r@[i].shaped(),
    {
        let mut out: Vec<ComponentItem<'a>> = Vec::new();
        let mut i: usize = 0;
        while i < ns.len()
            invariant
                i <= ns@.len(),
                views(out@) == deref_nodes(ns@.subrange(0, i as int)),
                forall|j: int| 0 <= j < ns@.len() ==> KindClass::ComponentItem.spec_has(#[trigger] ns@[j].kind),
                forall|j: int| 0 <= j < out@.len() ==> #[trigger] out@[j].shaped(),
            decreases ns@.len() - i,
        {
            let ghost before = out@;
            let w = ComponentItem::from_node(ns[i]);
            out.push(w);
            assert(views(out@) =~= views(before).push(w@));
            assert(deref_nodes(ns@.subrange(0, i + 1)) =~= deref_nodes(ns@.subrange(0, i as int)).push(*ns@[i as int]));
            i = i + 1;
        }
        assert(ns@.subrange(0, i as int) =~= ns@);
        out
    }
}

impl<'a> ConceptDecl<'a> {
    fn from_nodes(ns: Vec<&'a SyntaxNode>) -> (r: Vec<ConceptDecl<'a>>)
        ensures
            views(r@) == deref_nodes(ns@),
    {
        let mut out: Vec<ConceptDecl<'a>> = Vec::new();
        let mut i: usize = 0;
        while i < ns.len()
            invariant
                i <= ns@.len(),
                views(out@) == deref_nodes(ns@.subrange(0, i as int)),
            decreases ns@.len() - i,
        {
            let ghost before = out@;
            let w = ConceptDecl(ns[i]);
            out.push(w);
            assert(views(out@) =~= views(before).push(w@));
            assert(deref_nodes(ns@.subrange(0, i + 1)) =~= deref_nodes(ns@.subrange(0, i as int)).push(*ns@[i as int]));
            i = i + 1;
        }
        assert(ns@.subrange(0, i as int) =~= ns@);
        out
    }
}

impl<'a> EnumDecl<'a> {
    fn from_nodes(ns: Vec<&'a SyntaxNode>) -> (r: Vec<EnumDecl<'a>>)
        ensures
            views(r@) == deref_nodes(ns@),
    {
        let mut out: Vec<EnumDecl<'a>> = Vec::new();
        let mut i: usize = 0;
        while i < ns.len()
            invariant
                i <= ns@.len(),
                views(out@) == deref_nodes(ns@.subrange(0, i as int)),
            decreases ns@.len() - i,
        {
            let ghost before = out@;
            let w = EnumDecl(ns[i]);
            out.push(w);
            assert(views(out@) =~= views(before).push(w@));
            assert(deref_nodes(ns@.subrange(0, i + 1)) =~= deref_nodes(ns@.subrange(0, i as int)).push(*ns@[i as int]));
            i = i + 1;
        }
        assert(ns@.subrange(0, i as int) =~= ns@);
        out
    }
}

impl<'a> EnumVariant<'a> {
    fn from_nodes(ns: Vec<&'a SyntaxNode>) -> (r: Vec<EnumVariant<'a>>)
        ensures
            views(r@) == deref_nodes(ns@),
    {
        let mut out: Vec<EnumVariant<'a>> = Vec::new();
        let mut i: usize = 0;
        while i < ns.len()
            invariant
                i <= ns@.len(),
                views(out@) == deref_nodes(ns@.subrange(0, i as int)),
            decreases ns@.len() - i,
        {
            let ghost before = out@;
            let w = EnumVariant(ns[i]);
            out.push(w);
            assert(views(out@) =~= views(before).push(w@));
            assert(deref_nodes(ns@.subrange(0, i + 1)) =~= deref_nodes(ns@.subrange(0, i as int)).push(*ns@[i as int]));
            i = i + 1;
        }
        assert(ns@.subrange(0, i as int) =~= ns@);
        out
    }
}

impl<'a> Expr<'a> {
    fn from_nodes(ns: Vec<&'a SyntaxNode>) -> (r: Vec<Expr<'a>>)
        requires
            forall|i: int| 0 <= i < ns@.len() ==> KindClass::Expr.spec_has(#[trigger] ns@[i].kind),
        ensures
            views(r@) == deref_nodes(ns@),
            forall|i: int| 0 <= i < r@.len() ==> #[trigger] r@[i].shaped(),
    {
        let mut out: Vec<Expr<'a>> = Vec::new();
        let mut i: usize = 0;
        while i < ns.len()
            invariant
                i <= ns@.len(),
                views(out@) == deref_nodes(ns@.subrange(0, i as int)),
                forall|j: int| 0 <= j < ns@.len() ==> KindClass::Expr.spec_has(#[trigger] ns@[j].kind),
                forall|j: int| 0 <= j < out@.len() ==> #[trigger] out@[j].shaped(),
            decreases ns@.len() - i,
        {
            let ghost before = out@;
            let w = Expr::from_node(ns[i]);
            out.push(w);
            assert(views(out@) =~= views(before).push(w@));
            assert(deref_nodes(ns@.subrange(0, i + 1)) =~= deref_nodes(ns@.subrange(0, i as int)).push(*ns@[i as int]));
            i = i + 1;
        }
        assert(ns@.subrange(0, i as int) =~= ns@);
        out
    }
}

impl<'a> InstanceArg<'a> {
    fn from_nodes(ns: Vec<&'a SyntaxNode>) -> (r: Vec<InstanceArg<'a>>)
        ensures
            views(r@) == deref_nodes(ns@),
    {
        let mut out: Vec<InstanceArg<'a>> = Vec::new();
        let mut i: usize = 0;
        while i < ns.len()
            invariant
                i <= ns@.len(),
                views(out@) == deref_nodes(ns@.subrange(0, i as int)),
            decreases ns@.len() - i,
        {
            let ghost before = out@;
            let w = InstanceArg(ns[i]);
            out.push(w);
            assert(views(out@) =~= views(before).push(w@));
            assert(deref_nodes(ns@.subrange(0, i + 1)) =~= deref_nodes(ns@.subrange(0, i as int)).push(*ns@[i as int]));
            i = i + 1;
        }
        assert(ns@.subrange(0, i as int) =~= ns@);
        out
    }
}

impl<'a> Item<'a> {
    fn from_nodes(ns: Vec<&'a SyntaxNode>) -> (r: Vec<Item<'a>>)
        requires
            forall|i: int| 0 <= i < ns@.len() ==> KindClass::Item.spec_has(#[trigger] ns@[i].kind),
        ensures
            views(r@) == deref_nodes(ns@),
            forall|i: int| 0 <= i < r@.len() ==> #[trigger] r@[i].shaped(),
    {
        let mut out: Vec<Item<'a>> = Vec::new();
        let mut i: usize = 0;
        while i < ns.len()
            invariant
                i <= ns@.len(),
                views(out@) == deref_nodes(ns@.subrange(0, i as int)),
                forall|j: int| 0 <= j < ns@.len() ==> KindClass::Item.spec_has(#[trigger] ns@[j].kind),
                forall|j: int| 0 <= j < out@.len() ==> #[trigger] out@[j].shaped(),
            decreases ns@.len() - i,
        {
            let ghost before = out@;
            let w = Item::from_node(ns[i]);
            out.push(w);
            assert(views(out@) =~= views(before).push(w@));
            assert(deref_nodes(ns@.subrange(0, i + 1)) =~= deref_nodes(ns@.subrange(0, i as int)).push(*ns@[i as int]));
            i = i + 1;
        }
        assert(ns@.subrange(0, i as int) =~= ns@);
        out
    }
}

impl<'a> LetStmt<'a> {
    fn from_nodes(ns: Vec<&'a SyntaxNode>) -> (r: Vec<LetStmt<'a>>)
        ensures
            views(r@) == deref_nodes(ns@),
    {
        let mut out: Vec<LetStmt<'a>> = Vec::new();
        let mut i: usize = 0;
        while i < ns.len()
            invariant
                i <= ns@.len(),
                views(out@) == deref_nodes(ns@.subrange(0, i as int)),
            decreases ns@.len() - i,
        {
            let ghost before = out@;
            let w = LetStmt(ns[i]);
            out.push(w);
            assert(views(out@) =~= views(before).push(w@));
            assert(deref_nodes(ns@.subrange(0, i + 1)) =~= deref_nodes(ns@.subrange(0, i as int)).push(*ns@[i as int]));
            i = i + 1;
        }
        assert(ns@.subrange(0, i as int) =~= ns@);
        out
    }
}

impl<'a> MappingDecl<'a> {
    fn from_nodes(ns: Vec<&'a SyntaxNode>) -> (r: Vec<MappingDecl<'a>>)
        ensures
            views(r@) == deref_nodes(ns@),
    {
        let mut out: Vec<MappingDecl<'a>> = Vec::new();
        let mut i: usize = 0;
        while i < ns.len()
            invariant
                i <= ns@.len(),
                views(out@) == deref_nodes(ns@.subrange(0, i as int)),
            decreases ns@.len() - i,
        {
            let ghost before = out@;
            let w = MappingDecl(ns[i]);
            out.push(w);
            assert(views(out@) =~= views(before).push(w@));
            assert(deref_nodes(ns@.subrange(0, i + 1)) =~= deref_nodes(ns@.subrange(0, i as int)).push(*ns@[i as int]));
            i = i + 1;
        }
        assert(ns@.subrange(0, i as int) =~= ns@);
        out
    }
}

impl<'a> MatchArm<'a> {
    fn from_nodes(ns: Vec<&'a SyntaxNode>) -> (r: Vec<MatchArm<'a>>)
        ensures
            views(r@) == deref_nodes(ns@),
    {
        let mut out: Vec<MatchArm<'a>> = Vec::new();
        let mut i: usize = 0;
        while i < ns.len()
            invariant
                i <= ns@.len(),
                views(out@) == deref_nodes(ns@.subrange(0, i as int)),
            decreases ns@.len() - i,
        {
            let ghost before = out@;
            let w = MatchArm(ns[i]);
            out.push(w);
            assert(views(out@) =~= views(before).push(w@));
            assert(deref_nodes(ns@.subrange(0, i + 1)) =~= deref_nodes(ns@.subrange(0, i as int)).push(*ns@[i as int]));
            i = i + 1;
        }
        assert(ns@.subrange(0, i as int) =~= ns@);
        out
    }
}

impl<'a> Name<'a> {
    fn from_nodes(ns: Vec<&'a SyntaxNode>) -> (r: Vec<Name<'a>>)
        ensures
            views(r@) == deref_nodes(ns@),
    {
        let mut out: Vec<Name<'a>> = Vec::new();
        let mut i: usize = 0;
        while i < ns.len()
            invariant
                i <= ns@.len(),
                views(out@) == deref_nodes(ns@.subrange(0, i as int)),
            decreases ns@.len() - i,
        {
            let ghost before = out@;
            let w = Name(ns[i]);
            out.push(w);
            assert(views(out@) =~= views(before).push(w@));
            assert(deref_nodes(ns@.subrange(0, i + 1)) =~= deref_nodes(ns@.subrange(0, i as int)).push(*ns@[i as int]));
            i = i + 1;
        }
        assert(ns@.subrange(0, i as int) =~= ns@);
        out
    }
}

impl<'a> Pattern<'a> {
    fn from_nodes(ns: Vec<&'a SyntaxNode>) -> (r: Vec<Pattern<'a>>)
        requires
            forall|i: int| 0 <= i < ns@.len() ==> KindClass::Pattern.spec_has(#[trigger] ns@[i].kind),
        ensures
            views(r@) == deref_nodes(ns@),
            forall|i: int| 0 <= i < r@.len() ==> #[trigger] r@[i].shaped(),
    {
        let mut out: Vec<Pattern<'a>> = Vec::new();
        let mut i: usize = 0;
        while i < ns.len()
            invariant
                i <= ns@.len(),
                views(out@) == deref_nodes(ns@.subrange(0, i as int)),
                forall|j: int| 0 <= j < ns@.len() ==> KindClass::Pattern.spec_has(#[trigger] ns@[j].kind),
                forall|j: int| 0 <= j < out@.len() ==> #[trigger] out@[j].shaped(),
            decreases ns@.len() - i,
        {
            let ghost before = out@;
            let w = Pattern::from_node(ns[i]);
            out.push(w);
            assert(views(out@) =~= views(before).push(w@));
            assert(deref_nodes(ns@.subrange(0, i + 1)) =~= deref_nodes(ns@.subrange(0, i as int)).push(*ns@[i as int]));
            i = i + 1;
        }
        assert(ns@.subrange(0, i as int) =~= ns@);
        out
    }
}

impl<'a> PinFix<'a> {
    fn from_nodes(ns: Vec<&'a SyntaxNode>) -> (r: Vec<PinFix<'a>>)
        ensures
            views(r@) == deref_nodes(ns@),
    {
        let mut out: Vec<PinFix<'a>> = Vec::new();
        let mut i: usize = 0;
        while i < ns.len()
            invariant
                i <= ns@.len(),
                views(out@) == deref_nodes(ns@.subrange(0, i as int)),
            decreases ns@.len() - i,
        {
            let ghost before = out@;
            let w = PinFix(ns[i]);
            out.push(w);
            assert(views(out@) =~= views(before).push(w@));
            assert(deref_nodes(ns@.subrange(0, i + 1)) =~= deref_nodes(ns@.subrange(0, i as int)).push(*ns@[i as int]));
            i = i + 1;
        }
        assert(ns@.subrange(0, i as int) =~= ns@);
        out
    }
}

impl<'a> Type<'a> {
    fn from_nodes(ns: Vec<&'a SyntaxNode>) -> (r: Vec<Type<'a>>)
        requires
            forall|i: int| 0 <= i < ns@.len() ==> KindClass::Type.spec_has(#[trigger] ns@[i].kind),
        ensures
            views(r@) == deref_nodes(ns@),
            forall|i: int| 0 <= i < r@.len() ==> #[trigger] r@[i].shaped(),
    {
        let mut out: Vec<Type<'a>> = Vec::new();
        let mut i: usize = 0;
        while i < ns.len()
            invariant
                i <= ns@.len(),
                views(out@) == deref_nodes(ns@.subrange(0, i as int)),
                forall|j: int| 0 <= j < ns@.len() ==> KindClass::Type.spec_has(#[trigger] ns@[j].kind),
                forall|j: int| 0 <= j < out@.len() ==> #[trigger] out@[j].shaped(),
            decreases ns@.len() - i,
        {
            let ghost before = out@;
            let w = Type::from_node(ns[i]);
            out.push(w);
            assert(views(out@) =~= views(before).push(w@));
            assert(deref_nodes(ns@.subrange(0, i + 1)) =~= deref_nodes(ns@.subrange(0, i as int)).push(*ns@[i as int]));
            i = i + 1;
        }
        assert(ns@.subrange(0, i as int) =~= ns@);
        out
    }
}

} // verus!
