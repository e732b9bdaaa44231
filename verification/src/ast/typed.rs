//! What every typed view offers: the node it views, that node's span and
//! its text.
use super::nodes::{
    ArgList, BinaryExpr, BindDecl, BindEnd, BinderExpr, BlockExpr, CallExpr, ClockDecl, ClockTag,
    ComponentBody, ComponentDecl, ComponentItem, ConceptDecl, ConstructorPattern, DeviceBody,
    DeviceDecl, DriveDecl, EnumDecl, EnumVariant, ExportDecl, Expr, Formula, FunctionType,
    IdentPattern, IfExpr, InstanceArg, InstanceBody, InstanceDecl, Item, LambdaExpr, LambdaParams,
    LetStmt, ListExpr, LiteralExpr, LiteralPattern, MappingDecl, MappingDef, MatchArm,
    MatchArmList, MatchExpr, Module, Name, NameExpr, NameRef, NamedType, OutputDecl,
    ParamClockDecl, ParamList, ParenExpr, ParenType, Pattern, PatternList, PinFix, PortDecl,
    RangeExpr, SlotExpr, TupleExpr, TupleType, Type, TypeArgList, TypeList, TypeParamList,
    UnaryExpr, UnitExpr, UnitSuffix, UnitType, UseDecl, WildcardPattern,
};
use crate::span::Span;
use crate::syntax::{node_text, SyntaxNode};
use vstd::prelude::*;

verus! {

/// A typed view of one node.
pub trait AstNode<'a>: View<V = SyntaxNode> + Sized {
    /// The node viewed.
    fn node(&self) -> (r: &'a SyntaxNode)
        ensures
            *r == self@,
    ;

    /// The byte span of the node.
    fn span(&self) -> (r: Span)
        ensures
            r == self@.span,
    {
        self.node().span
    }

    /// The source text the node covers.
    fn text(&self) -> (r: String)
        ensures
            r@ == node_text(self@),
    {
        self.node().text()
    }
}

impl<'a> AstNode<'a> for Module<'a> {
    fn node(&self) -> (r: &'a SyntaxNode) {
        self.0
    }
}

impl<'a> AstNode<'a> for Formula<'a> {
    fn node(&self) -> (r: &'a SyntaxNode) {
        self.0
    }
}

impl<'a> AstNode<'a> for Name<'a> {
    fn node(&self) -> (r: &'a SyntaxNode) {
        self.0
    }
}

impl<'a> AstNode<'a> for NameRef<'a> {
    fn node(&self) -> (r: &'a SyntaxNode) {
        self.0
    }
}

impl<'a> AstNode<'a> for ConceptDecl<'a> {
    fn node(&self) -> (r: &'a SyntaxNode) {
        self.0
    }
}

impl<'a> AstNode<'a> for MappingDecl<'a> {
    fn node(&self) -> (r: &'a SyntaxNode) {
        self.0
    }
}

impl<'a> AstNode<'a> for MappingDef<'a> {
    fn node(&self) -> (r: &'a SyntaxNode) {
        self.0
    }
}

impl<'a> AstNode<'a> for EnumDecl<'a> {
    fn node(&self) -> (r: &'a SyntaxNode) {
        self.0
    }
}

impl<'a> AstNode<'a> for EnumVariant<'a> {
    fn node(&self) -> (r: &'a SyntaxNode) {
        self.0
    }
}

impl<'a> AstNode<'a> for TypeParamList<'a> {
    fn node(&self) -> (r: &'a SyntaxNode) {
        self.0
    }
}

impl<'a> AstNode<'a> for ParamList<'a> {
    fn node(&self) -> (r: &'a SyntaxNode) {
        self.0
    }
}

impl<'a> AstNode<'a> for ClockDecl<'a> {
    fn node(&self) -> (r: &'a SyntaxNode) {
        self.0
    }
}

impl<'a> AstNode<'a> for ClockTag<'a> {
    fn node(&self) -> (r: &'a SyntaxNode) {
        self.0
    }
}

impl<'a> AstNode<'a> for OutputDecl<'a> {
    fn node(&self) -> (r: &'a SyntaxNode) {
        self.0
    }
}

impl<'a> AstNode<'a> for DriveDecl<'a> {
    fn node(&self) -> (r: &'a SyntaxNode) {
        self.0
    }
}

impl<'a> AstNode<'a> for DeviceDecl<'a> {
    fn node(&self) -> (r: &'a SyntaxNode) {
        self.0
    }
}

impl<'a> AstNode<'a> for DeviceBody<'a> {
    fn node(&self) -> (r: &'a SyntaxNode) {
        self.0
    }
}

impl<'a> AstNode<'a> for PinFix<'a> {
    fn node(&self) -> (r: &'a SyntaxNode) {
        self.0
    }
}

impl<'a> AstNode<'a> for ComponentDecl<'a> {
    fn node(&self) -> (r: &'a SyntaxNode) {
        self.0
    }
}

impl<'a> AstNode<'a> for ComponentBody<'a> {
    fn node(&self) -> (r: &'a SyntaxNode) {
        self.0
    }
}

impl<'a> AstNode<'a> for UseDecl<'a> {
    fn node(&self) -> (r: &'a SyntaxNode) {
        self.0
    }
}

impl<'a> AstNode<'a> for ParamClockDecl<'a> {
    fn node(&self) -> (r: &'a SyntaxNode) {
        self.0
    }
}

impl<'a> AstNode<'a> for PortDecl<'a> {
    fn node(&self) -> (r: &'a SyntaxNode) {
        self.0
    }
}

impl<'a> AstNode<'a> for InstanceDecl<'a> {
    fn node(&self) -> (r: &'a SyntaxNode) {
        self.0
    }
}

impl<'a> AstNode<'a> for InstanceBody<'a> {
    fn node(&self) -> (r: &'a SyntaxNode) {
        self.0
    }
}

impl<'a> AstNode<'a> for InstanceArg<'a> {
    fn node(&self) -> (r: &'a SyntaxNode) {
        self.0
    }
}

impl<'a> AstNode<'a> for BindDecl<'a> {
    fn node(&self) -> (r: &'a SyntaxNode) {
        self.0
    }
}

impl<'a> AstNode<'a> for BindEnd<'a> {
    fn node(&self) -> (r: &'a SyntaxNode) {
        self.0
    }
}

impl<'a> AstNode<'a> for ExportDecl<'a> {
    fn node(&self) -> (r: &'a SyntaxNode) {
        self.0
    }
}

impl<'a> AstNode<'a> for NamedType<'a> {
    fn node(&self) -> (r: &'a SyntaxNode) {
        self.0
    }
}

impl<'a> AstNode<'a> for FunctionType<'a> {
    fn node(&self) -> (r: &'a SyntaxNode) {
        self.0
    }
}

impl<'a> AstNode<'a> for ParenType<'a> {
    fn node(&self) -> (r: &'a SyntaxNode) {
        self.0
    }
}

impl<'a> AstNode<'a> for UnitType<'a> {
    fn node(&self) -> (r: &'a SyntaxNode) {
        self.0
    }
}

impl<'a> AstNode<'a> for TupleType<'a> {
    fn node(&self) -> (r: &'a SyntaxNode) {
        self.0
    }
}

impl<'a> AstNode<'a> for TypeArgList<'a> {
    fn node(&self) -> (r: &'a SyntaxNode) {
        self.0
    }
}

impl<'a> AstNode<'a> for TypeList<'a> {
    fn node(&self) -> (r: &'a SyntaxNode) {
        self.0
    }
}

impl<'a> AstNode<'a> for SlotExpr<'a> {
    fn node(&self) -> (r: &'a SyntaxNode) {
        self.0
    }
}

impl<'a> AstNode<'a> for UnitExpr<'a> {
    fn node(&self) -> (r: &'a SyntaxNode) {
        self.0
    }
}

impl<'a> AstNode<'a> for BinderExpr<'a> {
    fn node(&self) -> (r: &'a SyntaxNode) {
        self.0
    }
}

impl<'a> AstNode<'a> for RangeExpr<'a> {
    fn node(&self) -> (r: &'a SyntaxNode) {
        self.0
    }
}

impl<'a> AstNode<'a> for ListExpr<'a> {
    fn node(&self) -> (r: &'a SyntaxNode) {
        self.0
    }
}

impl<'a> AstNode<'a> for TupleExpr<'a> {
    fn node(&self) -> (r: &'a SyntaxNode) {
        self.0
    }
}

impl<'a> AstNode<'a> for LambdaExpr<'a> {
    fn node(&self) -> (r: &'a SyntaxNode) {
        self.0
    }
}

impl<'a> AstNode<'a> for LambdaParams<'a> {
    fn node(&self) -> (r: &'a SyntaxNode) {
        self.0
    }
}

impl<'a> AstNode<'a> for NameExpr<'a> {
    fn node(&self) -> (r: &'a SyntaxNode) {
        self.0
    }
}

impl<'a> AstNode<'a> for LiteralExpr<'a> {
    fn node(&self) -> (r: &'a SyntaxNode) {
        self.0
    }
}

impl<'a> AstNode<'a> for UnitSuffix<'a> {
    fn node(&self) -> (r: &'a SyntaxNode) {
        self.0
    }
}

impl<'a> AstNode<'a> for ParenExpr<'a> {
    fn node(&self) -> (r: &'a SyntaxNode) {
        self.0
    }
}

impl<'a> AstNode<'a> for CallExpr<'a> {
    fn node(&self) -> (r: &'a SyntaxNode) {
        self.0
    }
}

impl<'a> AstNode<'a> for ArgList<'a> {
    fn node(&self) -> (r: &'a SyntaxNode) {
        self.0
    }
}

impl<'a> AstNode<'a> for UnaryExpr<'a> {
    fn node(&self) -> (r: &'a SyntaxNode) {
        self.0
    }
}

impl<'a> AstNode<'a> for BinaryExpr<'a> {
    fn node(&self) -> (r: &'a SyntaxNode) {
        self.0
    }
}

impl<'a> AstNode<'a> for IfExpr<'a> {
    fn node(&self) -> (r: &'a SyntaxNode) {
        self.0
    }
}

impl<'a> AstNode<'a> for MatchExpr<'a> {
    fn node(&self) -> (r: &'a SyntaxNode) {
        self.0
    }
}

impl<'a> AstNode<'a> for MatchArmList<'a> {
    fn node(&self) -> (r: &'a SyntaxNode) {
        self.0
    }
}

impl<'a> AstNode<'a> for MatchArm<'a> {
    fn node(&self) -> (r: &'a SyntaxNode) {
        self.0
    }
}

impl<'a> AstNode<'a> for BlockExpr<'a> {
    fn node(&self) -> (r: &'a SyntaxNode) {
        self.0
    }
}

impl<'a> AstNode<'a> for LetStmt<'a> {
    fn node(&self) -> (r: &'a SyntaxNode) {
        self.0
    }
}

impl<'a> AstNode<'a> for WildcardPattern<'a> {
    fn node(&self) -> (r: &'a SyntaxNode) {
        self.0
    }
}

impl<'a> AstNode<'a> for IdentPattern<'a> {
    fn node(&self) -> (r: &'a SyntaxNode) {
        self.0
    }
}

impl<'a> AstNode<'a> for LiteralPattern<'a> {
    fn node(&self) -> (r: &'a SyntaxNode) {
        self.0
    }
}

impl<'a> AstNode<'a> for ConstructorPattern<'a> {
    fn node(&self) -> (r: &'a SyntaxNode) {
        self.0
    }
}

impl<'a> AstNode<'a> for PatternList<'a> {
    fn node(&self) -> (r: &'a SyntaxNode) {
        self.0
    }
}

impl<'a> AstNode<'a> for Item<'a> {
    fn node(&self) -> (r: &'a SyntaxNode) {
        self.syntax()
    }
}

impl<'a> AstNode<'a> for ComponentItem<'a> {
    fn node(&self) -> (r: &'a SyntaxNode) {
        self.syntax()
    }
}

impl<'a> AstNode<'a> for Type<'a> {
    fn node(&self) -> (r: &'a SyntaxNode) {
        self.syntax()
    }
}

impl<'a> AstNode<'a> for Expr<'a> {
    fn node(&self) -> (r: &'a SyntaxNode) {
        self.syntax()
    }
}

impl<'a> AstNode<'a> for Pattern<'a> {
    fn node(&self) -> (r: &'a SyntaxNode) {
        self.syntax()
    }
}

} // verus!
