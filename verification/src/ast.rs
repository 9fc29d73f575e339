//! Declarations, functions, statements and expressions of the program
//! tree, together with the modifier accumulator used while parsing.

use vstd::prelude::*;

use crate::ident::{Ident, TypeIdent};
use crate::type_item::TypeElement;

verus! {

/// Whether a declaration is exported or keeps the enclosing visibility.
#[derive(Debug, Clone, Copy, PartialEq, Eq, Structural)]
pub enum Visibility {
    Public,
    Inherited,
}

/// Whether a `const` modifier was seen.
#[derive(Debug, Clone, Copy, PartialEq, Eq, Structural)]
pub enum Const {
    Const,
    Absent,
}

/// Whether an `async` modifier was seen.
#[derive(Debug, Clone, Copy, PartialEq, Eq, Structural)]
pub enum Async {
    Async,
    Absent,
}

/// The modifiers accumulated since the last declaration was parsed.
/// Each field may be set at most once before the next declaration
/// consumes the accumulator; a second occurrence is a parse error.
#[derive(Debug, Clone, Copy, PartialEq, Eq, Structural)]
pub struct Modifiers {
    pub visibility: Visibility,
    pub constness: Const,
    pub asyncness: Async,
}

impl Modifiers {
    /// An accumulator with no modifier set.
    pub fn new() -> (r: Modifiers)
        ensures
            r.visibility is Inherited,
            r.constness is Absent,
            r.asyncness is Absent,
    {
        Modifiers { visibility: Visibility::Inherited, constness: Const::Absent, asyncness: Async::Absent }
    }

    /// Clears every field, as done after each parsed declaration.
    pub fn reset(&mut self)
        ensures
            final(self).visibility is Inherited,
            final(self).constness is Absent,
            final(self).asyncness is Absent,
    {
        self.visibility = Visibility::Inherited;
        self.constness = Const::Absent;
        self.asyncness = Async::Absent;
    }

    pub fn has_vis_modifier(&self) -> (r: bool)
        ensures
            r == (self.visibility is Public),
    {
        matches!(self.visibility, Visibility::Public)
    }

    pub fn has_const_modifier(&self) -> (r: bool)
        ensures
            r == (self.constness is Const),
    {
        matches!(self.constness, Const::Const)
    }

    pub fn has_async_modifier(&self) -> (r: bool)
        ensures
            r == (self.asyncness is Async),
    {
        matches!(self.asyncness, Async::Async)
    }
}

impl Default for Modifiers {
    /// Same as [`Modifiers::new`].
    fn default() -> (r: Modifiers)
        ensures
            r.visibility is Inherited,
            r.constness is Absent,
            r.asyncness is Absent,
    {
        Modifiers::new()
    }
}

/// The ownership modifier of a parameter, argument or local declaration.
#[derive(Debug, Clone, Copy, PartialEq, Eq, Structural)]
pub enum DeclModifier {
    Let,
    Mut,
    Ref,
}

/// One parameter of a function signature. The implicit receiver is the
/// parameter whose identifier is `self`; it is distinguished by that
/// identity, not by a separate field.
#[derive(Debug, PartialEq, Eq)]
pub struct Param {
    pub identifier: Ident,
    pub param_type: TypeElement,
    pub decl_modifier: Option<DeclModifier>,
}

/// The parameters of a function signature, in declaration order.
#[derive(Debug, PartialEq, Eq)]
pub struct ParamList {
    pub params: Vec<Param>,
}

/// The callable surface of a function: visibility, name, parameters and
/// optional return type.
#[derive(Debug, PartialEq, Eq)]
pub struct FnSignature {
    pub visibility: Visibility,
    pub identifier: Ident,
    pub parameters: ParamList,
    pub return_type: Option<TypeElement>,
}

impl FnSignature {
    /// Whether this signature has a receiver: a first parameter of a
    /// bare plain type. A function with a receiver is a member of that
    /// type; any other function is free.
    pub open spec fn spec_receiver(&self) -> Option<Param> {
        if self.parameters.params@.len() > 0 && self.parameters.params@[0].param_type is Plain {
            Some(self.parameters.params@[0])
        } else {
            None
        }
    }

    /// The receiver parameter, if this signature has one.
    pub fn receiver(&self) -> (r: Option<&Param>)
        ensures
            match r {
                Some(p) => self.spec_receiver() == Some(*p),
                None => self.spec_receiver() is None,
            },
    {
        if self.parameters.params.len() > 0 {
            let p = &self.parameters.params[0];
            if matches!(p.param_type, TypeElement::Plain(_)) {
                Some(p)
            } else {
                None
            }
        } else {
            None
        }
    }
}

/// A function declaration: its signature and its body.
#[derive(Debug, PartialEq, Eq)]
pub struct FnDecl {
    pub signature: FnSignature,
    pub body: Block,
}

/// A braced sequence of statements.
#[derive(Debug, PartialEq, Eq)]
pub struct Block {
    pub statements: Vec<Statement>,
}

/// One statement of a function body.
#[derive(Debug, PartialEq, Eq)]
pub enum Statement {
    Assignment(Assignment),
    Expression(Expression),
    Declaration(Declaration),
}

/// An assignment to an already-declared place.
#[derive(Debug, PartialEq, Eq)]
pub struct Assignment {
    pub target: Expression,
    pub expression: Expression,
}

/// A local variable declaration.
#[derive(Debug, PartialEq, Eq)]
pub struct Declaration {
    pub decl_modifier: DeclModifier,
    pub identifier: Ident,
    pub type_annotation: Option<TypeElement>,
    pub expression: Option<Expression>,
}

/// One expression of the source language.
#[derive(Debug, PartialEq, Eq)]
pub enum Expression {
    FunctionCall(FunctionCall),
    ConstructorCall(ConstructorCall),
    MemberFunctionCall(MemberFunctionCall),
    MemberFieldAccess(MemberFieldAccess),
    StringLiteral(StringLiteral),
    NumberLiteral(NumberLiteral),
    Ident(Ident),
}

/// A call of a free function.
#[derive(Debug, PartialEq, Eq)]
pub struct FunctionCall {
    pub identifier: Ident,
    pub arguments: Vec<FunctionCallArg>,
}

/// One argument at a call site, with its optional ownership modifier.
#[derive(Debug, PartialEq, Eq)]
pub struct FunctionCallArg {
    pub modifier: Option<DeclModifier>,
    pub expression: Expression,
}

/// A call of a member function on a receiver expression.
#[derive(Debug, PartialEq, Eq)]
pub struct MemberFunctionCall {
    pub receiver: Box<Expression>,
    pub identifier: Ident,
    pub arguments: Vec<FunctionCallArg>,
}

/// A field access on a receiver expression.
#[derive(Debug, PartialEq, Eq)]
pub struct MemberFieldAccess {
    pub receiver: Box<Expression>,
    pub identifier: Ident,
}

/// A record constructor call.
#[derive(Debug, PartialEq, Eq)]
pub struct ConstructorCall {
    pub identifier: TypeIdent,
    pub arguments: Vec<ConstructorCallArg>,
}

/// One named field argument of a constructor call.
#[derive(Debug, PartialEq, Eq)]
pub struct ConstructorCallArg {
    pub ident: Ident,
    pub expression: Expression,
}

/// A string literal, stored with its surrounding quotes.
#[derive(Debug, PartialEq, Eq)]
pub struct StringLiteral {
    pub text: String,
}

/// A number literal, stored as written.
#[derive(Debug, PartialEq, Eq)]
pub struct NumberLiteral {
    pub text: String,
}

/// The body of a main, test or task entry. Statement-level parsing of
/// entry bodies is not part of this core, so the body carries no data.
#[derive(Debug, PartialEq, Eq, Structural)]
pub struct Body {

}

/// The program's entry point declaration.
#[derive(Debug, PartialEq, Eq, Structural)]
pub struct MainDecl {
    pub body: Body,
}

/// A test entry declaration with an optional description.
#[derive(Debug, PartialEq, Eq)]
pub struct TestDecl {
    pub name: Option<StringLiteral>,
    pub body: Body,
}

/// A named task entry declaration.
#[derive(Debug, PartialEq, Eq)]
pub struct TaskDecl {
    pub ident: Ident,
    pub body: Body,
}

/// A type declaration: a record, a positional tuple, or an alias.
#[derive(Debug, PartialEq, Eq)]
pub enum TypeDecl {
    TupleType(TupleTypeDecl),
    StructType(StructTypeDecl),
    AliasType(AliasTypeDecl),
}

impl TypeDecl {
    /// The declared type name.
    pub open spec fn spec_ident(&self) -> TypeIdent {
        match self {
            TypeDecl::TupleType(t) => t.ident,
            TypeDecl::StructType(s) => s.ident,
            TypeDecl::AliasType(a) => a.ident,
        }
    }

    /// The declared type name.
    pub fn ident(&self) -> (r: &TypeIdent)
        ensures
            *r == self.spec_ident(),
    {
        match self {
            TypeDecl::TupleType(t) => &t.ident,
            TypeDecl::StructType(s) => &s.ident,
            TypeDecl::AliasType(a) => &a.ident,
        }
    }

    /// The declared visibility.
    pub open spec fn spec_visibility(&self) -> Visibility {
        match self {
            TypeDecl::TupleType(t) => t.visibility,
            TypeDecl::StructType(s) => s.visibility,
            TypeDecl::AliasType(a) => a.visibility,
        }
    }
}

/// A positional tuple type declaration.
#[derive(Debug, PartialEq, Eq)]
pub struct TupleTypeDecl {
    pub visibility: Visibility,
    pub ident: TypeIdent,
    pub members: Vec<TupleTypeMember>,
}

/// One positional member of a tuple type.
#[derive(Debug, PartialEq, Eq)]
pub struct TupleTypeMember {
    pub visibility: Visibility,
    pub ty: TypeElement,
}

/// A record type declaration with named members.
#[derive(Debug, PartialEq, Eq)]
pub struct StructTypeDecl {
    pub visibility: Visibility,
    pub ident: TypeIdent,
    pub members: Vec<StructTypeMember>,
}

/// One named member of a record type.
#[derive(Debug, PartialEq, Eq)]
pub struct StructTypeMember {
    pub visibility: Visibility,
    pub ident: Ident,
    pub ty: TypeElement,
}

/// A type alias declaration.
#[derive(Debug, PartialEq, Eq)]
pub struct AliasTypeDecl {
    pub visibility: Visibility,
    pub ident: TypeIdent,
    pub ty: TypeElement,
}

/// One top-level item of a translation unit, carrying the modifier
/// snapshot that was active when its declaration keyword was seen.
#[derive(Debug, PartialEq, Eq)]
pub enum RootItem {
    Fn(FnDecl),
    Type(TypeDecl),
    Main(MainDecl),
    Test(TestDecl),
}

/// One parsed translation unit: its top-level items in source order.
#[derive(Debug, PartialEq, Eq)]
pub struct Ast {
    pub items: Vec<RootItem>,
}

/// Marker for the receiver position of a signature.
#[derive(Debug, PartialEq, Eq, Structural)]
pub struct ReceiverType {

}

/// Marker for the return position of a signature.
#[derive(Debug, PartialEq, Eq, Structural)]
pub struct ReturnType {

}

/// Marker for a parameter position of a signature.
#[derive(Debug, PartialEq, Eq, Structural)]
pub struct ParamType {

}

} // verus!
