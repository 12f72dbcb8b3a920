//! The typed tree: a program after name resolution and type checking.
//!
//! Every name is a [`Symbol`], every expression carries its type, and a field
//! access names the field by its index in the struct.
use crate::position::{Span, Spanned};
pub use crate::syntax::{BinaryOp, FunctionType, Literal, Number, Signedness, Size, UnaryOp};
use std::rc::Rc;
use vstd::prelude::*;

verus! {

/// The unique identifier that name resolution gave to a name.
#[derive(Clone, Copy, Debug, PartialEq, Eq, PartialOrd, Ord, Hash, Structural)]
pub struct Symbol(pub u32);

/// A type variable that type inference has not replaced.
#[derive(Clone, Copy, Debug, PartialEq, Eq, PartialOrd, Ord, Hash, Structural)]
pub struct TypeVar(pub u32);

#[derive(Debug, PartialEq, Eq)]
pub enum Type {
    Var(TypeVar),
    Bool,
    Int(Signedness, Size),
    Concrete(Symbol, Rc<[Type]>),
    Pointer(Rc<Type>),
    Function(Rc<[Type]>, Rc<Type>),
    Error,
}

/// A name with its type: a parameter of a function or a field of a struct.
#[derive(Debug, PartialEq, Eq)]
pub struct Var {
    pub name: Symbol,
    pub typ: Type,
}

#[derive(Debug)]
pub enum Expr {
    Binary(TypedExpr, Spanned<BinaryOp>, TypedExpr),
    Unary(Spanned<UnaryOp>, TypedExpr),
    Call(TypedExpr, Vec<TypedExpr>),
    Field(TypedExpr, Spanned<usize>),
    Name(Spanned<Symbol>, Vec<Spanned<Type>>),
    Literal(Literal),
    Error,
}

#[derive(Debug)]
pub struct TypedExpr {
    pub expr: Box<Expr>,
    pub span: Span,
    pub typ: Type,
}

#[derive(Debug)]
pub enum Statement {
    If(TypedExpr, Box<Spanned<Statement>>, Option<Box<Spanned<Statement>>>),
    Loop(Box<Spanned<Statement>>),
    While(TypedExpr, Box<Spanned<Statement>>),
    Break,
    Continue,
    Return(TypedExpr),
    Let(Spanned<Symbol>, Spanned<Type>, TypedExpr),
    Block(Vec<Spanned<Statement>>),
    Expr(TypedExpr),
}

/// A function. Without a body it is only declared here and defined elsewhere.
#[derive(Debug)]
pub struct Function {
    pub fn_type: FunctionType,
    pub name: Symbol,
    pub type_params: Vec<Symbol>,
    pub params: Vec<Var>,
    pub return_type: Type,
    pub body: Option<Spanned<Statement>>,
}

/// A struct declaration. The order of `fields` is the one field indices refer to.
#[derive(Debug, PartialEq, Eq)]
pub struct Struct {
    pub name: Symbol,
    pub type_params: Vec<Symbol>,
    pub fields: Vec<Var>,
}

#[derive(Debug)]
pub struct Program {
    pub structs: Vec<Struct>,
    pub functions: Vec<Function>,
}

/// What a [`Struct`] holds, with its lists as sequences.
pub struct StructView {
    pub name: Symbol,
    pub type_params: Seq<Symbol>,
    pub fields: Seq<Var>,
}

/// `Rc::clone` of std: the result is a second pointer to the allocation that
/// `this` points to, so both hold the same value.
#[verifier::external_body]
fn share<T: ?Sized>(this: &Rc<T>) -> (res: Rc<T>)
    ensures
        res == *this,
{
    Rc::clone(this)
}

impl Clone for Type {
    /// A copy that shares the argument lists with `self`.
    fn clone(&self) -> (r: Self)
        ensures
            r == *self,
    {
        match self {
            Type::Var(v) => Type::Var(*v),
            Type::Bool => Type::Bool,
            Type::Int(sign, size) => Type::Int(*sign, *size),
            Type::Concrete(name, args) => Type::Concrete(*name, share(args)),
            Type::Pointer(to) => Type::Pointer(share(to)),
            Type::Function(params, out) => Type::Function(share(params), share(out)),
            Type::Error => Type::Error,
        }
    }
}

impl Type {
    /// Signedness and width, if this is an integer type.
    pub open spec fn int_parts(self) -> Option<(Signedness, Size)> {
        match self {
            Type::Int(sign, size) => Some((sign, size)),
            _ => None,
        }
    }
}

impl Clone for Var {
    fn clone(&self) -> (r: Self)
        ensures
            r == *self,
    {
        Var { name: self.name, typ: self.typ.clone() }
    }
}

impl View for Struct {
    type V = StructView;

    open spec fn view(&self) -> StructView {
        StructView { name: self.name, type_params: self.type_params@, fields: self.fields@ }
    }
}

impl Clone for Struct {
    fn clone(&self) -> (r: Self)
        ensures
            r@ == self@,
    {
        let mut type_params: Vec<Symbol> = Vec::new();
        let mut i: usize = 0;
        while i < self.type_params.len()
            invariant
                i <= self.type_params.len(),
                type_params@ == self.type_params@.take(i as int),
            decreases self.type_params.len() - i,
        {
            type_params.push(self.type_params[i]);
            assert(self.type_params@.take(i + 1) == self.type_params@.take(i as int).push(
                self.type_params@[i as int],
            ));
            i = i + 1;
        }
        let mut fields: Vec<Var> = Vec::new();
        let mut j: usize = 0;
        while j < self.fields.len()
            invariant
                j <= self.fields.len(),
                type_params@ == self.type_params@.take(i as int),
                i == self.type_params.len(),
                fields@ == self.fields@.take(j as int),
            decreases self.fields.len() - j,
        {
            fields.push(self.fields[j].clone());
            assert(self.fields@.take(j + 1) == self.fields@.take(j as int).push(
                self.fields@[j as int],
            ));
            j = j + 1;
        }
        assert(self.type_params@.take(i as int) == self.type_params@);
        assert(self.fields@.take(j as int) == self.fields@);
        Struct { name: self.name, type_params, fields }
    }
}

} // verus!
