//! The abstract syntax tree the expression emitter consumes, and its
//! mathematical model.
use vstd::prelude::*;

verus! {

/// A surface type annotation: one of the four type names the language knows.
#[derive(Debug, Clone, Copy, PartialEq, Eq, Structural)]
pub enum TypeAst {
    I32,
    F32,
    Bool,
    Unit,
}

/// One node of the abstract syntax tree.
///
/// A source unit is a `Module` of top-level forms; a parenthesized form is a
/// `List`; a bracketed parameter list is a `Vector`; the four arithmetic
/// operator heads are their own variants.
#[derive(Debug, PartialEq)]
pub enum Ast {
    Module(Vec<Ast>),
    List(Vec<Ast>),
    Vector(Vec<Ast>),
    Symbol(String),
    SymbolWithAnnotation(String, TypeAst),
    NumberLiteral(String),
    Add,
    Sub,
    Mul,
    Div,
}

/// The mathematical shape of an AST node: strings as character sequences,
/// vectors as sequences.
pub enum AstModel {
    Module(Seq<AstModel>),
    List(Seq<AstModel>),
    Vector(Seq<AstModel>),
    Symbol(Seq<char>),
    SymbolWithAnnotation(Seq<char>, TypeAst),
    NumberLiteral(Seq<char>),
    Add,
    Sub,
    Mul,
    Div,
}

/// The model of an AST node.
pub open spec fn ast_view(a: Ast) -> AstModel
    decreases a,
{
    match a {
        Ast::Module(items) => AstModel::Module(ast_children_view(items)),
        Ast::List(items) => AstModel::List(ast_children_view(items)),
        Ast::Vector(items) => AstModel::Vector(ast_children_view(items)),
        Ast::Symbol(name) => AstModel::Symbol(name@),
        Ast::SymbolWithAnnotation(name, t) => AstModel::SymbolWithAnnotation(name@, t),
        Ast::NumberLiteral(text) => AstModel::NumberLiteral(text@),
        Ast::Add => AstModel::Add,
        Ast::Sub => AstModel::Sub,
        Ast::Mul => AstModel::Mul,
        Ast::Div => AstModel::Div,
    }
}

/// The models of a vector of AST nodes, in order.
pub open spec fn ast_children_view(items: Vec<Ast>) -> Seq<AstModel>
    decreases items,
{
    Seq::new(
        items@.len(),
        |i: int|
            if 0 <= i < items@.len() {
                ast_view(items@[i])
            } else {
                AstModel::Add
            },
    )
}

impl View for Ast {
    type V = AstModel;

    open spec fn view(&self) -> AstModel {
        ast_view(*self)
    }
}

} // verus!
