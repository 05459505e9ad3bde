//! The compilation errors. All are fatal to the current compilation; none is
//! caught or downgraded internally.
use crate::resolver::Type;
use vstd::prelude::*;

verus! {

/// An arithmetic operator head, `Minus` being the one-operand form of `-`.
#[derive(Debug, Clone, Copy, PartialEq, Eq, Structural)]
pub enum Operator {
    Add,
    Sub,
    Mul,
    Div,
    Minus,
}

/// Which operand of an operator an error is about.
#[derive(Debug, Clone, Copy, PartialEq, Eq, Structural)]
pub enum OperandSide {
    First,
    Second,
}

/// How the structural shape of a declaration misses the expected grammar.
#[derive(Debug, Clone, Copy, PartialEq, Eq, Structural)]
pub enum FormDefect {
    /// A top-level form or the emitter's argument is not a list.
    NotAList,
    /// The whole unit handed to emission is not a module node.
    NotAModule,
    /// An empty list where an operator or call form was expected.
    EmptyList,
    /// `defn` is missing after `export`.
    MissingDefn,
    /// A declaration list starts with neither `export` nor `defn`.
    MissingHeadSymbol,
    /// No (annotated) name symbol after `defn`.
    MissingName,
    /// No parameter vector after the function name.
    MissingParamVector,
    /// A parameter is not a symbol annotated with a type.
    UnannotatedParam,
    /// More parameters than local slot indices can address.
    TooManyParams,
    /// A colon with no readable type name after it.
    MissingAnnotation,
    /// A type name that resolves to no known type.
    UnknownTypeName,
    /// A closer or colon where a form was expected.
    UnexpectedToken,
}

/// A recognized but unimplemented construct.
#[derive(Debug, Clone, Copy, PartialEq, Eq, Structural)]
pub enum Construct {
    /// A `let` binding form.
    LetBinding,
    /// A list head that is neither an arithmetic operator nor a call target.
    ListHead,
    /// An expression node kind the emitter does not lower.
    Expression,
    /// A top-level form that does not start with a symbol.
    TopLevel,
}

/// A fatal compilation error, carrying the data that identifies its cause.
#[derive(Debug, Clone, PartialEq)]
pub enum CompileError {
    /// A literal that parses as neither integer nor floating point.
    NumberFormat { literal: String },
    /// A symbol with no matching environment entry.
    UnboundSymbol { name: String },
    /// A call target absent from the function table at the call point.
    UnknownFunction { name: String },
    /// A wrong operand count for an arithmetic operator.
    Arity { op: Operator },
    /// An operand of unsupported type, named together with its operator.
    TypeMismatch { op: Operator, operand: OperandSide, found: Type },
    /// A function body's final value type disagreeing with the declared one.
    ReturnTypeMismatch { expected: Type, found: Type },
    /// A declaration whose shape does not match the grammar.
    MalformedForm { defect: FormDefect },
    /// A recognized but unimplemented form.
    UnsupportedConstruct { construct: Construct },
}

/// The mathematical shape of a compilation error, strings as character
/// sequences.
pub enum ErrModel {
    NumberFormat(Seq<char>),
    UnboundSymbol(Seq<char>),
    UnknownFunction(Seq<char>),
    Arity(Operator),
    TypeMismatch(Operator, OperandSide, Type),
    ReturnTypeMismatch(Type, Type),
    MalformedForm(FormDefect),
    UnsupportedConstruct(Construct),
}

impl View for CompileError {
    type V = ErrModel;

    open spec fn view(&self) -> ErrModel {
        match self {
            CompileError::NumberFormat { literal } => ErrModel::NumberFormat(literal@),
            CompileError::UnboundSymbol { name } => ErrModel::UnboundSymbol(name@),
            CompileError::UnknownFunction { name } => ErrModel::UnknownFunction(name@),
            CompileError::Arity { op } => ErrModel::Arity(*op),
            CompileError::TypeMismatch { op, operand, found } => ErrModel::TypeMismatch(
                *op,
                *operand,
                *found,
            ),
            CompileError::ReturnTypeMismatch { expected, found } => ErrModel::ReturnTypeMismatch(
                *expected,
                *found,
            ),
            CompileError::MalformedForm { defect } => ErrModel::MalformedForm(*defect),
            CompileError::UnsupportedConstruct { construct } => ErrModel::UnsupportedConstruct(
                *construct,
            ),
        }
    }
}

} // verus!
