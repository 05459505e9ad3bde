//! Resolution of surface type annotations to semantic types, and dissolution
//! of semantic types into physical stack slots.
use crate::ast::TypeAst;
use crate::emitter::PrimitiveType;
use vstd::prelude::*;

verus! {

/// A semantic type of the language. `Bool` shares `I32`'s physical
/// representation; `Unit` stands for "no value".
#[derive(Debug, Clone, Copy, PartialEq, Eq, Structural)]
pub enum Type {
    I32,
    F32,
    Bool,
    Unit,
}

/// Scope for named type symbols. The language has no type definitions yet,
/// so the table stays empty; it is threaded through resolution for the day
/// it does not.
pub struct TypeEnv {
    pub entries: Vec<(String, Type)>,
}

impl Default for TypeEnv {
    /// An empty type environment.
    fn default() -> (r: TypeEnv)
        ensures
            r.entries@.len() == 0,
    {
        TypeEnv { entries: Vec::new() }
    }
}

/// The semantic type an annotation resolves to: a total, 1:1 mapping with no
/// failure case.
pub open spec fn spec_resolve_type(t: TypeAst) -> Type {
    match t {
        TypeAst::I32 => Type::I32,
        TypeAst::F32 => Type::F32,
        TypeAst::Bool => Type::Bool,
        TypeAst::Unit => Type::Unit,
    }
}

/// Maps a surface annotation to its semantic type.
pub fn resolve_type(t: &TypeAst, _type_env: &TypeEnv) -> (r: Type)
    ensures
        r == spec_resolve_type(*t),
{
    match t {
        TypeAst::I32 => Type::I32,
        TypeAst::F32 => Type::F32,
        TypeAst::Bool => Type::Bool,
        TypeAst::Unit => Type::Unit,
    }
}

/// The physical stack slots a semantic type occupies: one `I32` slot for
/// `I32` and `Bool`, one `F32` slot for `F32`, none for `Unit`.
pub open spec fn spec_dissolve_type(t: Type) -> Seq<PrimitiveType> {
    match t {
        Type::I32 | Type::Bool => seq![PrimitiveType::I32],
        Type::F32 => seq![PrimitiveType::F32],
        Type::Unit => Seq::empty(),
    }
}

/// Dissolves a semantic type into its sequence of stack-slot types.
pub fn dissolve_type(t: &Type) -> (r: Vec<PrimitiveType>)
    ensures
        r@ == spec_dissolve_type(*t),
{
    let mut r: Vec<PrimitiveType> = Vec::new();
    match t {
        Type::I32 | Type::Bool => {
            r.push(PrimitiveType::I32);
        },
        Type::F32 => {
            r.push(PrimitiveType::F32);
        },
        Type::Unit => {},
    }
    proof {
        assert(r@ =~= spec_dissolve_type(*t));
    }
    r
}

} // verus!
