//! The module model and the expression emitter: lowering expression trees to
//! a linear opcode sequence with implicit numeric widening, interning
//! structurally equal signatures, and building the function and export
//! tables.
use crate::ast::{ast_children_view, ast_view, Ast, AstModel, TypeAst};
use crate::env::{spec_env_lookup, Env, Pointer, Variable};
use crate::error::{CompileError, Construct, ErrModel, FormDefect, OperandSide, Operator};
use crate::literal::{parse_i32_text, spec_parse_i32};
use crate::parser::{parse_source, spec_parse_source};
use crate::resolver::{
    dissolve_type, resolve_type, spec_dissolve_type, spec_resolve_type, Type, TypeEnv,
};
use crate::util::str_eq;
use vstd::prelude::*;

verus! {

/// The kind of an exported item; functions are the only kind supported.
#[derive(Debug, Clone, Copy, PartialEq, Eq, Structural)]
pub enum ExportKind {
    Func,
}

/// A physical stack-slot type of the target machine.
#[derive(Debug, Clone, Copy, PartialEq, Eq, Structural)]
pub enum PrimitiveType {
    I32,
    F32,
}

impl PrimitiveType {
    /// The binary type code: 0x7F for I32, 0x6F for F32.
    pub open spec fn spec_code(self) -> u8 {
        match self {
            PrimitiveType::I32 => 0x7F,
            PrimitiveType::F32 => 0x6F,
        }
    }

    /// Writes the binary type code.
    pub fn code(&self) -> (r: u8)
        ensures
            r == self.spec_code(),
    {
        match self {
            PrimitiveType::I32 => 0x7F,
            PrimitiveType::F32 => 0x6F,
        }
    }
}

/// One exported item: its kind, its name, and the function it references.
#[derive(Debug, Clone, PartialEq)]
pub struct Export {
    pub export_type: ExportKind,
    pub name: String,
    pub func_index: u32,
}

/// The model of an export, the name as a character sequence.
#[verifier::ext_equal]
pub struct ExportModel {
    pub export_type: ExportKind,
    pub name: Seq<char>,
    pub func_index: u32,
}

impl View for Export {
    type V = ExportModel;

    open spec fn view(&self) -> ExportModel {
        ExportModel { export_type: self.export_type, name: self.name@, func_index: self.func_index }
    }
}

/// The kind of a signature; function signatures are the only kind.
#[derive(Debug, Clone, Copy, PartialEq, Eq, Structural)]
pub enum SignatureType {
    Func,
}

impl SignatureType {
    /// The binary signature-kind code: 0x60 for a function signature.
    pub open spec fn spec_code(self) -> u8 {
        match self {
            SignatureType::Func => 0x60,
        }
    }

    /// Writes the binary signature-kind code.
    pub fn code(&self) -> (r: u8)
        ensures
            r == self.spec_code(),
    {
        match self {
            SignatureType::Func => 0x60,
        }
    }
}

/// A physical function signature: ordered parameter and result slot types.
/// Signatures are value types, compared structurally.
#[derive(Debug, Clone, PartialEq)]
pub struct Signature {
    pub sig_type: SignatureType,
    pub params: Vec<PrimitiveType>,
    pub results: Vec<PrimitiveType>,
}

/// The model of a signature, slot lists as sequences.
#[verifier::ext_equal]
pub struct SigModel {
    pub sig_type: SignatureType,
    pub params: Seq<PrimitiveType>,
    pub results: Seq<PrimitiveType>,
}

impl View for Signature {
    type V = SigModel;

    open spec fn view(&self) -> SigModel {
        SigModel { sig_type: self.sig_type, params: self.params@, results: self.results@ }
    }
}

/// Structural equality of signature models.
pub open spec fn sig_model_eq(a: SigModel, b: SigModel) -> bool {
    a.sig_type == b.sig_type && a.params == b.params && a.results == b.results
}

/// One instruction of the stack machine. `F32Const` carries the constant's
/// IEEE-754 bit pattern, which serializes to the same four bytes as the
/// float value itself.
#[derive(Debug, Clone, Copy, PartialEq, Eq, Structural)]
pub enum OpCode {
    Drop,
    End,
    LocalDeclCount(u8),
    LocalGet(u8),
    Call(u32),
    I32Const(i32),
    F32Const(u32),
    I32Add,
    I32Sub,
    I32Mul,
    I32Div,
    F32Add,
    F32Sub,
    F32Mul,
    F32Div,
    F32Neg,
    F32ConvertI32S,
}

/// One compiled function: its interned signature index, its semantic
/// argument and result types, and its opcode body.
#[derive(Debug, PartialEq)]
pub struct Function {
    pub signature_index: u32,
    pub arg_types: Vec<Type>,
    pub result_type: Type,
    pub body: Vec<OpCode>,
}

/// The model of one compiled function together with its declared name.
#[verifier::ext_equal]
pub struct FuncModel {
    pub name: Seq<char>,
    pub signature_index: u32,
    pub arg_types: Seq<Type>,
    pub result_type: Type,
    pub body: Seq<OpCode>,
}

/// The compiled unit: interned signatures in index order, functions in
/// declaration order, and the export list.
#[derive(Debug)]
pub struct Module {
    pub signatures: Vec<Signature>,
    pub exports: Vec<Export>,
    pub functions: Vec<Function>,
    pub function_names: Vec<String>,
}

/// The model of a module. A function's index is its position in `funcs`; a
/// signature's interned index is its position in `signatures`.
#[verifier::ext_equal]
pub struct ModuleModel {
    pub signatures: Seq<SigModel>,
    pub exports: Seq<ExportModel>,
    pub funcs: Seq<FuncModel>,
}

impl View for Module {
    type V = ModuleModel;

    open spec fn view(&self) -> ModuleModel {
        ModuleModel {
            signatures: self.signatures@.map_values(|s: Signature| s@),
            exports: self.exports@.map_values(|e: Export| e@),
            funcs: Seq::new(
                self.functions@.len(),
                |i: int|
                    FuncModel {
                        name: if 0 <= i < self.function_names@.len() {
                            self.function_names@[i]@
                        } else {
                            Seq::empty()
                        },
                        signature_index: self.functions@[i].signature_index,
                        arg_types: self.functions@[i].arg_types@,
                        result_type: self.functions@[i].result_type,
                        body: self.functions@[i].body@,
                    },
            ),
        }
    }
}

/// Well-formedness of a module model: interned signatures are pairwise
/// distinct, every function's signature index and every export's function
/// index point into their tables, and no more signatures exist than
/// functions that could have interned them.
pub open spec fn wf_module(m: ModuleModel) -> bool {
    &&& forall|i: int, j: int|
        0 <= i < j < m.signatures.len() ==> !sig_model_eq(m.signatures[i], m.signatures[j])
    &&& forall|i: int|
        0 <= i < m.funcs.len() ==> (#[trigger] m.funcs[i]).signature_index < m.signatures.len()
    &&& forall|i: int|
        0 <= i < m.exports.len() ==> (#[trigger] m.exports[i]).func_index < m.funcs.len()
    &&& m.signatures.len() <= m.funcs.len()
}

impl Module {
    /// The model of an empty module.
    pub open spec fn spec_empty() -> ModuleModel {
        ModuleModel { signatures: Seq::empty(), exports: Seq::empty(), funcs: Seq::empty() }
    }
}

/// The parallel name and function tables of the concrete module line up.
pub open spec fn wf_module_repr(m: &Module) -> bool {
    m.function_names@.len() == m.functions@.len()
}

impl Default for Module {
    /// An empty module: no signatures, no functions, no exports.
    fn default() -> (r: Module)
        ensures
            r@ == Module::spec_empty(),
            wf_module(r@),
            wf_module_repr(&r),
    {
        let r = Module {
            signatures: Vec::new(),
            exports: Vec::new(),
            functions: Vec::new(),
            function_names: Vec::new(),
        };
        proof {
            assert(r@ =~= Module::spec_empty());
        }
        r
    }
}

/// The operator an arithmetic list head stands for, if it is one.
pub open spec fn spec_head_operator(h: AstModel) -> Option<Operator> {
    match h {
        AstModel::Add => Some(Operator::Add),
        AstModel::Sub => Some(Operator::Sub),
        AstModel::Mul => Some(Operator::Mul),
        AstModel::Div => Some(Operator::Div),
        _ => None,
    }
}

/// The integer opcode of a binary operator.
pub open spec fn spec_i32_opcode(op: Operator) -> OpCode {
    match op {
        Operator::Add => OpCode::I32Add,
        Operator::Sub => OpCode::I32Sub,
        Operator::Mul => OpCode::I32Mul,
        Operator::Div => OpCode::I32Div,
        Operator::Minus => arbitrary(),
    }
}

/// The float opcode of a binary operator.
pub open spec fn spec_f32_opcode(op: Operator) -> OpCode {
    match op {
        Operator::Add => OpCode::F32Add,
        Operator::Sub => OpCode::F32Sub,
        Operator::Mul => OpCode::F32Mul,
        Operator::Div => OpCode::F32Div,
        Operator::Minus => arbitrary(),
    }
}

/// Whether a semantic type is numeric, the only kinds arithmetic accepts.
pub open spec fn spec_is_numeric(t: Type) -> bool {
    t == Type::I32 || t == Type::F32
}

/// Index of the function named `name` in the table, the newest declaration
/// winning.
pub open spec fn spec_lookup_function(funcs: Seq<FuncModel>, name: Seq<char>) -> Option<int>
    decreases funcs.len(),
{
    if funcs.len() == 0 {
        None
    } else if funcs.last().name == name {
        Some(funcs.len() - 1)
    } else {
        spec_lookup_function(funcs.drop_last(), name)
    }
}

/// Combines two emitted operands of a binary operator per the coercion
/// table: equal numeric types keep their own opcode; a mixed I32/F32 pair
/// widens the I32 side with a conversion placed right after that side's own
/// code and uses the F32 opcode; a non-numeric operand is a type mismatch
/// naming the side.
pub open spec fn spec_combine_bin(
    op: Operator,
    lc: Seq<OpCode>,
    lt: Type,
    rc: Seq<OpCode>,
    rt: Type,
) -> Result<(Seq<OpCode>, Type), ErrModel> {
    if !spec_is_numeric(lt) {
        Err(ErrModel::TypeMismatch(op, OperandSide::First, lt))
    } else if !spec_is_numeric(rt) {
        Err(ErrModel::TypeMismatch(op, OperandSide::Second, rt))
    } else if lt == Type::I32 && rt == Type::I32 {
        Ok((lc + rc + seq![spec_i32_opcode(op)], Type::I32))
    } else {
        let lc2 = if lt == Type::I32 {
            lc + seq![OpCode::F32ConvertI32S]
        } else {
            lc
        };
        let rc2 = if rt == Type::I32 {
            rc + seq![OpCode::F32ConvertI32S]
        } else {
            rc
        };
        Ok((lc2 + rc2 + seq![spec_f32_opcode(op)], Type::F32))
    }
}

/// Combines the emitted operand of a unary minus: F32 negates in place; I32
/// subtracts the operand from a zero pushed first, there being no dedicated
/// integer negate; anything else is a type mismatch.
pub open spec fn spec_combine_unary(c: Seq<OpCode>, t: Type) -> Result<
    (Seq<OpCode>, Type),
    ErrModel,
> {
    match t {
        Type::F32 => Ok((c + seq![OpCode::F32Neg], Type::F32)),
        Type::I32 => Ok((seq![OpCode::I32Const(0)] + c + seq![OpCode::I32Sub], Type::I32)),
        _ => Err(ErrModel::TypeMismatch(Operator::Minus, OperandSide::First, t)),
    }
}

/// The opcodes an expression lowers to and the semantic type of the value
/// they leave on the stack, or the first error met. Operands of a binary
/// operator are emitted left before right; a call emits its arguments in
/// order, unchecked against the callee, then the call itself.
pub open spec fn spec_emit_obj(
    ast: AstModel,
    env: Seq<(Seq<char>, Variable)>,
    funcs: Seq<FuncModel>,
) -> Result<(Seq<OpCode>, Type), ErrModel>
    decreases ast, 1int,
{
    match ast {
        AstModel::NumberLiteral(text) => match spec_parse_i32(text) {
            Some(v) => Ok((seq![OpCode::I32Const(v)], Type::I32)),
            None => Err(ErrModel::NumberFormat(text)),
        },
        AstModel::Symbol(name) => match spec_env_lookup(env, name) {
            None => Err(ErrModel::UnboundSymbol(name)),
            Some(v) => match v.pointer {
                Pointer::Local(slot) => Ok((seq![OpCode::LocalGet(slot)], v.t)),
            },
        },
        AstModel::List(items) => {
            if items.len() == 0 {
                Err(ErrModel::MalformedForm(FormDefect::EmptyList))
            } else if spec_head_operator(items[0]) is Some {
                let op = spec_head_operator(items[0])->0;
                if op == Operator::Sub && items.len() == 2 {
                    match spec_emit_obj(items[1], env, funcs) {
                        Err(e) => Err(e),
                        Ok(p) => spec_combine_unary(p.0, p.1),
                    }
                } else if items.len() == 3 {
                    match spec_emit_obj(items[1], env, funcs) {
                        Err(e) => Err(e),
                        Ok(l) => match spec_emit_obj(items[2], env, funcs) {
                            Err(e) => Err(e),
                            Ok(r) => spec_combine_bin(op, l.0, l.1, r.0, r.1),
                        },
                    }
                } else {
                    Err(ErrModel::Arity(op))
                }
            } else {
                match items[0] {
                    AstModel::Symbol(name) => {
                        if name == "let"@ {
                            Err(ErrModel::UnsupportedConstruct(Construct::LetBinding))
                        } else {
                            match spec_lookup_function(funcs, name) {
                                None => Err(ErrModel::UnknownFunction(name)),
                                Some(idx) => match spec_emit_args(items, 1, env, funcs) {
                                    Err(e) => Err(e),
                                    Ok(argcodes) => Ok(
                                        (
                                            argcodes + seq![OpCode::Call(idx as u32)],
                                            funcs[idx].result_type,
                                        ),
                                    ),
                                },
                            }
                        }
                    },
                    _ => Err(ErrModel::UnsupportedConstruct(Construct::ListHead)),
                }
            }
        },
        _ => Err(ErrModel::UnsupportedConstruct(Construct::Expression)),
    }
}

/// The opcodes of the call arguments `items[i..]`, emitted in order.
pub open spec fn spec_emit_args(
    items: Seq<AstModel>,
    i: int,
    env: Seq<(Seq<char>, Variable)>,
    funcs: Seq<FuncModel>,
) -> Result<Seq<OpCode>, ErrModel>
    decreases items, (items.len() - i),
{
    if i < 0 || i >= items.len() {
        Ok(Seq::empty())
    } else {
        match spec_emit_obj(items[i], env, funcs) {
            Err(e) => Err(e),
            Ok(p) => match spec_emit_args(items, i + 1, env, funcs) {
                Err(e) => Err(e),
                Ok(rest) => Ok(p.0 + rest),
            },
        }
    }
}

/// One `Drop` per stack slot an unused value of type `t` occupies.
pub open spec fn spec_drops(t: Type) -> Seq<OpCode> {
    Seq::new(spec_dissolve_type(t).len(), |i: int| OpCode::Drop)
}

/// The opcodes of the body forms `items[i..]`: every form but the last is
/// drained with one `Drop` per slot it left; the last form is drained too
/// when the declared result type is `Unit`, and must otherwise leave exactly
/// the declared result type.
pub open spec fn spec_emit_body(
    items: Seq<AstModel>,
    i: int,
    env: Seq<(Seq<char>, Variable)>,
    funcs: Seq<FuncModel>,
    result_type: Type,
) -> Result<Seq<OpCode>, ErrModel>
    decreases items, (items.len() - i),
{
    if i < 0 || i >= items.len() {
        Ok(Seq::empty())
    } else {
        match spec_emit_obj(items[i], env, funcs) {
            Err(e) => Err(e),
            Ok(p) => {
                if i == items.len() - 1 {
                    if result_type == Type::Unit {
                        Ok(p.0 + spec_drops(p.1))
                    } else if p.1 != result_type {
                        Err(ErrModel::ReturnTypeMismatch(result_type, p.1))
                    } else {
                        Ok(p.0)
                    }
                } else {
                    match spec_emit_body(items, i + 1, env, funcs, result_type) {
                        Err(e) => Err(e),
                        Ok(rest) => Ok(p.0 + spec_drops(p.1) + rest),
                    }
                }
            },
        }
    }
}

/// The parameter list as (name, annotation) pairs; a parameter that is not
/// an annotated symbol is a defect.
pub open spec fn spec_collect_params(ps: Seq<AstModel>) -> Result<
    Seq<(Seq<char>, TypeAst)>,
    ErrModel,
>
    decreases ps.len(),
{
    if ps.len() == 0 {
        Ok(Seq::empty())
    } else {
        match ps[0] {
            AstModel::SymbolWithAnnotation(name, t) => match spec_collect_params(
                ps.drop_first(),
            ) {
                Err(e) => Err(e),
                Ok(rest) => Ok(seq![(name, t)] + rest),
            },
            _ => Err(ErrModel::MalformedForm(FormDefect::UnannotatedParam)),
        }
    }
}

/// The environment of one function: each parameter bound to the local slot
/// of its position, in declaration order.
pub open spec fn spec_param_env(params: Seq<(Seq<char>, TypeAst)>) -> Seq<(Seq<char>, Variable)> {
    Seq::new(
        params.len(),
        |i: int|
            (
                params[i].0,
                Variable { pointer: Pointer::Local(i as u8), t: spec_resolve_type(params[i].1) },
            ),
    )
}

/// The physical parameter slots: each argument type dissolved, concatenated
/// in order.
pub open spec fn spec_concat_dissolve(ts: Seq<Type>) -> Seq<PrimitiveType>
    decreases ts.len(),
{
    if ts.len() == 0 {
        Seq::empty()
    } else {
        spec_dissolve_type(ts[0]) + spec_concat_dissolve(ts.drop_first())
    }
}

/// Index of a structurally equal interned signature, if one exists; the
/// first (and, in a well-formed module, only) match.
pub open spec fn spec_find_signature(sigs: Seq<SigModel>, s: SigModel) -> Option<int>
    decreases sigs.len(),
{
    if sigs.len() == 0 {
        None
    } else if sig_model_eq(sigs[0], s) {
        Some(0)
    } else {
        match spec_find_signature(sigs.drop_first(), s) {
            Some(i) => Some(i + 1),
            None => None,
        }
    }
}

/// The module after one `defn` whose meaningful items start at `base`: the
/// parameters become locals 0.., the body is emitted between a local
/// declaration count of zero and an `End`, the physical signature is
/// interned (reusing an index on structural match), the function is appended
/// at the next declaration index, and an export entry referencing it is
/// appended when the declaration is marked exported.
pub open spec fn spec_emit_defn(
    items: Seq<AstModel>,
    base: int,
    is_export: bool,
    m: ModuleModel,
) -> Result<ModuleModel, ErrModel> {
    if items.len() <= base {
        Err(ErrModel::MalformedForm(FormDefect::MissingName))
    } else {
        let name_r = match items[base] {
            AstModel::SymbolWithAnnotation(s, t) => Ok((s, t)),
            AstModel::Symbol(s) => Ok((s, TypeAst::Unit)),
            _ => Err(ErrModel::MalformedForm(FormDefect::MissingName)),
        };
        match name_r {
            Err(e) => Err(e),
            Ok((name, rt_ast)) => {
                if items.len() <= base + 1 {
                    Err(ErrModel::MalformedForm(FormDefect::MissingParamVector))
                } else {
                    let params_r = match items[base + 1] {
                        AstModel::Vector(ps) => Ok(ps),
                        AstModel::List(ps) => Ok(ps),
                        _ => Err(ErrModel::MalformedForm(FormDefect::MissingParamVector)),
                    };
                    match params_r {
                        Err(e) => Err(e),
                        Ok(ps) => match spec_collect_params(ps) {
                            Err(e) => Err(e),
                            Ok(params) => {
                                if params.len() > 255 {
                                    Err(ErrModel::MalformedForm(FormDefect::TooManyParams))
                                } else {
                                    let env = spec_param_env(params);
                                    let arg_types = Seq::new(
                                        params.len(),
                                        |i: int| spec_resolve_type(params[i].1),
                                    );
                                    let result_type = spec_resolve_type(rt_ast);
                                    match spec_emit_body(
                                        items,
                                        base + 2,
                                        env,
                                        m.funcs,
                                        result_type,
                                    ) {
                                        Err(e) => Err(e),
                                        Ok(body_codes) => {
                                            let body = seq![OpCode::LocalDeclCount(0u8)]
                                                + body_codes + seq![OpCode::End];
                                            let sig = SigModel {
                                                sig_type: SignatureType::Func,
                                                params: spec_concat_dissolve(arg_types),
                                                results: spec_dissolve_type(result_type),
                                            };
                                            let found = spec_find_signature(m.signatures, sig);
                                            let sigs2 = if found is Some {
                                                m.signatures
                                            } else {
                                                m.signatures.push(sig)
                                            };
                                            let sidx = if found is Some {
                                                found->0
                                            } else {
                                                m.signatures.len() as int
                                            };
                                            let fm = FuncModel {
                                                name: name,
                                                signature_index: sidx as u32,
                                                arg_types: arg_types,
                                                result_type: result_type,
                                                body: body,
                                            };
                                            let exports2 = if is_export {
                                                m.exports.push(
                                                    ExportModel {
                                                        export_type: ExportKind::Func,
                                                        name: name,
                                                        func_index: m.funcs.len() as u32,
                                                    },
                                                )
                                            } else {
                                                m.exports
                                            };
                                            Ok(
                                                ModuleModel {
                                                    signatures: sigs2,
                                                    exports: exports2,
                                                    funcs: m.funcs.push(fm),
                                                },
                                            )
                                        },
                                    }
                                }
                            },
                        },
                    }
                }
            },
        }
    }
}

/// The module after one top-level form, which must be a function declaration
/// list headed by `export` or `defn`.
pub open spec fn spec_emit_func(ast: AstModel, m: ModuleModel) -> Result<ModuleModel, ErrModel> {
    match ast {
        AstModel::List(items) => {
            if items.len() == 0 {
                Err(ErrModel::MalformedForm(FormDefect::EmptyList))
            } else {
                match items[0] {
                    AstModel::Symbol(head) => {
                        if head == "export"@ {
                            if items.len() < 2 || items[1] != AstModel::Symbol("defn"@) {
                                Err(ErrModel::MalformedForm(FormDefect::MissingDefn))
                            } else {
                                spec_emit_defn(items, 2, true, m)
                            }
                        } else if head == "defn"@ {
                            spec_emit_defn(items, 1, false, m)
                        } else {
                            Err(ErrModel::MalformedForm(FormDefect::MissingHeadSymbol))
                        }
                    },
                    _ => Err(ErrModel::UnsupportedConstruct(Construct::TopLevel)),
                }
            }
        },
        _ => Err(ErrModel::MalformedForm(FormDefect::NotAList)),
    }
}

/// The module after the top-level forms `tops[i..]`, emitted in source
/// order, each seeing the function table the forms before it built.
pub open spec fn spec_emit_toplevels(tops: Seq<AstModel>, i: int, m: ModuleModel) -> Result<
    ModuleModel,
    ErrModel,
>
    decreases tops.len() - i,
{
    if i < 0 || i >= tops.len() {
        Ok(m)
    } else {
        match spec_emit_func(tops[i], m) {
            Err(e) => Err(e),
            Ok(m2) => spec_emit_toplevels(tops, i + 1, m2),
        }
    }
}

/// The module a whole source unit emits into `m`.
pub open spec fn spec_emit_module(ast: AstModel, m: ModuleModel) -> Result<ModuleModel, ErrModel> {
    match ast {
        AstModel::Module(tops) => spec_emit_toplevels(tops, 0, m),
        _ => Err(ErrModel::MalformedForm(FormDefect::NotAModule)),
    }
}

/// The module a whole source text compiles to: the text parsed, then every
/// top-level declaration emitted into `m` in source order; or the first
/// error the pipeline meets.
pub open spec fn spec_emit_source(s: Seq<char>, m: ModuleModel) -> Result<ModuleModel, ErrModel> {
    match spec_parse_source(s) {
        Err(e) => Err(e),
        Ok(ast) => spec_emit_module(ast, m),
    }
}

/// Compares two signatures structurally.
fn prim_vec_eq(a: &Vec<PrimitiveType>, b: &Vec<PrimitiveType>) -> (r: bool)
    ensures
        r == (a@ == b@),
{
    if a.len() != b.len() {
        return false;
    }
    let mut i: usize = 0;
    while i < a.len()
        invariant
            i <= a@.len(),
            a@.len() == b@.len(),
            forall|j: int| 0 <= j < i ==> a@[j] == b@[j],
        decreases a@.len() - i,
    {
        let same = match (&a[i], &b[i]) {
            (PrimitiveType::I32, PrimitiveType::I32) => true,
            (PrimitiveType::F32, PrimitiveType::F32) => true,
            _ => false,
        };
        if !same {
            return false;
        }
        i = i + 1;
    }
    proof {
        assert(a@ =~= b@);
    }
    true
}

/// Structural equality of signatures, the interning table's notion of
/// sameness.
fn sig_equal(a: &Signature, b: &Signature) -> (r: bool)
    ensures
        r == sig_model_eq(a@, b@),
{
    let kinds = match (&a.sig_type, &b.sig_type) {
        (SignatureType::Func, SignatureType::Func) => true,
    };
    kinds && prim_vec_eq(&a.params, &b.params) && prim_vec_eq(&a.results, &b.results)
}

/// First interned signature from position `i` on that structurally equals
/// `sig`.
fn find_signature_from(sigs: &Vec<Signature>, i: usize, sig: &Signature) -> (r: Option<usize>)
    requires
        i <= sigs@.len(),
    ensures
        (match r {
            Some(j) => i <= j < sigs@.len() && spec_find_signature(
                sigs@.map_values(|s: Signature| s@).skip(i as int),
                sig@,
            ) == Some(j - i),
            None => spec_find_signature(
                sigs@.map_values(|s: Signature| s@).skip(i as int),
                sig@,
            ) is None,
        }),
    decreases sigs@.len() - i,
{
    let ghost model = sigs@.map_values(|s: Signature| s@);
    if i >= sigs.len() {
        proof {
            assert(model.skip(i as int) =~= Seq::<SigModel>::empty());
        }
        None
    } else if sig_equal(&sigs[i], sig) {
        proof {
            assert(model.skip(i as int)[0] == model[i as int]);
        }
        Some(i)
    } else {
        proof {
            assert(model.skip(i as int)[0] == model[i as int]);
            assert(model.skip(i as int).drop_first() =~= model.skip(i + 1));
        }
        find_signature_from(sigs, i + 1, sig)
    }
}

/// Interns `sig`: reuses the index of a structurally equal signature, or
/// assigns the next index. Nothing else of the module changes.
fn intern_signature(m: &mut Module, sig: Signature) -> (r: u32)
    ensures
        final(m).functions == old(m).functions,
        final(m).function_names == old(m).function_names,
        final(m).exports == old(m).exports,
        (match spec_find_signature(old(m)@.signatures, sig@) {
            Some(i) => final(m)@.signatures == old(m)@.signatures && r == i as u32,
            None => final(m)@.signatures =~= old(m)@.signatures.push(sig@) && r == (
            old(m)@.signatures.len() as u32),
        }),
{
    proof {
        assert(m.signatures@.map_values(|s: Signature| s@).skip(0) =~= m@.signatures);
    }
    match find_signature_from(&m.signatures, 0, &sig) {
        Some(j) => {
            let r = #[verifier::truncate] (j as u32);
            r
        },
        None => {
            let r = #[verifier::truncate] (m.signatures.len() as u32);
            m.signatures.push(sig);
            proof {
                assert(m@.signatures =~= old(m)@.signatures.push(sig@));
            }
            r
        },
    }
}

/// Function-table lookup by declared name, newest declaration first.
fn lookup_function(m: &Module, name: &str) -> (r: Option<usize>)
    requires
        wf_module_repr(m),
    ensures
        (match r {
            Some(i) => i < m.functions@.len() && spec_lookup_function(m@.funcs, name@) == Some(
                i as int,
            ),
            None => spec_lookup_function(m@.funcs, name@) is None,
        }),
{
    let mut i: usize = m.function_names.len();
    proof {
        assert(m@.funcs.take(i as int) =~= m@.funcs);
    }
    while i > 0
        invariant
            wf_module_repr(m),
            i <= m.functions@.len(),
            spec_lookup_function(m@.funcs, name@) == spec_lookup_function(
                m@.funcs.take(i as int),
                name@,
            ),
        decreases i,
    {
        i = i - 1;
        proof {
            assert(m@.funcs.take(i + 1).last() == m@.funcs[i as int]);
            assert(m@.funcs[i as int].name == m.function_names@[i as int]@);
        }
        if str_eq(m.function_names[i].as_str(), name) {
            return Some(i);
        }
        proof {
            assert(m@.funcs.take(i + 1).drop_last() =~= m@.funcs.take(i as int));
        }
    }
    proof {
        assert(m@.funcs.take(0) =~= Seq::<FuncModel>::empty());
    }
    None
}

/// The integer opcode of a binary operator.
fn i32_opcode(op: Operator) -> (r: OpCode)
    requires
        op != Operator::Minus,
    ensures
        r == spec_i32_opcode(op),
{
    match op {
        Operator::Add => OpCode::I32Add,
        Operator::Sub => OpCode::I32Sub,
        Operator::Mul => OpCode::I32Mul,
        Operator::Div => OpCode::I32Div,
        Operator::Minus => OpCode::I32Sub,
    }
}

/// The float opcode of a binary operator.
fn f32_opcode(op: Operator) -> (r: OpCode)
    requires
        op != Operator::Minus,
    ensures
        r == spec_f32_opcode(op),
{
    match op {
        Operator::Add => OpCode::F32Add,
        Operator::Sub => OpCode::F32Sub,
        Operator::Mul => OpCode::F32Mul,
        Operator::Div => OpCode::F32Div,
        Operator::Minus => OpCode::F32Sub,
    }
}

/// Combines the emitted operand of a unary minus.
fn combine_unary(c: Vec<OpCode>, t: Type) -> (r: Result<(Vec<OpCode>, Type), CompileError>)
    ensures
        (match r {
            Ok(p) => spec_combine_unary(c@, t) == Ok::<(Seq<OpCode>, Type), ErrModel>((p.0@, p.1)),
            Err(e) => spec_combine_unary(c@, t) == Err::<(Seq<OpCode>, Type), ErrModel>(e@),
        }),
{
    let ghost c0 = c@;
    match t {
        Type::F32 => {
            let mut out = c;
            out.push(OpCode::F32Neg);
            proof {
                assert(out@ =~= c0 + seq![OpCode::F32Neg]);
            }
            Ok((out, Type::F32))
        },
        Type::I32 => {
            let mut out: Vec<OpCode> = Vec::new();
            out.push(OpCode::I32Const(0));
            let mut rest = c;
            out.append(&mut rest);
            out.push(OpCode::I32Sub);
            proof {
                assert(out@ =~= seq![OpCode::I32Const(0)] + c0 + seq![OpCode::I32Sub]);
            }
            Ok((out, Type::I32))
        },
        _ => Err(
            CompileError::TypeMismatch {
                op: Operator::Minus,
                operand: OperandSide::First,
                found: t,
            },
        ),
    }
}

/// Combines two emitted operands of a binary operator per the coercion
/// table.
fn combine_bin(op: Operator, lc: Vec<OpCode>, lt: Type, rc: Vec<OpCode>, rt: Type) -> (r: Result<
    (Vec<OpCode>, Type),
    CompileError,
>)
    requires
        op != Operator::Minus,
    ensures
        (match r {
            Ok(p) => spec_combine_bin(op, lc@, lt, rc@, rt) == Ok::<(Seq<OpCode>, Type), ErrModel>(
                (p.0@, p.1),
            ),
            Err(e) => spec_combine_bin(op, lc@, lt, rc@, rt) == Err::<
                (Seq<OpCode>, Type),
                ErrModel,
            >(e@),
        }),
{
    let ghost lc0 = lc@;
    let ghost rc0 = rc@;
    let numeric_l = match lt {
        Type::I32 | Type::F32 => true,
        _ => false,
    };
    if !numeric_l {
        return Err(CompileError::TypeMismatch { op, operand: OperandSide::First, found: lt });
    }
    let numeric_r = match rt {
        Type::I32 | Type::F32 => true,
        _ => false,
    };
    if !numeric_r {
        return Err(CompileError::TypeMismatch { op, operand: OperandSide::Second, found: rt });
    }
    let both_i32 = match (lt, rt) {
        (Type::I32, Type::I32) => true,
        _ => false,
    };
    if both_i32 {
        let mut out = lc;
        let mut rest = rc;
        out.append(&mut rest);
        out.push(i32_opcode(op));
        proof {
            assert(out@ =~= lc0 + rc0 + seq![spec_i32_opcode(op)]);
        }
        Ok((out, Type::I32))
    } else {
        let l_is_i32 = match lt {
            Type::I32 => true,
            _ => false,
        };
        let r_is_i32 = match rt {
            Type::I32 => true,
            _ => false,
        };
        let mut out = lc;
        if l_is_i32 {
            out.push(OpCode::F32ConvertI32S);
        }
        let mut rest = rc;
        if r_is_i32 {
            rest.push(OpCode::F32ConvertI32S);
        }
        let ghost lc2 = if lt == Type::I32 {
            lc0 + seq![OpCode::F32ConvertI32S]
        } else {
            lc0
        };
        let ghost rc2 = if rt == Type::I32 {
            rc0 + seq![OpCode::F32ConvertI32S]
        } else {
            rc0
        };
        proof {
            assert(out@ =~= lc2);
            assert(rest@ =~= rc2);
        }
        out.append(&mut rest);
        out.push(f32_opcode(op));
        proof {
            assert(out@ =~= lc2 + rc2 + seq![spec_f32_opcode(op)]);
        }
        Ok((out, Type::F32))
    }
}

/// Lowers one expression: the opcodes it emits and the type of the value
/// they leave on the stack, or the first error met.
fn emit_obj(ast: &Ast, env: &Env, m: &Module) -> (r: Result<(Vec<OpCode>, Type), CompileError>)
    requires
        wf_module_repr(m),
    ensures
        (match r {
            Ok(p) => spec_emit_obj(ast@, env@, m@.funcs) == Ok::<(Seq<OpCode>, Type), ErrModel>(
                (p.0@, p.1),
            ),
            Err(e) => spec_emit_obj(ast@, env@, m@.funcs) == Err::<(Seq<OpCode>, Type), ErrModel>(
                e@,
            ),
        }),
    decreases *ast, 1int,
{
    match ast {
        Ast::NumberLiteral(text) => match parse_i32_text(text.as_str()) {
            Some(v) => {
                let mut codes: Vec<OpCode> = Vec::new();
                codes.push(OpCode::I32Const(v));
                proof {
                    assert(codes@ =~= seq![OpCode::I32Const(v)]);
                }
                Ok((codes, Type::I32))
            },
            None => Err(CompileError::NumberFormat { literal: text.clone() }),
        },
        Ast::Symbol(name) => match env.get(name.as_str()) {
            None => Err(CompileError::UnboundSymbol { name: name.clone() }),
            Some(v) => match v.pointer {
                Pointer::Local(slot) => {
                    let mut codes: Vec<OpCode> = Vec::new();
                    codes.push(OpCode::LocalGet(slot));
                    proof {
                        assert(codes@ =~= seq![OpCode::LocalGet(slot)]);
                    }
                    Ok((codes, v.t))
                },
            },
        },
        Ast::List(items) => {
            proof {
                assert(ast@ == AstModel::List(ast_children_view(*items)));
            }
            if items.len() == 0 {
                return Err(CompileError::MalformedForm { defect: FormDefect::EmptyList });
            }
            proof {
                assert(ast_children_view(*items)[0] == ast_view(items@[0]));
            }
            let op_opt: Option<Operator> = match &items[0] {
                Ast::Add => Some(Operator::Add),
                Ast::Sub => Some(Operator::Sub),
                Ast::Mul => Some(Operator::Mul),
                Ast::Div => Some(Operator::Div),
                _ => None,
            };
            match op_opt {
                Some(op) => {
                    let is_unary = match op {
                        Operator::Sub => items.len() == 2,
                        _ => false,
                    };
                    if is_unary {
                        proof {
                            assert(ast_children_view(*items)[1] == ast_view(items@[1]));
                        }
                        match emit_obj(&items[1], env, m) {
                            Err(e) => Err(e),
                            Ok(p) => combine_unary(p.0, p.1),
                        }
                    } else if items.len() == 3 {
                        proof {
                            assert(ast_children_view(*items)[1] == ast_view(items@[1]));
                            assert(ast_children_view(*items)[2] == ast_view(items@[2]));
                        }
                        match emit_obj(&items[1], env, m) {
                            Err(e) => Err(e),
                            Ok(l) => match emit_obj(&items[2], env, m) {
                                Err(e) => Err(e),
                                Ok(rr) => combine_bin(op, l.0, l.1, rr.0, rr.1),
                            },
                        }
                    } else {
                        Err(CompileError::Arity { op })
                    }
                },
                None => match &items[0] {
                    Ast::Symbol(name) => {
                        if str_eq(name.as_str(), "let") {
                            Err(
                                CompileError::UnsupportedConstruct {
                                    construct: Construct::LetBinding,
                                },
                            )
                        } else {
                            match lookup_function(m, name.as_str()) {
                                None => Err(CompileError::UnknownFunction { name: name.clone() }),
                                Some(idx) => {
                                    let result_type = m.functions[idx].result_type;
                                    match emit_args(items, 1, env, m) {
                                        Err(e) => Err(e),
                                        Ok(argcodes) => {
                                            let ghost a0 = argcodes@;
                                            let mut codes = argcodes;
                                            let target = #[verifier::truncate] (idx as u32);
                                            codes.push(OpCode::Call(target));
                                            proof {
                                                assert(codes@ =~= a0 + seq![OpCode::Call(target)]);
                                            }
                                            Ok((codes, result_type))
                                        },
                                    }
                                },
                            }
                        }
                    },
                    _ => Err(
                        CompileError::UnsupportedConstruct { construct: Construct::ListHead },
                    ),
                },
            }
        },
        _ => Err(CompileError::UnsupportedConstruct { construct: Construct::Expression }),
    }
}

/// Emits the call arguments `items[i..]` in order.
fn emit_args(items: &Vec<Ast>, i: usize, env: &Env, m: &Module) -> (r: Result<
    Vec<OpCode>,
    CompileError,
>)
    requires
        wf_module_repr(m),
    ensures
        (match r {
            Ok(codes) => spec_emit_args(ast_children_view(*items), i as int, env@, m@.funcs)
                == Ok::<Seq<OpCode>, ErrModel>(codes@),
            Err(e) => spec_emit_args(ast_children_view(*items), i as int, env@, m@.funcs) == Err::<
                Seq<OpCode>,
                ErrModel,
            >(e@),
        }),
    decreases *items, (items@.len() - i),
{
    if i >= items.len() {
        let codes: Vec<OpCode> = Vec::new();
        proof {
            assert(codes@ =~= Seq::<OpCode>::empty());
        }
        Ok(codes)
    } else {
        proof {
            assert(ast_children_view(*items)[i as int] == ast_view(items@[i as int]));
        }
        match emit_obj(&items[i], env, m) {
            Err(e) => Err(e),
            Ok(p) => match emit_args(items, i + 1, env, m) {
                Err(e) => Err(e),
                Ok(rest) => {
                    let mut codes = p.0;
                    let mut rest2 = rest;
                    codes.append(&mut rest2);
                    Ok(codes)
                },
            },
        }
    }
}

/// Emits the body forms `items[i..]`, draining unused values and checking
/// the last form against the declared result type.
fn emit_body(
    items: &Vec<Ast>,
    i: usize,
    env: &Env,
    m: &Module,
    result_type: Type,
) -> (r: Result<Vec<OpCode>, CompileError>)
    requires
        wf_module_repr(m),
    ensures
        (match r {
            Ok(codes) => spec_emit_body(
                ast_children_view(*items),
                i as int,
                env@,
                m@.funcs,
                result_type,
            ) == Ok::<Seq<OpCode>, ErrModel>(codes@),
            Err(e) => spec_emit_body(
                ast_children_view(*items),
                i as int,
                env@,
                m@.funcs,
                result_type,
            ) == Err::<Seq<OpCode>, ErrModel>(e@),
        }),
    decreases *items, (items@.len() - i),
{
    if i >= items.len() {
        let codes: Vec<OpCode> = Vec::new();
        proof {
            assert(codes@ =~= Seq::<OpCode>::empty());
        }
        Ok(codes)
    } else {
        proof {
            assert(ast_children_view(*items)[i as int] == ast_view(items@[i as int]));
        }
        match emit_obj(&items[i], env, m) {
            Err(e) => Err(e),
            Ok(p) => {
                let (form_codes, t) = p;
                let last = i == items.len() - 1;
                if last {
                    if match result_type {
                        Type::Unit => true,
                        _ => false,
                    } {
                        let mut codes = form_codes;
                        let ghost base = codes@;
                        let slots = dissolve_type(&t);
                        let mut k: usize = 0;
                        while k < slots.len()
                            invariant
                                k <= slots@.len(),
                                slots@ == spec_dissolve_type(t),
                                codes@ =~= base + spec_drops(t).take(k as int),
                            decreases slots@.len() - k,
                        {
                            codes.push(OpCode::Drop);
                            k = k + 1;
                        }
                        proof {
                            assert(codes@ =~= base + spec_drops(t));
                        }
                        Ok(codes)
                    } else {
                        let same = match (t, result_type) {
                            (Type::I32, Type::I32) => true,
                            (Type::F32, Type::F32) => true,
                            (Type::Bool, Type::Bool) => true,
                            (Type::Unit, Type::Unit) => true,
                            _ => false,
                        };
                        if !same {
                            Err(
                                CompileError::ReturnTypeMismatch {
                                    expected: result_type,
                                    found: t,
                                },
                            )
                        } else {
                            Ok(form_codes)
                        }
                    }
                } else {
                    let mut codes = form_codes;
                    let ghost base = codes@;
                    let slots = dissolve_type(&t);
                    let mut k: usize = 0;
                    while k < slots.len()
                        invariant
                            k <= slots@.len(),
                            slots@ == spec_dissolve_type(t),
                            codes@ =~= base + spec_drops(t).take(k as int),
                        decreases slots@.len() - k,
                    {
                        codes.push(OpCode::Drop);
                        k = k + 1;
                    }
                    proof {
                        assert(codes@ =~= base + spec_drops(t));
                    }
                    match emit_body(items, i + 1, env, m, result_type) {
                        Err(e) => Err(e),
                        Ok(rest) => {
                            let mut rest2 = rest;
                            codes.append(&mut rest2);
                            Ok(codes)
                        },
                    }
                }
            },
        }
    }
}

/// Reads the parameter vector entries `ps[i..]` as annotated names.
fn collect_params(ps: &Vec<Ast>, i: usize) -> (r: Result<Vec<(String, TypeAst)>, CompileError>)
    requires
        i <= ps@.len(),
    ensures
        (match r {
            Ok(params) => spec_collect_params(ast_children_view(*ps).skip(i as int)) == Ok::<
                Seq<(Seq<char>, TypeAst)>,
                ErrModel,
            >(params@.map_values(|p: (String, TypeAst)| (p.0@, p.1))),
            Err(e) => spec_collect_params(ast_children_view(*ps).skip(i as int)) == Err::<
                Seq<(Seq<char>, TypeAst)>,
                ErrModel,
            >(e@),
        }),
    decreases ps@.len() - i,
{
    let ghost children = ast_children_view(*ps);
    if i >= ps.len() {
        let params: Vec<(String, TypeAst)> = Vec::new();
        proof {
            assert(children.skip(i as int) =~= Seq::<AstModel>::empty());
            assert(params@.map_values(|p: (String, TypeAst)| (p.0@, p.1)) =~= Seq::<
                (Seq<char>, TypeAst),
            >::empty());
        }
        Ok(params)
    } else {
        proof {
            assert(children.skip(i as int)[0] == children[i as int]);
            assert(children[i as int] == ast_view(ps@[i as int]));
            assert(children.skip(i as int).drop_first() =~= children.skip(i + 1));
        }
        match &ps[i] {
            Ast::SymbolWithAnnotation(name, t) => match collect_params(ps, i + 1) {
                Err(e) => Err(e),
                Ok(rest) => {
                    let ghost rest0 = rest@;
                    let mut out: Vec<(String, TypeAst)> = Vec::new();
                    out.push((name.clone(), *t));
                    let mut rest2 = rest;
                    out.append(&mut rest2);
                    proof {
                        let f = |p: (String, TypeAst)| (p.0@, p.1);
                        assert(out@.map_values(f) =~= seq![(name@, *t)] + rest0.map_values(f));
                    }
                    Ok(out)
                },
            },
            _ => Err(CompileError::MalformedForm { defect: FormDefect::UnannotatedParam }),
        }
    }
}

/// Drives emission into a module it owns; read the module back from the
/// public field when emission is done.
pub struct Emitter {
    pub module: Module,
}

impl Emitter {
    /// A fresh emitter around `module`.
    pub fn new(module: Module) -> (r: Emitter)
        ensures
            r.module == module,
    {
        Emitter { module }
    }

    /// Emits one `defn` whose meaningful items start at `base`.
    fn emit_defn(&mut self, items: &Vec<Ast>, base: usize, is_export: bool) -> (r: Result<
        (),
        CompileError,
    >)
        requires
            wf_module_repr(&old(self).module),
        ensures
            wf_module_repr(&final(self).module),
            (match r {
                Ok(_) => spec_emit_defn(
                    ast_children_view(*items),
                    base as int,
                    is_export,
                    old(self).module@,
                ) == Ok::<ModuleModel, ErrModel>(final(self).module@),
                Err(e) => spec_emit_defn(
                    ast_children_view(*items),
                    base as int,
                    is_export,
                    old(self).module@,
                ) == Err::<ModuleModel, ErrModel>(e@) && *final(self) == *old(self),
            }),
    {
        let ghost children = ast_children_view(*items);
        if items.len() <= base {
            return Err(CompileError::MalformedForm { defect: FormDefect::MissingName });
        }
        proof {
            assert(children[base as int] == ast_view(items@[base as int]));
        }
        let (name, rt_ast): (&String, TypeAst) = match &items[base] {
            Ast::SymbolWithAnnotation(s, t) => (s, *t),
            Ast::Symbol(s) => (s, TypeAst::Unit),
            _ => {
                return Err(CompileError::MalformedForm { defect: FormDefect::MissingName });
            },
        };
        if items.len() <= base + 1 {
            return Err(CompileError::MalformedForm { defect: FormDefect::MissingParamVector });
        }
        proof {
            assert(children[base + 1] == ast_view(items@[base + 1]));
        }
        let ps: &Vec<Ast> = match &items[base + 1] {
            Ast::Vector(ps) => ps,
            Ast::List(ps) => ps,
            _ => {
                return Err(CompileError::MalformedForm { defect: FormDefect::MissingParamVector });
            },
        };
        proof {
            assert(ast_children_view(*ps).skip(0) =~= ast_children_view(*ps));
        }
        let params: Vec<(String, TypeAst)> = match collect_params(ps, 0) {
            Ok(p) => p,
            Err(e) => {
                return Err(e);
            },
        };
        let ghost params_model = params@.map_values(|p: (String, TypeAst)| (p.0@, p.1));
        if params.len() > 255 {
            return Err(CompileError::MalformedForm { defect: FormDefect::TooManyParams });
        }
        let type_env = TypeEnv::default();
        let mut env = Env::new();
        let mut arg_types: Vec<Type> = Vec::new();
        let ghost arg_types_model = Seq::new(
            params_model.len(),
            |k: int| spec_resolve_type(params_model[k].1),
        );
        let mut i: usize = 0;
        proof {
            assert(env@ =~= spec_param_env(params_model).take(0));
            assert(arg_types@ =~= arg_types_model.take(0));
        }
        while i < params.len()
            invariant
                i <= params@.len(),
                params@.len() <= 255,
                params_model == params@.map_values(|p: (String, TypeAst)| (p.0@, p.1)),
                arg_types_model == Seq::new(
                    params_model.len(),
                    |k: int| spec_resolve_type(params_model[k].1),
                ),
                env@ =~= spec_param_env(params_model).take(i as int),
                arg_types@ =~= arg_types_model.take(i as int),
            decreases params@.len() - i,
        {
            let pname = params[i].0.clone();
            let pt = params[i].1;
            env.set(pname, Variable { pointer: Pointer::Local(i as u8), t: resolve_type(&pt, &type_env) });
            arg_types.push(resolve_type(&pt, &type_env));
            i = i + 1;
            proof {
                assert(spec_param_env(params_model).take(i as int) =~= spec_param_env(
                    params_model,
                ).take(i - 1).push(spec_param_env(params_model)[i - 1]));
                assert(arg_types_model.take(i as int) =~= arg_types_model.take(i - 1).push(
                    arg_types_model[i - 1],
                ));
            }
        }
        proof {
            assert(env@ =~= spec_param_env(params_model));
            assert(arg_types@ =~= arg_types_model);
        }
        let result_type = resolve_type(&rt_ast, &type_env);
        let body_codes: Vec<OpCode> = match emit_body(
            items,
            base + 2,
            &env,
            &self.module,
            result_type,
        ) {
            Ok(b) => b,
            Err(e) => {
                return Err(e);
            },
        };
        let mut body: Vec<OpCode> = Vec::new();
        body.push(OpCode::LocalDeclCount(0));
        let mut bc = body_codes;
        let ghost body_codes_model = bc@;
        body.append(&mut bc);
        body.push(OpCode::End);
        proof {
            assert(body@ =~= seq![OpCode::LocalDeclCount(0u8)] + body_codes_model + seq![
                OpCode::End,
            ]);
        }
        let sig = Signature {
            sig_type: SignatureType::Func,
            params: concat_dissolve(&arg_types, 0),
            results: dissolve_type(&result_type),
        };
        proof {
            assert(arg_types@.skip(0) =~= arg_types@);
            assert(sig@ =~= (SigModel {
                sig_type: SignatureType::Func,
                params: spec_concat_dissolve(arg_types_model),
                results: spec_dissolve_type(result_type),
            }));
        }
        let func_index = self.module.functions.len();
        let sidx = intern_signature(&mut self.module, sig);
        let name_owned = name.clone();
        self.module.functions.push(
            Function { signature_index: sidx, arg_types, result_type, body },
        );
        self.module.function_names.push(name_owned);
        if is_export {
            let fi = #[verifier::truncate] (func_index as u32);
            self.module.exports.push(
                Export { export_type: ExportKind::Func, name: name.clone(), func_index: fi },
            );
        }
        proof {
            let spec_r = spec_emit_defn(children, base as int, is_export, old(self).module@);
            assert(spec_r is Ok);
            let sm = spec_r->Ok_0;
            assert(self.module@.signatures =~= sm.signatures);
            assert(self.module@.funcs =~= sm.funcs);
            assert(self.module@.exports =~= sm.exports);
            assert(self.module@ =~= sm);
        }
        Ok(())
    }

    /// Emits one top-level form, which must be a function declaration list
    /// headed by `export` or `defn`.
    fn emit_func(&mut self, ast: &Ast) -> (r: Result<(), CompileError>)
        requires
            wf_module_repr(&old(self).module),
        ensures
            wf_module_repr(&final(self).module),
            (match r {
                Ok(_) => spec_emit_func(ast@, old(self).module@) == Ok::<ModuleModel, ErrModel>(
                    final(self).module@,
                ),
                Err(e) => spec_emit_func(ast@, old(self).module@) == Err::<ModuleModel, ErrModel>(
                    e@,
                ) && *final(self) == *old(self),
            }),
    {
        let items: &Vec<Ast> = match ast {
            Ast::List(items) => items,
            _ => {
                return Err(CompileError::MalformedForm { defect: FormDefect::NotAList });
            },
        };
        proof {
            assert(ast@ == AstModel::List(ast_children_view(*items)));
        }
        if items.len() == 0 {
            return Err(CompileError::MalformedForm { defect: FormDefect::EmptyList });
        }
        proof {
            assert(ast_children_view(*items)[0] == ast_view(items@[0]));
        }
        match &items[0] {
            Ast::Symbol(head) => {
                if str_eq(head.as_str(), "export") {
                    let defn_ok = if items.len() < 2 {
                        false
                    } else {
                        proof {
                            assert(ast_children_view(*items)[1] == ast_view(items@[1]));
                        }
                        match &items[1] {
                            Ast::Symbol(s) => str_eq(s.as_str(), "defn"),
                            _ => false,
                        }
                    };
                    if !defn_ok {
                        return Err(
                            CompileError::MalformedForm { defect: FormDefect::MissingDefn },
                        );
                    }
                    self.emit_defn(items, 2, true)
                } else if str_eq(head.as_str(), "defn") {
                    self.emit_defn(items, 1, false)
                } else {
                    Err(CompileError::MalformedForm { defect: FormDefect::MissingHeadSymbol })
                }
            },
            _ => Err(CompileError::UnsupportedConstruct { construct: Construct::TopLevel }),
        }
    }

    /// Emits every top-level form of a module node, in source order, each
    /// seeing the function table the forms before it built.
    pub fn emit_module(&mut self, ast: &Ast) -> (r: Result<(), CompileError>)
        requires
            wf_module_repr(&old(self).module),
        ensures
            wf_module_repr(&final(self).module),
            (match r {
                Ok(_) => spec_emit_module(ast@, old(self).module@) == Ok::<ModuleModel, ErrModel>(
                    final(self).module@,
                ),
                Err(e) => spec_emit_module(ast@, old(self).module@) == Err::<
                    ModuleModel,
                    ErrModel,
                >(e@),
            }),
    {
        let tops: &Vec<Ast> = match ast {
            Ast::Module(tops) => tops,
            _ => {
                return Err(CompileError::MalformedForm { defect: FormDefect::NotAModule });
            },
        };
        proof {
            assert(ast@ == AstModel::Module(ast_children_view(*tops)));
        }
        let ghost children = ast_children_view(*tops);
        let ghost m0 = self.module@;
        let mut i: usize = 0;
        while i < tops.len()
            invariant
                i <= tops@.len(),
                children == ast_children_view(*tops),
                ast@ == AstModel::Module(children),
                m0 == old(self).module@,
                wf_module_repr(&self.module),
                spec_emit_toplevels(children, 0, m0) == spec_emit_toplevels(
                    children,
                    i as int,
                    self.module@,
                ),
            decreases tops@.len() - i,
        {
            proof {
                assert(children[i as int] == ast_view(tops@[i as int]));
            }
            match self.emit_func(&tops[i]) {
                Ok(_) => {},
                Err(e) => {
                    return Err(e);
                },
            }
            i = i + 1;
        }
        Ok(())
    }

    /// Parses `source` and emits every top-level declaration into the
    /// module, in source order.
    pub fn emit(&mut self, source: &str) -> (r: Result<(), CompileError>)
        requires
            wf_module_repr(&old(self).module),
        ensures
            wf_module_repr(&final(self).module),
            (match r {
                Ok(_) => spec_emit_source(source@, old(self).module@) == Ok::<
                    ModuleModel,
                    ErrModel,
                >(final(self).module@),
                Err(e) => spec_emit_source(source@, old(self).module@) == Err::<
                    ModuleModel,
                    ErrModel,
                >(e@),
            }),
    {
        let ast = match parse_source(source) {
            Ok(a) => a,
            Err(e) => {
                return Err(e);
            },
        };
        self.emit_module(&ast)
    }
}

impl Module {
    /// The declaration index and function registered under `name`, the
    /// newest declaration winning.
    pub fn get_function(&self, name: &str) -> (r: Option<(usize, &Function)>)
        requires
            wf_module_repr(self),
        ensures
            (match r {
                Some(p) => {
                    &&& spec_lookup_function(self@.funcs, name@) == Some(p.0 as int)
                    &&& p.0 < self.functions@.len()
                    &&& *p.1 == self.functions@[p.0 as int]
                },
                None => spec_lookup_function(self@.funcs, name@) is None,
            }),
    {
        match lookup_function(self, name) {
            Some(i) => Some((i, &self.functions[i])),
            None => None,
        }
    }
}

/// The exec parameter slots from `ts[i..]`: each type dissolved,
/// concatenated.
fn concat_dissolve(ts: &Vec<Type>, i: usize) -> (r: Vec<PrimitiveType>)
    requires
        i <= ts@.len(),
    ensures
        r@ == spec_concat_dissolve(ts@.skip(i as int)),
    decreases ts@.len() - i,
{
    if i >= ts.len() {
        let r: Vec<PrimitiveType> = Vec::new();
        proof {
            assert(ts@.skip(i as int) =~= Seq::<Type>::empty());
            assert(r@ =~= spec_concat_dissolve(ts@.skip(i as int)));
        }
        r
    } else {
        proof {
            assert(ts@.skip(i as int)[0] == ts@[i as int]);
            assert(ts@.skip(i as int).drop_first() =~= ts@.skip(i + 1));
        }
        let mut out = dissolve_type(&ts[i]);
        let mut rest = concat_dissolve(ts, i + 1);
        out.append(&mut rest);
        out
    }
}

/// Two interned signatures of a well-formed module that are structurally
/// equal stand at the same index: the module assigns structurally equal
/// signatures one interned index, and the type section, which writes each
/// index once in ascending order, holds exactly one entry for it.
pub proof fn lemma_signature_interning_unique(m: ModuleModel, i: int, j: int)
    requires
        wf_module(m),
        0 <= i < m.signatures.len(),
        0 <= j < m.signatures.len(),
        sig_model_eq(m.signatures[i], m.signatures[j]),
    ensures
        i == j,
{
}

/// Interning is deterministic over structural equality: structurally equal
/// signatures find the same interned index.
pub proof fn lemma_find_signature_respects_eq(sigs: Seq<SigModel>, a: SigModel, b: SigModel)
    requires
        sig_model_eq(a, b),
    ensures
        spec_find_signature(sigs, a) == spec_find_signature(sigs, b),
    decreases sigs.len(),
{
    if sigs.len() > 0 {
        assert(sig_model_eq(sigs[0], a) == sig_model_eq(sigs[0], b));
        lemma_find_signature_respects_eq(sigs.drop_first(), a, b);
    }
}

proof fn lemma_find_signature_none(sigs: Seq<SigModel>, s: SigModel)
    requires
        spec_find_signature(sigs, s) is None,
    ensures
        forall|i: int| 0 <= i < sigs.len() ==> !sig_model_eq(#[trigger] sigs[i], s),
    decreases sigs.len(),
{
    if sigs.len() > 0 {
        lemma_find_signature_none(sigs.drop_first(), s);
        assert forall|i: int| 0 <= i < sigs.len() implies !sig_model_eq(
            #[trigger] sigs[i],
            s,
        ) by {
            if i > 0 {
                assert(sigs.drop_first()[i - 1] == sigs[i]);
            }
        }
    }
}

proof fn lemma_find_signature_in_range(sigs: Seq<SigModel>, s: SigModel)
    requires
        spec_find_signature(sigs, s) is Some,
    ensures
        0 <= spec_find_signature(sigs, s)->0 < sigs.len(),
        sig_model_eq(sigs[spec_find_signature(sigs, s)->0], s),
    decreases sigs.len(),
{
    if sigs.len() > 0 && !sig_model_eq(sigs[0], s) {
        lemma_find_signature_in_range(sigs.drop_first(), s);
        let k = spec_find_signature(sigs.drop_first(), s)->0;
        assert(sigs.drop_first()[k] == sigs[k + 1]);
    }
}

/// One emitted declaration preserves module well-formedness: the interned
/// signatures stay pairwise distinct and every index keeps pointing into
/// its table.
pub proof fn lemma_emit_defn_preserves_wf(
    items: Seq<AstModel>,
    base: int,
    is_export: bool,
    m: ModuleModel,
    m2: ModuleModel,
)
    requires
        wf_module(m),
        m.funcs.len() < 0xFFFF_FFFF,
        spec_emit_defn(items, base, is_export, m) == Ok::<ModuleModel, ErrModel>(m2),
    ensures
        wf_module(m2),
        m2.funcs.len() == m.funcs.len() + 1,
{
    let ps = match items[base + 1] {
        AstModel::Vector(ps) => ps,
        AstModel::List(ps) => ps,
        _ => arbitrary(),
    };
    let params = spec_collect_params(ps)->Ok_0;
    let rt_ast = match items[base] {
        AstModel::SymbolWithAnnotation(_, t) => t,
        _ => TypeAst::Unit,
    };
    let arg_types = Seq::new(params.len(), |i: int| spec_resolve_type(params[i].1));
    let result_type = spec_resolve_type(rt_ast);
    let sig = SigModel {
        sig_type: SignatureType::Func,
        params: spec_concat_dissolve(arg_types),
        results: spec_dissolve_type(result_type),
    };
    let found = spec_find_signature(m.signatures, sig);
    if found is Some {
        lemma_find_signature_in_range(m.signatures, sig);
        assert(m2.signatures == m.signatures);
        assert(m2.funcs.last().signature_index < m2.signatures.len());
    } else {
        lemma_find_signature_none(m.signatures, sig);
        assert(m2.signatures == m.signatures.push(sig));
        assert forall|i: int, j: int| 0 <= i < j < m2.signatures.len() implies !sig_model_eq(
            m2.signatures[i],
            m2.signatures[j],
        ) by {
            if j < m.signatures.len() {
                assert(!sig_model_eq(m.signatures[i], m.signatures[j]));
            } else {
                assert(m2.signatures[j] == sig);
                assert(!sig_model_eq(m.signatures[i], sig));
            }
        }
        assert(m2.funcs.last().signature_index < m2.signatures.len());
    }
    assert forall|i: int| 0 <= i < m2.funcs.len() implies (
    #[trigger] m2.funcs[i]).signature_index < m2.signatures.len() by {
        if i < m.funcs.len() {
            assert(m2.funcs[i] == m.funcs[i]);
        }
    }
    assert forall|i: int| 0 <= i < m2.exports.len() implies (#[trigger] m2.exports[i]).func_index
        < m2.funcs.len() by {
        if i < m.exports.len() {
            assert(m2.exports[i] == m.exports[i]);
        }
    }
}

/// A call form whose target is not in the function table fails with the
/// unknown-function error. While top-level form `k` is emitted the table
/// holds exactly the functions of the forms before `k`
/// (`lemma_emit_func_appends_one`), so a call to a function declared later
/// in the source fails this way.
pub proof fn lemma_call_to_absent_function_fails(
    items: Seq<AstModel>,
    env: Seq<(Seq<char>, Variable)>,
    funcs: Seq<FuncModel>,
    name: Seq<char>,
)
    requires
        items.len() > 0,
        items[0] == AstModel::Symbol(name),
        name != "let"@,
        spec_lookup_function(funcs, name) is None,
    ensures
        spec_emit_obj(AstModel::List(items), env, funcs) == Err::<
            (Seq<OpCode>, Type),
            ErrModel,
        >(ErrModel::UnknownFunction(name)),
{
}

/// One declaration appends exactly one function and leaves every earlier
/// entry in place: the table a call site sees holds precisely the
/// declarations textually before it, in declaration order.
pub proof fn lemma_emit_func_appends_one(ast: AstModel, m: ModuleModel, m2: ModuleModel)
    requires
        spec_emit_func(ast, m) == Ok::<ModuleModel, ErrModel>(m2),
    ensures
        m2.funcs.len() == m.funcs.len() + 1,
        forall|i: int| 0 <= i < m.funcs.len() ==> m2.funcs[i] == #[trigger] m.funcs[i],
{
}

/// A mixed-type binary operation always produces F32 and always widens the
/// I32 side, never the F32 side: the conversion lands directly after the
/// I32 operand's own code, whichever side that is.
pub proof fn lemma_mixed_operands_convert_i32_side(op: Operator, lc: Seq<OpCode>, rc: Seq<OpCode>)
    requires
        op != Operator::Minus,
    ensures
        spec_combine_bin(op, lc, Type::I32, rc, Type::F32) == Ok::<
            (Seq<OpCode>, Type),
            ErrModel,
        >(((lc + seq![OpCode::F32ConvertI32S]) + rc + seq![spec_f32_opcode(op)], Type::F32)),
        spec_combine_bin(op, lc, Type::F32, rc, Type::I32) == Ok::<
            (Seq<OpCode>, Type),
            ErrModel,
        >((lc + (rc + seq![OpCode::F32ConvertI32S]) + seq![spec_f32_opcode(op)], Type::F32)),
{
}

/// One top-level declaration preserves module well-formedness.
pub proof fn lemma_emit_func_preserves_wf(ast: AstModel, m: ModuleModel, m2: ModuleModel)
    requires
        wf_module(m),
        m.funcs.len() < 0xFFFF_FFFF,
        spec_emit_func(ast, m) == Ok::<ModuleModel, ErrModel>(m2),
    ensures
        wf_module(m2),
        m2.funcs.len() == m.funcs.len() + 1,
{
    match ast {
        AstModel::List(items) => match items[0] {
            AstModel::Symbol(head) => {
                if head == "export"@ {
                    lemma_emit_defn_preserves_wf(items, 2, true, m, m2);
                } else {
                    lemma_emit_defn_preserves_wf(items, 1, false, m, m2);
                }
            },
            _ => {},
        },
        _ => {},
    }
}

/// A whole emission pass preserves module well-formedness: however many
/// declarations a unit holds, the module they build keeps its interned
/// signatures pairwise distinct and its indices in range.
pub proof fn lemma_emit_toplevels_preserves_wf(
    tops: Seq<AstModel>,
    i: int,
    m: ModuleModel,
    m2: ModuleModel,
)
    requires
        wf_module(m),
        0 <= i,
        m.funcs.len() + (tops.len() - i) < 0xFFFF_FFFF,
        spec_emit_toplevels(tops, i, m) == Ok::<ModuleModel, ErrModel>(m2),
    ensures
        wf_module(m2),
    decreases tops.len() - i,
{
    if i < tops.len() {
        let m1 = spec_emit_func(tops[i], m)->Ok_0;
        lemma_emit_func_preserves_wf(tops[i], m, m1);
        lemma_emit_toplevels_preserves_wf(tops, i + 1, m1, m2);
    }
}

} // verus!
