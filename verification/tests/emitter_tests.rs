use sexp_wasm::emitter::{
    Emitter, Export, ExportKind, Function, Module, OpCode, PrimitiveType, Signature, SignatureType,
};
use sexp_wasm::error::{CompileError, FormDefect};
use sexp_wasm::resolver::Type;

fn emit_all(source: &str) -> Module {
    let mut emitter = Emitter::new(Module::default());
    emitter.emit(source).unwrap();
    emitter.module
}

fn emit_err(source: &str) -> CompileError {
    let mut emitter = Emitter::new(Module::default());
    emitter.emit(source).unwrap_err()
}

#[test]
fn emitter_test_bin_ops() {
    let module = emit_all(
        "(defn calc : f32
            [a : f32 b : i32]
                (* 10 (/ (+ a (- b 1)) 2)))",
    );
    assert_eq!(module.exports, vec![]);
    assert_eq!(module.signatures.len(), 1);
    assert_eq!(
        module.signatures[0],
        Signature {
            sig_type: SignatureType::Func,
            params: vec![PrimitiveType::F32, PrimitiveType::I32],
            results: vec![PrimitiveType::F32]
        }
    );
    let (_, calc) = module.get_function("calc").unwrap();
    assert_eq!(
        *calc,
        Function {
            arg_types: vec![Type::F32, Type::I32],
            result_type: Type::F32,
            signature_index: 0,
            body: vec![
                OpCode::LocalDeclCount(0),
                OpCode::I32Const(10),
                OpCode::F32ConvertI32S,
                OpCode::LocalGet(0),
                OpCode::LocalGet(1),
                OpCode::I32Const(1),
                OpCode::I32Sub,
                OpCode::F32ConvertI32S,
                OpCode::F32Add,
                OpCode::I32Const(2),
                OpCode::F32ConvertI32S,
                OpCode::F32Div,
                OpCode::F32Mul,
                OpCode::End
            ]
        }
    )
}

#[test]
fn test_unary_ops() {
    let module = emit_all(
        "(defn neg_f32: f32
                    [n: f32]
                        (- n))
                (defn neg_i32: i32
                    [n: i32]
                        (- n))",
    );
    assert_eq!(
        module.get_function("neg_f32").unwrap().1.body,
        vec![
            OpCode::LocalDeclCount(0),
            OpCode::LocalGet(0),
            OpCode::F32Neg,
            OpCode::End
        ]
    );
    assert_eq!(
        module.get_function("neg_i32").unwrap().1.body,
        vec![
            OpCode::LocalDeclCount(0),
            OpCode::I32Const(0),
            OpCode::LocalGet(0),
            OpCode::I32Sub,
            OpCode::End
        ]
    )
}

#[test]
fn test_export() {
    let module = emit_all(
        "(export defn addTwo : i32
            [a : i32 b: i32]
                (+ a b))",
    );
    assert_eq!(
        module.exports,
        vec![Export {
            export_type: ExportKind::Func,
            func_index: 0,
            name: "addTwo".to_string()
        }]
    )
}

#[test]
fn test_function_call() {
    let module = emit_all(
        "
        (defn addTwo: i32 [a: i32, b: i32] (+ a b) )
        (export defn main []
            (addTwo 10 20))
    ",
    );
    assert_eq!(
        module.get_function("main").unwrap().1.body,
        vec![
            OpCode::LocalDeclCount(0),
            OpCode::I32Const(10),
            OpCode::I32Const(20),
            OpCode::Call(0),
            OpCode::Drop,
            OpCode::End
        ]
    )
}

#[test]
fn test_structurally_equal_signatures_share_one_index() {
    let module = emit_all(
        "(defn one : i32 [a : i32] a)
         (defn two : i32 [b : i32] b)
         (defn three : f32 [c : f32] c)",
    );
    assert_eq!(module.signatures.len(), 2);
    assert_eq!(module.get_function("one").unwrap().1.signature_index, 0);
    assert_eq!(module.get_function("two").unwrap().1.signature_index, 0);
    assert_eq!(module.get_function("three").unwrap().1.signature_index, 1);
}

#[test]
fn test_bool_param_shares_i32_slot() {
    let module = emit_all("(defn pick : i32 [flag : bool] 1)");
    assert_eq!(
        module.signatures[0],
        Signature {
            sig_type: SignatureType::Func,
            params: vec![PrimitiveType::I32],
            results: vec![PrimitiveType::I32]
        }
    );
}

#[test]
fn test_forward_call_is_unknown_function() {
    let err = emit_err(
        "(defn main : i32 [] (later 1))
         (defn later : i32 [x : i32] x)",
    );
    assert_eq!(
        err,
        CompileError::UnknownFunction { name: "later".to_string() }
    );
}

#[test]
fn test_unary_minus_with_two_operands_is_arity_error() {
    let err = emit_err("(defn f : i32 [a : i32 b : i32 c : i32] (- a b c))");
    assert!(matches!(err, CompileError::Arity { .. }));
}

#[test]
fn test_binary_op_with_one_operand_is_arity_error() {
    let err = emit_err("(defn f : i32 [a : i32] (+ a))");
    assert!(matches!(err, CompileError::Arity { .. }));
}

#[test]
fn test_unbound_symbol() {
    let err = emit_err("(defn f : i32 [] x)");
    assert_eq!(err, CompileError::UnboundSymbol { name: "x".to_string() });
}

#[test]
fn test_non_numeric_operand_is_type_mismatch() {
    let err = emit_err("(defn f : i32 [b : bool] (+ b 1))");
    assert!(matches!(
        err,
        CompileError::TypeMismatch { found: Type::Bool, .. }
    ));
}

#[test]
fn test_return_type_mismatch() {
    let err = emit_err("(defn f : f32 [a : i32] a)");
    assert_eq!(
        err,
        CompileError::ReturnTypeMismatch { expected: Type::F32, found: Type::I32 }
    );
}

#[test]
fn test_let_is_unsupported() {
    let err = emit_err("(defn f : i32 [] (let x 1))");
    assert!(matches!(err, CompileError::UnsupportedConstruct { .. }));
}

#[test]
fn test_missing_defn_after_export() {
    let err = emit_err("(export addTwo : i32 [a : i32] a)");
    assert_eq!(
        err,
        CompileError::MalformedForm { defect: FormDefect::MissingDefn }
    );
}

#[test]
fn test_number_literal_out_of_range_is_number_format_error() {
    assert!(matches!(
        emit_err("(defn f : i32 [] 2147483648)"),
        CompileError::NumberFormat { .. }
    ));
    let module = emit_all("(defn f : i32 [] 2147483647)");
    assert_eq!(
        module.get_function("f").unwrap().1.body,
        vec![OpCode::LocalDeclCount(0), OpCode::I32Const(2147483647), OpCode::End]
    );
}

#[test]
fn test_float_literal_is_number_format_error() {
    let err = emit_err("(defn f : f32 [] 0.5)");
    assert_eq!(err, CompileError::NumberFormat { literal: "0.5".to_string() });
}

#[test]
fn test_unit_result_drains_last_form() {
    let module = emit_all("(defn f [a : i32] a)");
    assert_eq!(
        module.get_function("f").unwrap().1.body,
        vec![
            OpCode::LocalDeclCount(0),
            OpCode::LocalGet(0),
            OpCode::Drop,
            OpCode::End
        ]
    );
}

#[test]
fn test_intermediate_forms_are_drained() {
    let module = emit_all("(defn f : i32 [a : i32] a (+ a 1))");
    assert_eq!(
        module.get_function("f").unwrap().1.body,
        vec![
            OpCode::LocalDeclCount(0),
            OpCode::LocalGet(0),
            OpCode::Drop,
            OpCode::LocalGet(0),
            OpCode::I32Const(1),
            OpCode::I32Add,
            OpCode::End
        ]
    );
}
