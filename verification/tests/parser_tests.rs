use sexp_wasm::ast::{Ast, TypeAst};
use sexp_wasm::error::{CompileError, FormDefect};
use sexp_wasm::parser::parse_source;

#[test]
fn test_parse_annotated_symbols_and_vectors() {
    let ast = parse_source("(defn f : i32 [a : f32] a)").unwrap();
    assert_eq!(
        ast,
        Ast::Module(vec![Ast::List(vec![
            Ast::Symbol("defn".to_string()),
            Ast::SymbolWithAnnotation("f".to_string(), TypeAst::I32),
            Ast::Vector(vec![Ast::SymbolWithAnnotation(
                "a".to_string(),
                TypeAst::F32
            )]),
            Ast::Symbol("a".to_string()),
        ])])
    );
}

#[test]
fn test_parse_unknown_type_name() {
    let err = parse_source("(defn f : i64 [] 1)").unwrap_err();
    assert_eq!(
        err,
        CompileError::MalformedForm { defect: FormDefect::UnknownTypeName }
    );
}

#[test]
fn test_parse_stray_closer() {
    let err = parse_source(") (defn f [] 1)").unwrap_err();
    assert_eq!(
        err,
        CompileError::MalformedForm { defect: FormDefect::UnexpectedToken }
    );
}

#[test]
fn test_parse_open_form_closes_at_end_of_text() {
    let ast = parse_source("(- a 1").unwrap();
    assert_eq!(
        ast,
        Ast::Module(vec![Ast::List(vec![
            Ast::Sub,
            Ast::Symbol("a".to_string()),
            Ast::NumberLiteral("1".to_string()),
        ])])
    );
}
