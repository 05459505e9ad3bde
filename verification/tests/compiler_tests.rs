use sexp_wasm::compiler::compile_into_wasm;

#[test]
fn compiler_test_bin_ops() {
    let buf = compile_into_wasm(
        "(defn calc : f32
        (a : f32 b : i32)
          (* 10 (/ (+ a (- b 1)) 2))",
    )
    .unwrap();
    assert_eq!(
        buf,
        vec![
            0x00, 0x61, 0x73, 0x6d, // magic constant
            0x01, 0x00, 0x00, 0x00, // binary version
            0x01, // type section
            0x07, // section size
            0x01, // num types
            0x60, // type func
            0x02, // num params
            0x6F, // f32
            0x7F, // i32
            0x01, // num results
            0x6F, // f32
            0x03, // function section
            0x02, // section size
            0x01, // num funcs
            0x00, // signature index
            0x07, // export section
            0x01, // section size,
            0x00, // num exports
            0x0A, // code section
            0x15, // section size
            0x01, // num functions
            0x13, // func body size
            0x00, // local decl count
            0x41, 0x0A, // i32 const 10
            0xB2, // f32_convert_i32_s
            0x20, 0x00, // local.get 0
            0x20, 0x01, // local.get 1,
            0x41, 0x01, // i32.const 1
            0x6B, // i32.sub
            0xB2, // f32_convert_i32_s
            0x92, // f32.add
            0x41, 0x02, // i32.const 2
            0xB2, // f32_convert_i32_s
            0x95, // f32.div
            0x94, // f32.mul
            0x0B, // END
        ]
    );
}

#[test]
fn test_empty_source_yields_empty_sections() {
    let buf = compile_into_wasm("").unwrap();
    assert_eq!(
        buf,
        vec![
            0x00, 0x61, 0x73, 0x6d, // magic constant
            0x01, 0x00, 0x00, 0x00, // binary version
            0x01, 0x01, 0x00, // empty type section
            0x03, 0x01, 0x00, // empty function section
            0x07, 0x01, 0x00, // empty export section
            0x0A, 0x01, 0x00, // empty code section
        ]
    );
}

#[test]
fn test_output_always_starts_with_magic_header() {
    let sources = [
        "",
        "(defn f : i32 [] 1)",
        "(export defn addTwo : i32 [a : i32 b : i32] (+ a b))",
        "(defn neg : f32 [n : f32] (- n))",
    ];
    for source in sources {
        let buf = compile_into_wasm(source).unwrap();
        assert_eq!(&buf[0..8], &[0x00, 0x61, 0x73, 0x6d, 0x01, 0x00, 0x00, 0x00]);
    }
}

#[test]
fn test_export_entry_bytes() {
    let buf = compile_into_wasm("(export defn go : i32 [] 7)").unwrap();
    assert_eq!(
        buf,
        vec![
            0x00, 0x61, 0x73, 0x6d, // magic constant
            0x01, 0x00, 0x00, 0x00, // binary version
            0x01, 0x05, 0x01, 0x60, 0x00, 0x01, 0x7F, // type section: () -> i32
            0x03, 0x02, 0x01, 0x00, // function section
            0x07, 0x06, 0x01, 0x02, 0x67, 0x6F, 0x00, 0x00, // export "go", func 0
            0x0A, 0x06, 0x01, 0x04, 0x00, 0x41, 0x07, 0x0B, // code section
        ]
    );
}

#[test]
fn test_call_encodes_with_its_opcode() {
    let buf = compile_into_wasm(
        "(defn seven : i32 [] 7)
         (defn main : i32 [] (seven))",
    )
    .unwrap();
    let needle = [0x10u8, 0x00u8, 0x0Bu8];
    assert!(buf.windows(3).any(|w| w == needle));
}
