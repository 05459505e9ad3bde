//! The section writer and container assembler: serializes a compiled module
//! into the exact byte layout of the binary container — fixed magic and
//! version header, then the type, function, export and code sections, each
//! size-prefixed.
use crate::emitter::{
    spec_emit_source, wf_module_repr, Emitter, Export, ExportKind, ExportModel, FuncModel, Function,
    Module, ModuleModel, OpCode, SigModel, Signature,
};
use crate::encoder::{encode_leb128, encode_s_leb128, encode_string, sleb, string_bytes, uleb};
use crate::error::{CompileError, ErrModel};
use vstd::prelude::*;

verus! {

/// A binary section's id.
#[derive(Debug, Clone, Copy, PartialEq, Eq, Structural)]
pub enum SectionCode {
    Type,
    Function,
    Export,
    Code,
}

impl SectionCode {
    /// The id byte of the section.
    pub open spec fn spec_code(self) -> u8 {
        match self {
            SectionCode::Type => 0x01,
            SectionCode::Function => 0x03,
            SectionCode::Export => 0x07,
            SectionCode::Code => 0x0a,
        }
    }

    /// Writes the id byte of the section.
    pub fn code(&self) -> (r: u8)
        ensures
            r == self.spec_code(),
    {
        match self {
            SectionCode::Type => 0x01,
            SectionCode::Function => 0x03,
            SectionCode::Export => 0x07,
            SectionCode::Code => 0x0a,
        }
    }
}

/// The export-kind tag byte: 0x00 for a function.
pub open spec fn spec_export_kind_code(k: ExportKind) -> u8 {
    match k {
        ExportKind::Func => 0x00,
    }
}

/// The four little-endian bytes of a 32-bit value.
pub open spec fn spec_le4(bits: u32) -> Seq<u8> {
    seq![
        (bits % 256) as u8,
        ((bits / 256) % 256) as u8,
        ((bits / 65536) % 256) as u8,
        ((bits / 16777216) % 256) as u8,
    ]
}

/// The bytes one instruction encodes to, immediates included.
pub open spec fn spec_opcode_bytes(op: OpCode) -> Seq<u8> {
    match op {
        OpCode::Drop => seq![0x1Au8],
        OpCode::End => seq![0x0Bu8],
        OpCode::LocalDeclCount(n) => uleb(n as nat),
        OpCode::LocalGet(n) => seq![0x20u8] + uleb(n as nat),
        OpCode::Call(n) => seq![0x10u8] + uleb(n as nat),
        OpCode::I32Const(v) => seq![0x41u8] + sleb(v as int),
        OpCode::F32Const(bits) => seq![0x43u8] + spec_le4(bits),
        OpCode::I32Add => seq![0x6Au8],
        OpCode::I32Sub => seq![0x6Bu8],
        OpCode::I32Mul => seq![0x6Cu8],
        OpCode::I32Div => seq![0x6Du8],
        OpCode::F32Add => seq![0x92u8],
        OpCode::F32Sub => seq![0x93u8],
        OpCode::F32Mul => seq![0x94u8],
        OpCode::F32Div => seq![0x95u8],
        OpCode::F32Neg => seq![0x8Cu8],
        OpCode::F32ConvertI32S => seq![0xB2u8],
    }
}

/// The instruction bytes of one function body, in order.
pub open spec fn spec_body_bytes(ops: Seq<OpCode>) -> Seq<u8>
    decreases ops.len(),
{
    if ops.len() == 0 {
        Seq::empty()
    } else {
        spec_opcode_bytes(ops[0]) + spec_body_bytes(ops.drop_first())
    }
}

/// The bytes of one signature entry: kind byte, parameter count and slot
/// codes, result count and slot codes.
pub open spec fn spec_signature_bytes(s: SigModel) -> Seq<u8> {
    seq![s.sig_type.spec_code()] + uleb(s.params.len()) + s.params.map_values(
        |p: crate::emitter::PrimitiveType| p.spec_code(),
    ) + uleb(s.results.len()) + s.results.map_values(
        |p: crate::emitter::PrimitiveType| p.spec_code(),
    )
}

/// The bytes of one export entry: length-prefixed name, kind tag, function
/// index.
pub open spec fn spec_export_bytes(e: ExportModel) -> Seq<u8> {
    string_bytes(e.name) + seq![spec_export_kind_code(e.export_type)] + uleb(e.func_index as nat)
}

/// The signature entries of the type section, in ascending index order.
pub open spec fn spec_type_entries(sigs: Seq<SigModel>) -> Seq<u8>
    decreases sigs.len(),
{
    if sigs.len() == 0 {
        Seq::empty()
    } else {
        spec_signature_bytes(sigs[0]) + spec_type_entries(sigs.drop_first())
    }
}

/// Each function's signature index, in declaration order.
pub open spec fn spec_function_entries(funcs: Seq<FuncModel>) -> Seq<u8>
    decreases funcs.len(),
{
    if funcs.len() == 0 {
        Seq::empty()
    } else {
        uleb(funcs[0].signature_index as nat) + spec_function_entries(funcs.drop_first())
    }
}

/// The export entries, in order.
pub open spec fn spec_export_entries(exports: Seq<ExportModel>) -> Seq<u8>
    decreases exports.len(),
{
    if exports.len() == 0 {
        Seq::empty()
    } else {
        spec_export_bytes(exports[0]) + spec_export_entries(exports.drop_first())
    }
}

/// Each function's size-prefixed instruction bytes, in declaration order.
pub open spec fn spec_code_entries(funcs: Seq<FuncModel>) -> Seq<u8>
    decreases funcs.len(),
{
    if funcs.len() == 0 {
        Seq::empty()
    } else {
        uleb(spec_body_bytes(funcs[0].body).len()) + spec_body_bytes(funcs[0].body)
            + spec_code_entries(funcs.drop_first())
    }
}

/// The type section payload: the count of distinct signatures, then each in
/// ascending index order.
pub open spec fn spec_type_payload(m: ModuleModel) -> Seq<u8> {
    uleb(m.signatures.len()) + spec_type_entries(m.signatures)
}

/// The function section payload: the function count, then each function's
/// signature index.
pub open spec fn spec_function_payload(m: ModuleModel) -> Seq<u8> {
    uleb(m.funcs.len()) + spec_function_entries(m.funcs)
}

/// The export section payload: the export count, then each entry.
pub open spec fn spec_export_payload(m: ModuleModel) -> Seq<u8> {
    uleb(m.exports.len()) + spec_export_entries(m.exports)
}

/// The code section payload: the function count, then each body,
/// size-prefixed.
pub open spec fn spec_code_payload(m: ModuleModel) -> Seq<u8> {
    uleb(m.funcs.len()) + spec_code_entries(m.funcs)
}

/// A whole section: id byte, payload byte length, payload.
pub open spec fn spec_section(id: u8, payload: Seq<u8>) -> Seq<u8> {
    seq![id] + uleb(payload.len()) + payload
}

/// The fixed 8-byte file header: magic constant, then version constant.
pub open spec fn spec_magic() -> Seq<u8> {
    seq![0x00u8, 0x61u8, 0x73u8, 0x6du8, 0x01u8, 0x00u8, 0x00u8, 0x00u8]
}

/// The whole byte stream of a module: header, then the four sections in
/// fixed order.
pub open spec fn spec_module_bytes(m: ModuleModel) -> Seq<u8> {
    spec_magic() + spec_section(0x01, spec_type_payload(m)) + spec_section(
        0x03,
        spec_function_payload(m),
    ) + spec_section(0x07, spec_export_payload(m)) + spec_section(0x0a, spec_code_payload(m))
}

/// The assembled byte stream always begins with the fixed 8-byte header,
/// whatever the module holds.
pub proof fn lemma_module_bytes_magic(m: ModuleModel)
    ensures
        spec_module_bytes(m).len() >= 8,
        spec_module_bytes(m).subrange(0, 8) == spec_magic(),
{
    assert(spec_module_bytes(m).subrange(0, 8) =~= spec_magic());
}

proof fn lemma_body_bytes_push(ops: Seq<OpCode>, op: OpCode)
    ensures
        spec_body_bytes(ops.push(op)) == spec_body_bytes(ops) + spec_opcode_bytes(op),
    decreases ops.len(),
{
    if ops.len() == 0 {
        assert(ops.push(op)[0] == op);
        assert(ops.push(op).drop_first() =~= Seq::<OpCode>::empty());
        assert(spec_body_bytes(Seq::<OpCode>::empty()) == Seq::<u8>::empty());
        assert(spec_body_bytes(ops.push(op)) =~= spec_opcode_bytes(op));
        assert(spec_body_bytes(ops) + spec_opcode_bytes(op) =~= spec_opcode_bytes(op));
    } else {
        assert(ops.push(op).drop_first() =~= ops.drop_first().push(op));
        lemma_body_bytes_push(ops.drop_first(), op);
        assert(spec_body_bytes(ops.push(op)) == spec_opcode_bytes(ops[0]) + (spec_body_bytes(
            ops.drop_first(),
        ) + spec_opcode_bytes(op)));
        assert(spec_body_bytes(ops.push(op)) =~= spec_body_bytes(ops) + spec_opcode_bytes(op));
    }
}

proof fn lemma_type_entries_push(sigs: Seq<SigModel>, s: SigModel)
    ensures
        spec_type_entries(sigs.push(s)) == spec_type_entries(sigs) + spec_signature_bytes(s),
    decreases sigs.len(),
{
    if sigs.len() == 0 {
        assert(sigs.push(s)[0] == s);
        assert(sigs.push(s).drop_first() =~= Seq::<SigModel>::empty());
        assert(spec_type_entries(Seq::<SigModel>::empty()) == Seq::<u8>::empty());
        assert(spec_type_entries(sigs.push(s)) =~= spec_signature_bytes(s));
        assert(spec_type_entries(sigs) + spec_signature_bytes(s) =~= spec_signature_bytes(s));
    } else {
        assert(sigs.push(s).drop_first() =~= sigs.drop_first().push(s));
        lemma_type_entries_push(sigs.drop_first(), s);
        assert(spec_type_entries(sigs.push(s)) =~= spec_type_entries(sigs) + spec_signature_bytes(
            s,
        ));
    }
}

proof fn lemma_function_entries_push(funcs: Seq<FuncModel>, f: FuncModel)
    ensures
        spec_function_entries(funcs.push(f)) == spec_function_entries(funcs) + uleb(
            f.signature_index as nat,
        ),
    decreases funcs.len(),
{
    if funcs.len() == 0 {
        assert(funcs.push(f)[0] == f);
        assert(funcs.push(f).drop_first() =~= Seq::<FuncModel>::empty());
        assert(spec_function_entries(Seq::<FuncModel>::empty()) == Seq::<u8>::empty());
        assert(spec_function_entries(funcs.push(f)) =~= uleb(f.signature_index as nat));
        assert(spec_function_entries(funcs) + uleb(f.signature_index as nat) =~= uleb(
            f.signature_index as nat,
        ));
    } else {
        assert(funcs.push(f).drop_first() =~= funcs.drop_first().push(f));
        lemma_function_entries_push(funcs.drop_first(), f);
        assert(spec_function_entries(funcs.push(f)) =~= spec_function_entries(funcs) + uleb(
            f.signature_index as nat,
        ));
    }
}

proof fn lemma_export_entries_push(exports: Seq<ExportModel>, e: ExportModel)
    ensures
        spec_export_entries(exports.push(e)) == spec_export_entries(exports) + spec_export_bytes(
            e,
        ),
    decreases exports.len(),
{
    if exports.len() == 0 {
        assert(exports.push(e)[0] == e);
        assert(exports.push(e).drop_first() =~= Seq::<ExportModel>::empty());
        assert(spec_export_entries(Seq::<ExportModel>::empty()) == Seq::<u8>::empty());
        assert(spec_export_entries(exports.push(e)) =~= spec_export_bytes(e));
        assert(spec_export_entries(exports) + spec_export_bytes(e) =~= spec_export_bytes(e));
    } else {
        assert(exports.push(e).drop_first() =~= exports.drop_first().push(e));
        lemma_export_entries_push(exports.drop_first(), e);
        assert(spec_export_entries(exports.push(e)) =~= spec_export_entries(exports)
            + spec_export_bytes(e));
    }
}

proof fn lemma_code_entries_push(funcs: Seq<FuncModel>, f: FuncModel)
    ensures
        spec_code_entries(funcs.push(f)) == spec_code_entries(funcs) + uleb(
            spec_body_bytes(f.body).len(),
        ) + spec_body_bytes(f.body),
    decreases funcs.len(),
{
    if funcs.len() == 0 {
        assert(funcs.push(f)[0] == f);
        assert(funcs.push(f).drop_first() =~= Seq::<FuncModel>::empty());
        assert(spec_code_entries(Seq::<FuncModel>::empty()) == Seq::<u8>::empty());
        assert(spec_code_entries(funcs.push(f)) =~= uleb(spec_body_bytes(f.body).len())
            + spec_body_bytes(f.body));
        assert(spec_code_entries(funcs) + uleb(spec_body_bytes(f.body).len()) + spec_body_bytes(
            f.body,
        ) =~= uleb(spec_body_bytes(f.body).len()) + spec_body_bytes(f.body));
    } else {
        assert(funcs.push(f).drop_first() =~= funcs.drop_first().push(f));
        lemma_code_entries_push(funcs.drop_first(), f);
        assert(spec_code_entries(funcs.push(f)) =~= spec_code_entries(funcs) + uleb(
            spec_body_bytes(f.body).len(),
        ) + spec_body_bytes(f.body));
    }
}

/// Writes one signature entry.
fn write_signature(buf: &mut Vec<u8>, signature: &Signature)
    ensures
        final(buf)@ == old(buf)@ + spec_signature_bytes(signature@),
{
    buf.push(signature.sig_type.code());
    encode_leb128(buf, signature.params.len() as u64);
    let ghost mid1 = buf@;
    let mut i: usize = 0;
    while i < signature.params.len()
        invariant
            i <= signature.params@.len(),
            buf@ =~= mid1 + signature@.params.take(i as int).map_values(
                |p: crate::emitter::PrimitiveType| p.spec_code(),
            ),
        decreases signature.params@.len() - i,
    {
        buf.push(signature.params[i].code());
        i = i + 1;
        proof {
            assert(signature@.params.take(i as int) =~= signature@.params.take(i - 1).push(
                signature@.params[i - 1],
            ));
        }
    }
    proof {
        assert(signature@.params.take(signature.params@.len() as int) =~= signature@.params);
    }
    encode_leb128(buf, signature.results.len() as u64);
    let ghost mid2 = buf@;
    let mut i: usize = 0;
    while i < signature.results.len()
        invariant
            i <= signature.results@.len(),
            buf@ =~= mid2 + signature@.results.take(i as int).map_values(
                |p: crate::emitter::PrimitiveType| p.spec_code(),
            ),
        decreases signature.results@.len() - i,
    {
        buf.push(signature.results[i].code());
        i = i + 1;
        proof {
            assert(signature@.results.take(i as int) =~= signature@.results.take(i - 1).push(
                signature@.results[i - 1],
            ));
        }
    }
    proof {
        assert(signature@.results.take(signature.results@.len() as int) =~= signature@.results);
        assert(buf@ =~= old(buf)@ + spec_signature_bytes(signature@));
    }
}

/// Writes one export entry.
fn write_export(buf: &mut Vec<u8>, export: &Export)
    ensures
        final(buf)@ == old(buf)@ + spec_export_bytes(export@),
{
    encode_string(buf, export.name.as_str());
    let kind: u8 = match export.export_type {
        ExportKind::Func => 0x00,
    };
    buf.push(kind);
    encode_leb128(buf, export.func_index as u64);
    proof {
        assert(buf@ =~= old(buf)@ + spec_export_bytes(export@));
    }
}

/// Writes one function body's instruction bytes per the fixed opcode table.
fn write_function_body(buf: &mut Vec<u8>, func: &Function)
    ensures
        final(buf)@ == old(buf)@ + spec_body_bytes(func.body@),
{
    let mut i: usize = 0;
    proof {
        assert(func.body@.take(0) =~= Seq::<OpCode>::empty());
    }
    while i < func.body.len()
        invariant
            i <= func.body@.len(),
            buf@ =~= old(buf)@ + spec_body_bytes(func.body@.take(i as int)),
        decreases func.body@.len() - i,
    {
        let ghost pre = buf@;
        let op = func.body[i];
        match op {
            OpCode::LocalDeclCount(n) => {
                encode_leb128(buf, n as u64);
            },
            OpCode::F32Const(bits) => {
                buf.push(0x43);
                buf.push((bits % 256) as u8);
                buf.push(((bits / 256) % 256) as u8);
                buf.push(((bits / 65536) % 256) as u8);
                buf.push(((bits / 16777216) % 256) as u8);
            },
            OpCode::I32Const(v) => {
                buf.push(0x41);
                encode_s_leb128(buf, v as i64);
            },
            OpCode::LocalGet(n) => {
                buf.push(0x20);
                encode_leb128(buf, n as u64);
            },
            OpCode::Call(n) => {
                buf.push(0x10);
                encode_leb128(buf, n as u64);
            },
            OpCode::End => {
                buf.push(0x0B);
            },
            OpCode::Drop => {
                buf.push(0x1A);
            },
            OpCode::I32Add => {
                buf.push(0x6A);
            },
            OpCode::I32Sub => {
                buf.push(0x6B);
            },
            OpCode::I32Mul => {
                buf.push(0x6C);
            },
            OpCode::I32Div => {
                buf.push(0x6D);
            },
            OpCode::F32Neg => {
                buf.push(0x8C);
            },
            OpCode::F32Add => {
                buf.push(0x92);
            },
            OpCode::F32Sub => {
                buf.push(0x93);
            },
            OpCode::F32Mul => {
                buf.push(0x94);
            },
            OpCode::F32Div => {
                buf.push(0x95);
            },
            OpCode::F32ConvertI32S => {
                buf.push(0xB2);
            },
        }
        proof {
            assert(buf@ =~= pre + spec_opcode_bytes(op));
            lemma_body_bytes_push(func.body@.take(i as int), op);
            assert(func.body@.take(i + 1) =~= func.body@.take(i as int).push(op));
        }
        i = i + 1;
    }
    proof {
        assert(func.body@.take(func.body@.len() as int) =~= func.body@);
    }
}

/// Writes the type section: every interned signature, in ascending index
/// order, behind the section id and payload size.
fn write_type_section(buf: &mut Vec<u8>, module: &Module)
    ensures
        final(buf)@ == old(buf)@ + spec_section(0x01, spec_type_payload(module@)),
{
    let mut payload: Vec<u8> = Vec::new();
    encode_leb128(&mut payload, module.signatures.len() as u64);
    let ghost mid = payload@;
    let mut i: usize = 0;
    proof {
        assert(module@.signatures.take(0) =~= Seq::<SigModel>::empty());
    }
    while i < module.signatures.len()
        invariant
            i <= module.signatures@.len(),
            payload@ =~= mid + spec_type_entries(module@.signatures.take(i as int)),
        decreases module.signatures@.len() - i,
    {
        write_signature(&mut payload, &module.signatures[i]);
        proof {
            lemma_type_entries_push(module@.signatures.take(i as int), module@.signatures[i as int]);
            assert(module@.signatures.take(i + 1) =~= module@.signatures.take(i as int).push(
                module@.signatures[i as int],
            ));
        }
        i = i + 1;
    }
    proof {
        assert(module@.signatures.take(module.signatures@.len() as int) =~= module@.signatures);
        assert(payload@ =~= spec_type_payload(module@));
    }
    buf.push(SectionCode::Type.code());
    encode_leb128(buf, payload.len() as u64);
    buf.append(&mut payload);
    proof {
        assert(buf@ =~= old(buf)@ + spec_section(0x01, spec_type_payload(module@)));
    }
}

/// Writes the function section: each function's signature index, in
/// declaration order.
fn write_function_section(buf: &mut Vec<u8>, module: &Module)
    requires
        wf_module_repr(module),
    ensures
        final(buf)@ == old(buf)@ + spec_section(0x03, spec_function_payload(module@)),
{
    let mut payload: Vec<u8> = Vec::new();
    encode_leb128(&mut payload, module.functions.len() as u64);
    let ghost mid = payload@;
    let mut i: usize = 0;
    proof {
        assert(module@.funcs.take(0) =~= Seq::<FuncModel>::empty());
    }
    while i < module.functions.len()
        invariant
            wf_module_repr(module),
            i <= module.functions@.len(),
            payload@ =~= mid + spec_function_entries(module@.funcs.take(i as int)),
        decreases module.functions@.len() - i,
    {
        encode_leb128(&mut payload, module.functions[i].signature_index as u64);
        proof {
            lemma_function_entries_push(module@.funcs.take(i as int), module@.funcs[i as int]);
            assert(module@.funcs.take(i + 1) =~= module@.funcs.take(i as int).push(
                module@.funcs[i as int],
            ));
        }
        i = i + 1;
    }
    proof {
        assert(module@.funcs.take(module.functions@.len() as int) =~= module@.funcs);
        assert(payload@ =~= spec_function_payload(module@));
    }
    buf.push(SectionCode::Function.code());
    encode_leb128(buf, payload.len() as u64);
    buf.append(&mut payload);
    proof {
        assert(buf@ =~= old(buf)@ + spec_section(0x03, spec_function_payload(module@)));
    }
}

/// Writes the export section: each export's name, kind tag and function
/// index.
fn write_export_section(buf: &mut Vec<u8>, module: &Module)
    ensures
        final(buf)@ == old(buf)@ + spec_section(0x07, spec_export_payload(module@)),
{
    let mut payload: Vec<u8> = Vec::new();
    encode_leb128(&mut payload, module.exports.len() as u64);
    let ghost mid = payload@;
    let mut i: usize = 0;
    proof {
        assert(module@.exports.take(0) =~= Seq::<ExportModel>::empty());
    }
    while i < module.exports.len()
        invariant
            i <= module.exports@.len(),
            payload@ =~= mid + spec_export_entries(module@.exports.take(i as int)),
        decreases module.exports@.len() - i,
    {
        write_export(&mut payload, &module.exports[i]);
        proof {
            lemma_export_entries_push(module@.exports.take(i as int), module@.exports[i as int]);
            assert(module@.exports.take(i + 1) =~= module@.exports.take(i as int).push(
                module@.exports[i as int],
            ));
        }
        i = i + 1;
    }
    proof {
        assert(module@.exports.take(module.exports@.len() as int) =~= module@.exports);
        assert(payload@ =~= spec_export_payload(module@));
    }
    buf.push(SectionCode::Export.code());
    encode_leb128(buf, payload.len() as u64);
    buf.append(&mut payload);
    proof {
        assert(buf@ =~= old(buf)@ + spec_section(0x07, spec_export_payload(module@)));
    }
}

/// Writes the code section: each function's instruction bytes behind their
/// own byte length, in declaration order.
fn write_code_section(buf: &mut Vec<u8>, module: &Module)
    requires
        wf_module_repr(module),
    ensures
        final(buf)@ == old(buf)@ + spec_section(0x0a, spec_code_payload(module@)),
{
    let mut payload: Vec<u8> = Vec::new();
    encode_leb128(&mut payload, module.functions.len() as u64);
    let ghost mid = payload@;
    let mut i: usize = 0;
    proof {
        assert(module@.funcs.take(0) =~= Seq::<FuncModel>::empty());
    }
    while i < module.functions.len()
        invariant
            wf_module_repr(module),
            i <= module.functions@.len(),
            payload@ =~= mid + spec_code_entries(module@.funcs.take(i as int)),
        decreases module.functions@.len() - i,
    {
        let mut body_bytes: Vec<u8> = Vec::new();
        write_function_body(&mut body_bytes, &module.functions[i]);
        encode_leb128(&mut payload, body_bytes.len() as u64);
        payload.append(&mut body_bytes);
        proof {
            lemma_code_entries_push(module@.funcs.take(i as int), module@.funcs[i as int]);
            assert(module@.funcs.take(i + 1) =~= module@.funcs.take(i as int).push(
                module@.funcs[i as int],
            ));
            assert(payload@ =~= mid + spec_code_entries(module@.funcs.take(i + 1)));
        }
        i = i + 1;
    }
    proof {
        assert(module@.funcs.take(module.functions@.len() as int) =~= module@.funcs);
        assert(payload@ =~= spec_code_payload(module@));
    }
    buf.push(SectionCode::Code.code());
    encode_leb128(buf, payload.len() as u64);
    buf.append(&mut payload);
    proof {
        assert(buf@ =~= old(buf)@ + spec_section(0x0a, spec_code_payload(module@)));
    }
}

/// Serializes a compiled module into the exact byte stream of the binary
/// container: fixed header, then the four sections in fixed order.
pub fn serialize_module(module: &Module) -> (r: Vec<u8>)
    requires
        wf_module_repr(module),
    ensures
        r@ == spec_module_bytes(module@),
{
    let mut buf: Vec<u8> = Vec::new();
    buf.push(0x00);
    buf.push(0x61);
    buf.push(0x73);
    buf.push(0x6d);
    buf.push(0x01);
    buf.push(0x00);
    buf.push(0x00);
    buf.push(0x00);
    proof {
        assert(buf@ =~= spec_magic());
    }
    write_type_section(&mut buf, module);
    write_function_section(&mut buf, module);
    write_export_section(&mut buf, module);
    write_code_section(&mut buf, module);
    proof {
        assert(buf@ =~= spec_module_bytes(module@));
    }
    buf
}

/// Compiles a whole source unit and assembles the binary module: tokenize,
/// parse, emit every declaration into a fresh module, and serialize it. The
/// first error met aborts the compilation.
pub fn compile_into_wasm(source: &str) -> (r: Result<Vec<u8>, CompileError>)
    ensures
        (match r {
            Ok(bytes) => {
                &&& spec_emit_source(source@, Module::spec_empty()) is Ok
                &&& bytes@ == spec_module_bytes(
                    spec_emit_source(source@, Module::spec_empty())->Ok_0,
                )
                &&& bytes@.len() >= 8
                &&& bytes@.subrange(0, 8) == spec_magic()
            },
            Err(e) => spec_emit_source(source@, Module::spec_empty()) == Err::<
                ModuleModel,
                ErrModel,
            >(e@),
        }),
{
    let module = Module::default();
    let mut emitter = Emitter::new(module);
    match emitter.emit(source) {
        Ok(_) => {},
        Err(e) => {
            return Err(e);
        },
    }
    let bytes = serialize_module(&emitter.module);
    proof {
        lemma_module_bytes_magic(emitter.module@);
    }
    Ok(bytes)
}

} // verus!
