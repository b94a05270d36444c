use wasmlite::error::Error;
use wasmlite::instance::{resolve, Instance, Value};
use wasmlite::module::{decode, Export, Func, FuncType, Instr, Module, Val};

fn uleb(mut v: u64) -> Vec<u8> {
    let mut out = Vec::new();
    loop {
        let low = (v & 0x7F) as u8;
        v >>= 7;
        if v == 0 {
            out.push(low);
            return out;
        }
        out.push(low | 0x80);
    }
}

fn section(id: u8, payload: &[u8]) -> Vec<u8> {
    let mut out = vec![id];
    out.extend_from_slice(&uleb(payload.len() as u64));
    out.extend_from_slice(payload);
    out
}

fn header() -> Vec<u8> {
    vec![0x00, 0x61, 0x73, 0x6D, 0x01, 0x00, 0x00, 0x00]
}

/// magic + version + (type, function, export, code) sections for one
/// function `(i32, i32) -> i32` named `add` whose body adds its arguments.
fn add_module_bytes() -> Vec<u8> {
    let mut m = header();
    // type section: one functype (i32, i32) -> i32
    let mut ty = uleb(1);
    ty.extend_from_slice(&[0x60, 0x02, 0x7F, 0x7F, 0x01, 0x7F]);
    m.extend_from_slice(&section(0x01, &ty));
    // function section: one function of type 0
    let mut fs = uleb(1);
    fs.extend_from_slice(&uleb(0));
    m.extend_from_slice(&section(0x03, &fs));
    // export section: "add" -> function 0
    let mut ex = uleb(1);
    ex.extend_from_slice(&uleb(3));
    ex.extend_from_slice(b"add");
    ex.extend_from_slice(&uleb(0));
    ex.extend_from_slice(&uleb(0));
    m.extend_from_slice(&section(0x07, &ex));
    // code section: one body, no locals, local.get 0; local.get 1; i32.add; end
    let body = [0x00u8, 0x20, 0x00, 0x20, 0x01, 0x6A, 0x0B];
    let mut code = uleb(1);
    code.extend_from_slice(&uleb(body.len() as u64 + 1));
    code.extend_from_slice(&uleb(0));
    code.extend_from_slice(&body);
    m.extend_from_slice(&section(0x0A, &code));
    m
}

#[test]
fn empty_module_decodes() {
    let m = decode(&header()).unwrap();
    assert!(m.funcs.is_empty());
    assert!(m.exports.is_empty());
}

#[test]
fn bad_magic_is_rejected() {
    let mut bytes = header();
    bytes[0] = 0x01;
    assert_eq!(decode(&bytes), Err(Error::BadMagic));
}

#[test]
fn bad_version_is_rejected() {
    let mut bytes = header();
    bytes[4] = 0x02;
    assert_eq!(decode(&bytes), Err(Error::UnsupportedVersion));
}

#[test]
fn truncated_header_is_rejected() {
    assert_eq!(decode(&[0x00, 0x61]), Err(Error::UnexpectedEof));
    assert_eq!(decode(&[0x00, 0x61, 0x73, 0x6D, 0x01]), Err(Error::UnexpectedEof));
}

#[test]
fn round_trip_of_hand_built_module() {
    let m = decode(&add_module_bytes()).unwrap();
    let expected = Module {
        funcs: vec![Func {
            ty: FuncType { params: vec![Val::I32, Val::I32], results: vec![Val::I32] },
            locals: vec![],
            body: vec![Instr::LocalGet(0), Instr::LocalGet(1), Instr::I32Add, Instr::End],
        }],
        exports: vec![Export { name: "add".to_string(), ty: 0, idx: 0 }],
    };
    assert_eq!(m, expected);
}

#[test]
fn locals_groups_are_expanded() {
    let mut m = header();
    let mut ty = uleb(1);
    ty.extend_from_slice(&[0x60, 0x00, 0x00]);
    m.extend_from_slice(&section(0x01, &ty));
    let mut fs = uleb(1);
    fs.extend_from_slice(&uleb(0));
    m.extend_from_slice(&section(0x03, &fs));
    // one body: two groups of locals (2 x i32, 1 x i64), then end
    let mut code = uleb(1);
    let body = [0x02u8, 0x02, 0x7F, 0x01, 0x7E, 0x0B];
    code.extend_from_slice(&uleb(body.len() as u64));
    code.extend_from_slice(&body);
    m.extend_from_slice(&section(0x0A, &code));
    let decoded = decode(&m).unwrap();
    assert_eq!(decoded.funcs[0].locals, vec![Val::I32, Val::I32, Val::I64]);
    assert_eq!(decoded.funcs[0].body, vec![Instr::End]);
}

#[test]
fn unknown_type_index_is_rejected() {
    let mut m = header();
    let mut ty = uleb(1);
    ty.extend_from_slice(&[0x60, 0x00, 0x00]);
    m.extend_from_slice(&section(0x01, &ty));
    let mut fs = uleb(1);
    fs.extend_from_slice(&uleb(5));
    m.extend_from_slice(&section(0x03, &fs));
    assert_eq!(decode(&m), Err(Error::UnknownType(5)));
}

#[test]
fn unknown_sections_are_skipped() {
    let mut m = header();
    // a custom section before anything known
    m.extend_from_slice(&section(0x00, b"name-section-payload"));
    let mut ty = uleb(1);
    ty.extend_from_slice(&[0x60, 0x00, 0x01, 0x7F]);
    m.extend_from_slice(&section(0x01, &ty));
    // another unknown id between known sections
    m.extend_from_slice(&section(0x63, &[1, 2, 3]));
    let mut fs = uleb(1);
    fs.extend_from_slice(&uleb(0));
    m.extend_from_slice(&section(0x03, &fs));
    let decoded = decode(&m).unwrap();
    assert_eq!(decoded.funcs.len(), 1);
    assert_eq!(decoded.funcs[0].ty.results, vec![Val::I32]);
}

#[test]
fn missing_functype_marker_is_rejected() {
    let mut m = header();
    let mut ty = uleb(1);
    ty.extend_from_slice(&[0x61, 0x00, 0x00]);
    m.extend_from_slice(&section(0x01, &ty));
    assert_eq!(decode(&m), Err(Error::MalformedSection));
}

#[test]
fn wrong_section_length_is_rejected() {
    let mut m = header();
    // declared length 5, actual payload of the type section is 4 bytes
    m.extend_from_slice(&[0x01, 0x05, 0x01, 0x60, 0x00, 0x00]);
    assert_eq!(decode(&m), Err(Error::MalformedSection));
}

#[test]
fn unknown_value_type_is_rejected() {
    let mut m = header();
    let mut ty = uleb(1);
    ty.extend_from_slice(&[0x60, 0x01, 0x50, 0x00]);
    m.extend_from_slice(&section(0x01, &ty));
    assert_eq!(decode(&m), Err(Error::UnknownValueType(0x50)));
}

#[test]
fn invalid_export_name_is_rejected() {
    let mut m = header();
    let mut ex = uleb(1);
    ex.extend_from_slice(&uleb(1));
    ex.push(0xFF);
    ex.extend_from_slice(&uleb(0));
    ex.extend_from_slice(&uleb(0));
    m.extend_from_slice(&section(0x07, &ex));
    assert_eq!(decode(&m), Err(Error::InvalidExportName));
}

#[test]
fn non_ascii_export_name_round_trips() {
    let name = "größer";
    let mut m = header();
    let mut ex = uleb(1);
    ex.extend_from_slice(&uleb(name.len() as u64));
    ex.extend_from_slice(name.as_bytes());
    ex.extend_from_slice(&uleb(0));
    ex.extend_from_slice(&uleb(7));
    m.extend_from_slice(&section(0x07, &ex));
    let decoded = decode(&m).unwrap();
    assert_eq!(decoded.exports[0].name, name);
    assert_eq!(decoded.exports[0].idx, 7);
}

#[test]
fn function_count_mismatch_is_rejected() {
    let mut m = header();
    let mut ty = uleb(1);
    ty.extend_from_slice(&[0x60, 0x00, 0x00]);
    m.extend_from_slice(&section(0x01, &ty));
    let mut fs = uleb(1);
    fs.extend_from_slice(&uleb(0));
    m.extend_from_slice(&section(0x03, &fs));
    // code section claims two bodies for one declared function
    let mut code = uleb(2);
    code.extend_from_slice(&[0x02, 0x00, 0x0B, 0x02, 0x00, 0x0B]);
    m.extend_from_slice(&section(0x0A, &code));
    assert_eq!(decode(&m), Err(Error::FunctionCountMismatch));
}

#[test]
fn unknown_opcode_is_rejected() {
    let mut m = header();
    let mut ty = uleb(1);
    ty.extend_from_slice(&[0x60, 0x00, 0x00]);
    m.extend_from_slice(&section(0x01, &ty));
    let mut fs = uleb(1);
    fs.extend_from_slice(&uleb(0));
    m.extend_from_slice(&section(0x03, &fs));
    let mut code = uleb(1);
    code.extend_from_slice(&[0x02, 0x00, 0xFE]);
    m.extend_from_slice(&section(0x0A, &code));
    assert_eq!(decode(&m), Err(Error::UnknownOpcode(0xFE)));
}

#[test]
fn oversized_varint_is_rejected() {
    let mut m = header();
    // a type-section count that needs more than 32 bits
    let mut ty = Vec::new();
    ty.extend_from_slice(&uleb(1u64 << 33));
    m.extend_from_slice(&section(0x01, &ty));
    assert_eq!(decode(&m), Err(Error::IntegerTooLarge));
}

#[test]
fn multibyte_immediates_decode() {
    let mut m = header();
    let mut ty = uleb(1);
    ty.extend_from_slice(&[0x60, 0x00, 0x00]);
    m.extend_from_slice(&section(0x01, &ty));
    let mut fs = uleb(1);
    fs.extend_from_slice(&uleb(0));
    m.extend_from_slice(&section(0x03, &fs));
    // local.get 300 (two-byte index), load -5 (signed), then end
    let body = [0x20u8, 0xAC, 0x02, 0x28, 0x7B, 0x0B];
    let mut code = uleb(1);
    code.extend_from_slice(&uleb(body.len() as u64 + 1));
    code.extend_from_slice(&uleb(0));
    code.extend_from_slice(&body);
    m.extend_from_slice(&section(0x0A, &code));
    let decoded = decode(&m).unwrap();
    assert_eq!(
        decoded.funcs[0].body,
        vec![Instr::LocalGet(300), Instr::LoadI32(-5), Instr::End]
    );
}

#[test]
fn const_f64_carries_its_raw_bits() {
    let mut m = header();
    let mut ty = uleb(1);
    ty.extend_from_slice(&[0x60, 0x00, 0x00]);
    m.extend_from_slice(&section(0x01, &ty));
    let mut fs = uleb(1);
    fs.extend_from_slice(&uleb(0));
    m.extend_from_slice(&section(0x03, &fs));
    let bits: u64 = 0x4045_0000_0000_0000;
    let mut body = vec![0x44u8];
    body.extend_from_slice(&bits.to_le_bytes());
    body.push(0x0B);
    let mut code = uleb(1);
    code.extend_from_slice(&uleb(body.len() as u64 + 1));
    code.extend_from_slice(&uleb(0));
    code.extend_from_slice(&body);
    m.extend_from_slice(&section(0x0A, &code));
    let decoded = decode(&m).unwrap();
    assert_eq!(decoded.funcs[0].body, vec![Instr::ConstF64(bits), Instr::End]);
}

#[test]
fn bytes_after_end_inside_body_are_skipped() {
    let mut m = header();
    let mut ty = uleb(1);
    ty.extend_from_slice(&[0x60, 0x00, 0x00]);
    m.extend_from_slice(&section(0x01, &ty));
    let mut fs = uleb(1);
    fs.extend_from_slice(&uleb(0));
    m.extend_from_slice(&section(0x03, &fs));
    // body of declared length 4: end opcode, then two ignored bytes
    let mut code = uleb(1);
    code.extend_from_slice(&[0x04, 0x00, 0x0B, 0x77, 0x77]);
    m.extend_from_slice(&section(0x0A, &code));
    let decoded = decode(&m).unwrap();
    assert_eq!(decoded.funcs[0].body, vec![Instr::End]);
}

#[test]
fn export_index_may_use_all_ten_varint_bytes() {
    let mut m = header();
    let mut ex = uleb(1);
    ex.extend_from_slice(&uleb(1));
    ex.push(b'f');
    ex.extend_from_slice(&uleb(0));
    ex.extend_from_slice(&uleb(u64::MAX));
    m.extend_from_slice(&section(0x07, &ex));
    let decoded = decode(&m).unwrap();
    assert_eq!(decoded.exports[0].idx, u64::MAX);
}

#[test]
fn padded_varint_encodings_are_accepted() {
    let mut m = header();
    // type count 1 written as the two-byte encoding 0x81 0x00
    let mut ty = vec![0x81u8, 0x00];
    ty.extend_from_slice(&[0x60, 0x00, 0x00]);
    m.extend_from_slice(&section(0x01, &ty));
    let decoded = decode(&m).unwrap();
    assert!(decoded.funcs.is_empty());
}

#[test]
fn signed_immediate_outside_i32_is_rejected() {
    let mut m = header();
    let mut ty = uleb(1);
    ty.extend_from_slice(&[0x60, 0x00, 0x00]);
    m.extend_from_slice(&section(0x01, &ty));
    let mut fs = uleb(1);
    fs.extend_from_slice(&uleb(0));
    m.extend_from_slice(&section(0x03, &fs));
    // load with offset 2^31, one past i32::MAX
    let body = [0x28u8, 0x80, 0x80, 0x80, 0x80, 0x08, 0x0B];
    let mut code = uleb(1);
    code.extend_from_slice(&uleb(body.len() as u64 + 1));
    code.extend_from_slice(&uleb(0));
    code.extend_from_slice(&body);
    m.extend_from_slice(&section(0x0A, &code));
    assert_eq!(decode(&m), Err(Error::IntegerTooLarge));
}

#[test]
fn body_length_past_the_stream_is_rejected() {
    let mut m = header();
    let mut ty = uleb(1);
    ty.extend_from_slice(&[0x60, 0x00, 0x00]);
    m.extend_from_slice(&section(0x01, &ty));
    let mut fs = uleb(1);
    fs.extend_from_slice(&uleb(0));
    m.extend_from_slice(&section(0x03, &fs));
    // one body that claims 100 bytes the stream does not have
    let mut code = uleb(1);
    code.extend_from_slice(&[100, 0x00, 0x0B]);
    m.extend_from_slice(&section(0x0A, &code));
    assert_eq!(decode(&m), Err(Error::UnexpectedEof));
}

#[test]
fn resolve_finds_first_match_and_rejects_missing() {
    let module = Module {
        funcs: vec![
            Func {
                ty: FuncType { params: vec![], results: vec![] },
                locals: vec![],
                body: vec![Instr::LocalGet(0), Instr::End],
            },
            Func {
                ty: FuncType { params: vec![], results: vec![] },
                locals: vec![],
                body: vec![Instr::I32Mul, Instr::End],
            },
        ],
        exports: vec![
            Export { name: "add".to_string(), ty: 0, idx: 0 },
            Export { name: "mul".to_string(), ty: 0, idx: 1 },
        ],
    };
    let f = resolve(&module, "add").unwrap();
    assert_eq!(f.body, vec![Instr::LocalGet(0), Instr::End]);
    let g = resolve(&module, "mul").unwrap();
    assert_eq!(g.body, vec![Instr::I32Mul, Instr::End]);
    assert!(matches!(resolve(&module, "sub"), Err(Error::ExportNotFound)));
}

#[test]
fn export_with_bad_function_index_fails_at_lookup() {
    let module = Module {
        funcs: vec![],
        exports: vec![Export { name: "ghost".to_string(), ty: 0, idx: 3 }],
    };
    assert!(matches!(resolve(&module, "ghost"), Err(Error::FunctionIndexOutOfRange)));
}

#[test]
fn decoded_module_executes_through_instance() {
    let module = decode(&add_module_bytes()).unwrap();
    let instance = Instance::new(module);
    let add = instance.exports.get_function("add").unwrap();
    let r = add.call(&[Value::I32(12), Value::I32(42)]).unwrap();
    assert_eq!(r, Value::I32(54));
}
