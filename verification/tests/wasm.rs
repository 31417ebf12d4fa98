use wasm_syntax::codec::Decode;
use wasm_syntax::codec::DecodeError;
use wasm_syntax::codec::Encode;
use wasm_syntax::codec::Name;
use wasm_syntax::codec::Repeated;
use wasm_syntax::codec::Sized;
use wasm_syntax::instr::Else;
use wasm_syntax::instr::Expr;
use wasm_syntax::instr::Instr;
use wasm_syntax::module::Custom;
use wasm_syntax::module::Export;
use wasm_syntax::module::Module;
use wasm_syntax::module::Section;
use wasm_syntax::types::ExportDesc;
use wasm_syntax::types::FuncIdx;
use wasm_syntax::types::LabelIdx;
use wasm_syntax::types::MemArg;
use wasm_syntax::types::ValType;

#[test]
fn test_custom_section_decode() {
    let bytes = [
        0x04, // section name size = 4
        0x6E, 0x61, 0x6D, 0x65, // "name"
        0x02, 0x03, 0x01, 0x00, 0x00, // random
    ];
    let (Custom(name, contents), rest) = Custom::decode(&bytes).unwrap();
    assert_eq!(rest, []);
    assert_eq!(name.0.as_str(), "name");
    assert_eq!(contents.0, [0x02, 0x03, 0x01, 0x00, 0x00]);
}

#[test]
fn test_custom_section_round_trip() {
    let bytes = [0x04, 0x6E, 0x61, 0x6D, 0x65, 0x02, 0x03, 0x01, 0x00, 0x00];
    let (custom, rest) = Custom::decode(&bytes).unwrap();
    assert_eq!(rest, []);
    let mut out = vec![];
    custom.encode(&mut out);
    assert_eq!(out, bytes);
}

#[test]
fn test_module_magic_and_version() {
    // empty module: magic, version, no sections
    let bytes = [0x00, 0x61, 0x73, 0x6D, 0x01, 0x00, 0x00, 0x00];
    let (module, rest) = Module::decode(&bytes).unwrap();
    assert_eq!(rest, []);
    assert_eq!(module.0 .0.len(), 0);
    // wrong magic must fail
    assert!(Module::decode(&[0x00, 0x61, 0x73, 0x6E, 0x01, 0x00, 0x00, 0x00]).is_err());
    // wrong version must fail
    assert!(Module::decode(&[0x00, 0x61, 0x73, 0x6D, 0x02, 0x00, 0x00, 0x00]).is_err());
    // truncated magic must fail
    assert!(Module::decode(&[0x00, 0x61, 0x73]).is_err());
}

#[test]
fn test_module_with_sections_round_trip() {
    // magic/version, then an export section: 1 export, "f" -> func 0
    let bytes = [
        0x00, 0x61, 0x73, 0x6D, 0x01, 0x00, 0x00, 0x00, // header
        0x07, 0x05, // export section id, size
        0x01, // one export
        0x01, 0x66, // name "f"
        0x00, 0x00, // func index 0
    ];
    let (module, rest) = Module::decode(&bytes).unwrap();
    assert_eq!(rest, []);
    assert_eq!(module.0 .0.len(), 1);
    match &module.0 .0[0] {
        Section::Export(Sized(exports)) => {
            assert_eq!(exports.len(), 1);
            assert_eq!(exports[0], Export(Name(String::from("f")), ExportDesc::Func(FuncIdx(0))));
        }
        other => panic!("wrong section: {:?}", other),
    }
    let mut out = vec![];
    module.encode(&mut out);
    assert_eq!(out, bytes);
}

#[test]
fn test_instr_dispatch() {
    // every listed opcode decodes to its own variant
    assert_eq!(Instr::decode(&[0x00]).unwrap(), (Instr::Unreachable, [].as_ref()));
    assert_eq!(Instr::decode(&[0x01]).unwrap(), (Instr::Nop, [].as_ref()));
    assert_eq!(Instr::decode(&[0x6A]).unwrap(), (Instr::I32Add, [].as_ref()));
    assert_eq!(Instr::decode(&[0xC4]).unwrap(), (Instr::I64Extend32S, [].as_ref()));
    assert_eq!(
        Instr::decode(&[0x0C, 0x03]).unwrap(),
        (Instr::Br(LabelIdx(3)), [].as_ref())
    );
    assert_eq!(
        Instr::decode(&[0x28, 0x02, 0x04]).unwrap(),
        (Instr::I32Load(MemArg(2, 4)), [].as_ref())
    );
    assert_eq!(
        Instr::decode(&[0x41, 0x2A]).unwrap(),
        (Instr::I32Const(42), [].as_ref())
    );
    assert_eq!(
        Instr::decode(&[0xFC, 0x00]).unwrap(),
        (Instr::I32TruncSatF32S, [].as_ref())
    );
    // opcodes the grammar does not list must fail, not skip
    assert_eq!(Instr::decode(&[0x05]), Err(DecodeError::Error));
    assert_eq!(Instr::decode(&[0x0B]), Err(DecodeError::Error));
    assert_eq!(Instr::decode(&[0x1D]), Err(DecodeError::Error));
    assert_eq!(Instr::decode(&[0x27]), Err(DecodeError::Error));
    assert_eq!(Instr::decode(&[0xFD]), Err(DecodeError::Error));
    assert_eq!(Instr::decode(&[0xFC, 0x12]), Err(DecodeError::Error));
}

#[test]
fn test_block_and_if_round_trip() {
    // block (type -64 = epsilon) containing nop, terminated by 0x0B
    let bytes = [0x02, 0x40, 0x01, 0x0B];
    let (instr, rest) = Instr::decode(&bytes).unwrap();
    assert_eq!(rest, []);
    assert_eq!(instr, Instr::Block(-64, Repeated(vec![Instr::Nop])));
    let mut out = vec![];
    instr.encode(&mut out);
    assert_eq!(out, bytes);

    // if with an else branch
    let bytes = [0x04, 0x40, 0x01, 0x05, 0x00, 0x0B];
    let (instr, rest) = Instr::decode(&bytes).unwrap();
    assert_eq!(rest, []);
    assert_eq!(
        instr,
        Instr::If(
            -64,
            Repeated(vec![Instr::Nop]),
            Else::Else(Repeated(vec![Instr::Unreachable]))
        )
    );
    let mut out = vec![];
    instr.encode(&mut out);
    assert_eq!(out, bytes);
}

#[test]
fn test_expr_terminator() {
    let bytes = [0x01, 0x01, 0x0B, 0x99];
    let (expr, rest) = Expr::decode(&bytes).unwrap();
    assert_eq!(rest, [0x99]);
    assert_eq!(expr, Expr(Repeated(vec![Instr::Nop, Instr::Nop])));
    // an expression missing its terminator fails
    assert_eq!(Expr::decode(&[0x01, 0x01]), Err(DecodeError::Error));
}

#[test]
fn test_select_tys_round_trip() {
    let bytes = [0x1C, 0x02, 0x7F, 0x7E];
    let (instr, rest) = Instr::decode(&bytes).unwrap();
    assert_eq!(rest, []);
    assert_eq!(instr, Instr::SelectTys(vec![ValType::I32, ValType::I64]));
    let mut out = vec![];
    instr.encode(&mut out);
    assert_eq!(out, bytes);
}

#[test]
fn test_decode_empty_fails_for_non_terminals() {
    assert!(Module::decode(&[]).is_err());
    assert!(Section::decode(&[]).is_err());
    assert!(Instr::decode(&[]).is_err());
    assert!(Else::decode(&[]).is_err());
    assert!(Expr::decode(&[]).is_err());
    assert!(ValType::decode(&[]).is_err());
    assert!(Custom::decode(&[]).is_err());
    assert!(Export::decode(&[]).is_err());
}
