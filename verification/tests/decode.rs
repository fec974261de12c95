use tiny_wasm::binary::instruction::Instruction;
use tiny_wasm::binary::module::{DecodeError, Module};
use tiny_wasm::binary::opcode::Opcode;
use tiny_wasm::binary::section::{Function, SectionCode};
use tiny_wasm::binary::types::{FuncType, FunctionLocal, ValueType};

const FUNC_LOCAL_WAT: &str = "(module
  (func
    (local i32)
    (local i64 i64)
  )
)
";

const FUNC_ADD_WAT: &str = "(module
  (func (param i32 i32) (result i32)
    (local.get 0)
    (local.get 1)
    i32.add
  )
)
";

#[test]
fn decode_simplest_module() {
    // Generate wasm binary with only preamble present
    let wasm = wat::parse_str("(module)").unwrap();
    // Decode binary and generate Module structure
    let module = Module::new(&wasm).unwrap();
    // Compare whether the generated Module structure is as expected
    assert_eq!(module, Module::default());
}

#[test]
fn decode_simple_function() {
    let wasm = wat::parse_str("(module (func))").unwrap();
    let module = Module::new(&wasm).unwrap();

    assert_eq!(
        module,
        Module {
            type_section: Some(vec![FuncType::default()]),
            function_section: Some(vec![0]),
            code_section: Some(vec![Function {
                locals: vec![],
                code: vec![Instruction::End],
            }]),
            ..Default::default()
        }
    );
}

#[test]
fn decode_func_params() {
    let wasm = wat::parse_str("(module (func (param i32 i64)))").unwrap();
    let module = Module::new(&wasm).unwrap();

    assert_eq!(
        module,
        Module {
            type_section: Some(vec![FuncType {
                params: vec![ValueType::I32, ValueType::I64],
                results: vec![],
            }]),
            function_section: Some(vec![0]),
            code_section: Some(vec![Function {
                locals: vec![],
                code: vec![Instruction::End],
            }]),
            ..Default::default()
        }
    );
}

#[test]
fn decode_func_local() {
    let wasm = wat::parse_str(FUNC_LOCAL_WAT).unwrap();
    let module = Module::new(&wasm).unwrap();
    assert_eq!(
        module,
        Module {
            type_section: Some(vec![FuncType::default()]),
            function_section: Some(vec![0]),
            code_section: Some(vec![Function {
                locals: vec![
                    FunctionLocal {
                        type_count: 1,
                        value_type: ValueType::I32,
                    },
                    FunctionLocal {
                        type_count: 2,
                        value_type: ValueType::I64,
                    },
                ],
                code: vec![Instruction::End],
            }]),
            ..Default::default()
        }
    );
}

#[test]
fn decode_func_add() {
    let wasm = wat::parse_str(FUNC_ADD_WAT).unwrap();
    let module = Module::new(&wasm).unwrap();
    assert_eq!(
        module,
        Module {
            type_section: Some(vec![FuncType {
                params: vec![ValueType::I32, ValueType::I32],
                results: vec![ValueType::I32],
            }]),
            function_section: Some(vec![0]),
            code_section: Some(vec![Function {
                locals: vec![],
                code: vec![
                    Instruction::LocalGet(0),
                    Instruction::LocalGet(1),
                    Instruction::I32Add,
                    Instruction::End
                ],
            }]),
            ..Default::default()
        }
    );
}

#[test]
fn default_module_has_preamble_and_version_one() {
    let module = Module::default();
    assert_eq!(module.magic, "\0asm");
    assert_eq!(module.version, 1);
    assert!(module.type_section.is_none());
    assert!(module.function_section.is_none());
    assert!(module.code_section.is_none());
}

#[test]
fn decode_keeps_the_version_of_the_input() {
    let wasm = [0x00, 0x61, 0x73, 0x6d, 0x02, 0x01, 0x00, 0x00];
    let module = Module::new(&wasm).unwrap();
    assert_eq!(module.magic, "\0asm");
    assert_eq!(module.version, 0x102);
}

#[test]
fn decode_gives_the_bytes_after_the_version() {
    let wasm = wat::parse_str("(module (func))").unwrap();
    let (rest, _) = Module::decode(&wasm).unwrap();
    assert_eq!(rest, &wasm[8..]);
}

#[test]
fn bad_preamble_is_malformed() {
    assert_eq!(Module::new(&[0x00, 0x61, 0x73, 0x6e, 1, 0, 0, 0]), Err(DecodeError::Malformed));
    assert_eq!(Module::new(&[0x00, 0x61, 0x73]), Err(DecodeError::Malformed));
}

#[test]
fn short_version_is_malformed() {
    assert_eq!(Module::new(&[0x00, 0x61, 0x73, 0x6d, 1, 0, 0]), Err(DecodeError::Malformed));
}

#[test]
fn section_longer_than_input_is_malformed() {
    // a type section that claims 5 bytes and holds 2
    let wasm = [0x00, 0x61, 0x73, 0x6d, 1, 0, 0, 0, 0x01, 0x05, 0x01, 0x60];
    assert_eq!(Module::new(&wasm), Err(DecodeError::Malformed));
}

#[test]
fn section_size_in_several_leb128_bytes() {
    // a function section whose size 2 is written as 0x82 0x00
    let wasm = [0x00, 0x61, 0x73, 0x6d, 1, 0, 0, 0, 0x03, 0x82, 0x00, 0x01, 0x07];
    let module = Module::new(&wasm).unwrap();
    assert_eq!(module.function_section, Some(vec![7]));
}

#[test]
fn leb128_number_of_six_bytes_is_malformed() {
    let wasm = [0x00, 0x61, 0x73, 0x6d, 1, 0, 0, 0, 0x03, 0x80, 0x80, 0x80, 0x80, 0x80, 0x00];
    assert_eq!(Module::new(&wasm), Err(DecodeError::Malformed));
}

#[test]
fn leb128_last_byte_bits_past_32_are_dropped() {
    // index 0xffff_ffff written with a fifth byte of 0x7f: the bits past 32 are dropped
    let wasm = [0x00, 0x61, 0x73, 0x6d, 1, 0, 0, 0, 0x03, 0x06, 0x01, 0xff, 0xff, 0xff, 0xff, 0x7f];
    let module = Module::new(&wasm).unwrap();
    assert_eq!(module.function_section, Some(vec![0xffff_ffff]));
}

#[test]
fn later_section_replaces_earlier_one() {
    let wasm = [0x00, 0x61, 0x73, 0x6d, 1, 0, 0, 0, 0x03, 0x02, 0x01, 0x04, 0x03, 0x03, 0x02, 0x05, 0x06];
    let module = Module::new(&wasm).unwrap();
    assert_eq!(module.function_section, Some(vec![5, 6]));
}

#[test]
fn export_section_is_unsupported() {
    let wasm = wat::parse_str("(module (func (export \"f\")))").unwrap();
    assert_eq!(
        Module::decode(&wasm).map(|(_, m)| m),
        Err(DecodeError::UnsupportedSection(SectionCode::Export))
    );
}

#[test]
fn custom_section_is_unknown() {
    let wasm = [0x00, 0x61, 0x73, 0x6d, 1, 0, 0, 0, 0x00, 0x01, 0x00];
    assert_eq!(Module::decode(&wasm).map(|(_, m)| m), Err(DecodeError::UnknownSection(0)));
}

#[test]
fn float_parameter_is_an_invalid_value_type() {
    let wasm = wat::parse_str("(module (func (param f32)))").unwrap();
    assert_eq!(Module::decode(&wasm).map(|(_, m)| m), Err(DecodeError::InvalidValueType(0x7d)));
}

#[test]
fn unknown_instruction_is_an_invalid_opcode() {
    let wasm = wat::parse_str("(module (func (param i32 i32) (result i32) local.get 0 local.get 1 i32.sub))").unwrap();
    assert_eq!(Module::decode(&wasm).map(|(_, m)| m), Err(DecodeError::InvalidOpcode(0x6b)));
}

#[test]
fn section_code_and_opcode_tables() {
    assert_eq!(SectionCode::from_u8(0x01), Some(SectionCode::Type));
    assert_eq!(SectionCode::from_u8(0x02), Some(SectionCode::Import));
    assert_eq!(SectionCode::from_u8(0x03), Some(SectionCode::Function));
    assert_eq!(SectionCode::from_u8(0x05), Some(SectionCode::Memory));
    assert_eq!(SectionCode::from_u8(0x07), Some(SectionCode::Export));
    assert_eq!(SectionCode::from_u8(0x0a), Some(SectionCode::Code));
    assert_eq!(SectionCode::from_u8(0x0b), Some(SectionCode::Data));
    assert_eq!(SectionCode::from_u8(0x04), None);
    assert_eq!(Opcode::from_u8(0x0b), Some(Opcode::End));
    assert_eq!(Opcode::from_u8(0x20), Some(Opcode::LocalGet));
    assert_eq!(Opcode::from_u8(0x6a), Some(Opcode::I32Add));
    assert_eq!(Opcode::from_u8(0x6b), None);
    assert_eq!(ValueType::from_byte(0x7f), Some(ValueType::I32));
    assert_eq!(ValueType::from_byte(0x7e), Some(ValueType::I64));
    assert_eq!(ValueType::from_byte(0x7d), None);
}

#[test]
fn sections_of_different_kinds_commute() {
    let header = [0x00, 0x61, 0x73, 0x6d, 1, 0, 0, 0];
    let type_section = [0x01, 0x04, 0x01, 0x60, 0x00, 0x00];
    let function_section = [0x03, 0x02, 0x01, 0x00];
    let a: Vec<u8> = [&header[..], &type_section[..], &function_section[..]].concat();
    let b: Vec<u8> = [&header[..], &function_section[..], &type_section[..]].concat();
    let ma = Module::new(&a).unwrap();
    let mb = Module::new(&b).unwrap();
    assert_eq!(ma, mb);
    assert_eq!(ma.type_section, Some(vec![FuncType::default()]));
    assert_eq!(ma.function_section, Some(vec![0]));
    assert!(ma.code_section.is_none());
}

#[test]
fn sections_commute_when_one_fails() {
    let header = [0x00, 0x61, 0x73, 0x6d, 1, 0, 0, 0];
    // a type section whose parameter byte names no value type
    let type_section = [0x01, 0x05, 0x01, 0x60, 0x01, 0x7d, 0x00];
    let function_section = [0x03, 0x02, 0x01, 0x00];
    let a: Vec<u8> = [&header[..], &type_section[..], &function_section[..]].concat();
    let b: Vec<u8> = [&header[..], &function_section[..], &type_section[..]].concat();
    assert_eq!(Module::decode(&a).map(|(_, m)| m), Err(DecodeError::InvalidValueType(0x7d)));
    assert_eq!(Module::decode(&b).map(|(_, m)| m), Err(DecodeError::InvalidValueType(0x7d)));
}

#[test]
fn sections_commute_when_both_fail_alike() {
    let header = [0x00, 0x61, 0x73, 0x6d, 1, 0, 0, 0];
    // both sections hold a count that is cut short
    let type_section = [0x01, 0x01, 0x80];
    let function_section = [0x03, 0x01, 0x80];
    let a: Vec<u8> = [&header[..], &type_section[..], &function_section[..]].concat();
    let b: Vec<u8> = [&header[..], &function_section[..], &type_section[..]].concat();
    assert_eq!(Module::new(&a), Err(DecodeError::Malformed));
    assert_eq!(Module::new(&b), Err(DecodeError::Malformed));
}
