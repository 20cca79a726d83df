use osvm::image::{decode_program, encode_program};
use osvm::opcode::{Opcode, OpcodeType};
use osvm::word::Word;

fn sample() -> Vec<Opcode> {
    vec![
        Opcode { op_type: OpcodeType::Mov, op_operand: Some(Word::I64(-2)), op_regs: vec!["r0".to_string()] },
        Opcode { op_type: OpcodeType::Add, op_operand: None, op_regs: vec!["r2".into(), "r0".into(), "r1".into()] },
        Opcode { op_type: OpcodeType::Push, op_operand: Some(Word::F64(2.5f64.to_bits())), op_regs: vec![] },
        Opcode { op_type: OpcodeType::Hlt, op_operand: None, op_regs: vec![] },
    ]
}

#[test]
fn save_load_save_is_identity() {
    let bytes = encode_program(&sample());
    let loaded = decode_program(&bytes).unwrap();
    assert_eq!(encode_program(&loaded), bytes);
    assert_eq!(loaded.len(), 4);
    assert_eq!(loaded[1].op_regs, vec!["r2".to_string(), "r0".to_string(), "r1".to_string()]);
    assert_eq!(loaded[2].op_operand, Some(Word::F64(2.5f64.to_bits())));
}

#[test]
fn exact_layout() {
    let p = vec![Opcode { op_type: OpcodeType::Mov, op_operand: Some(Word::U64(258)), op_regs: vec!["r7".to_string()] }];
    let bytes = encode_program(&p);
    let mut want: Vec<u8> = vec![1, 0, 0, 0, 0, 0, 0, 0];
    want.extend_from_slice(&[1, 0, 0, 0]);
    want.extend_from_slice(&[1, 2, 1, 0, 0, 0, 0, 0, 0]);
    want.extend_from_slice(&[1, 0, 0, 0, 0, 0, 0, 0]);
    want.extend_from_slice(&[2, 0, 0, 0, 0, 0, 0, 0, b'r', b'7']);
    assert_eq!(bytes, want);
}

#[test]
fn empty_program_image() {
    let bytes = encode_program(&vec![]);
    assert_eq!(bytes, vec![0u8; 8]);
    assert_eq!(decode_program(&bytes).unwrap().len(), 0);
}

#[test]
fn malformed_images_are_refused() {
    let bytes = encode_program(&sample());
    assert!(decode_program(&bytes[..bytes.len() - 1]).is_none());
    let mut longer = bytes.clone();
    longer.push(0);
    assert!(decode_program(&longer).is_none());
    let mut bad_kind = bytes.clone();
    bad_kind[8] = 200;
    assert!(decode_program(&bad_kind).is_none());
    assert!(decode_program(&[]).is_none());
}

#[test]
fn names_must_be_utf8() {
    let p = vec![Opcode { op_type: OpcodeType::Clr, op_operand: None, op_regs: vec!["r1".to_string()] }];
    let mut bytes = encode_program(&p);
    let n = bytes.len();
    bytes[n - 1] = 0xFF;
    assert!(decode_program(&bytes).is_none());
}

#[test]
fn unicode_names_survive() {
    let p = vec![Opcode { op_type: OpcodeType::Push, op_operand: None, op_regs: vec!["ré✓".to_string()] }];
    let loaded = decode_program(&encode_program(&p)).unwrap();
    assert_eq!(loaded[0].op_regs, vec!["ré✓".to_string()]);
}

