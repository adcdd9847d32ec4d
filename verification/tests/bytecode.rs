use lunir_luau::bytecode::{Instruction, OpCode};
use lunir_luau::error::DecodeError;

#[test]
fn test_decoding() {
    let jump = Instruction(0x10_00_FF_16);

    assert_eq!(jump.opcode().unwrap(), OpCode::Jump);
    assert_eq!(jump.operand_a(), 0xFF);
    assert_eq!(jump.operand_b(), 0x00);
    assert_eq!(jump.operand_c(), 0x10);
    assert_eq!(jump.operand_d(), 0x10_00);
}

#[test]
#[should_panic]
fn test_invalid_opcode() {
    let _ = Instruction(0x50_FF_8C_FF).opcode().unwrap();
}

#[test]
fn invalid_opcode_is_an_error_not_a_panic() {
    // Low byte 0x8C matches no opcode tag.
    let r = Instruction(0x10_00_FF_8C).opcode();
    assert_eq!(r, Err(DecodeError::InvalidOpcode(0x8C)));
}

#[test]
fn opcode_table_boundaries() {
    assert_eq!(OpCode::from_tag(0), Some(OpCode::Nop));
    assert_eq!(
        OpCode::from_tag(79),
        Some(OpCode::JumpExtendedIfConstantEqualString)
    );
    assert_eq!(OpCode::from_tag(80), None);
    assert_eq!(OpCode::from_tag(255), None);
    assert_eq!(OpCode::from_tag(59), Some(OpCode::DeprecatedForLoopINext));
    assert_eq!(OpCode::from_tag(71), Some(OpCode::DeprecatedJumpIfConstantNotEqual));
}

#[test]
fn operand_d_is_signed() {
    // Word with bits 16..31 = 0xFFFF: the D operand reads as -1.
    let i = Instruction(0xFFFF_0017);
    assert_eq!(i.operand_d(), -1);
}

#[test]
fn operand_e_is_signed_24_bit() {
    // Bits 8..31 = 0xFFFFFF: the E operand reads as -1.
    let neg = Instruction(0xFFFF_FF42);
    assert_eq!(neg.operand_e(), -1);
    // Bits 8..31 = 0x000010: a small positive jump offset.
    let pos = Instruction(0x0000_1042);
    assert_eq!(pos.operand_e(), 0x10);
}

#[test]
fn raw_returns_the_untouched_word() {
    assert_eq!(Instruction(0xDEAD_BEEF).raw(), 0xDEAD_BEEF);
}
