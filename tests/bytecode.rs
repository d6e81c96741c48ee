use lunar_lang::bytecode::{Bytecode, OpCode, Operand};

#[test]
fn opcode_bytes_follow_instruction_set_order() {
    assert_eq!(OpCode::NOP.to_byte(), 0);
    assert_eq!(OpCode::LOADI.to_byte(), 3);
    assert_eq!(OpCode::LOADNIL.to_byte(), 17);
    assert_eq!(OpCode::SSEND.to_byte(), 45);
    assert_eq!(OpCode::SENDB.to_byte(), 48);
    assert_eq!(OpCode::ENTER.to_byte(), 52);
    assert_eq!(OpCode::RETURN.to_byte(), 56);
    assert_eq!(OpCode::ARRAY.to_byte(), 71);
    assert_eq!(OpCode::STRING.to_byte(), 81);
    assert_eq!(OpCode::BLOCK.to_byte(), 87);
    assert_eq!(OpCode::STOP.to_byte(), 105);
    assert_eq!(OpCode::NumberOfOpcode.to_byte(), 106);
}

#[test]
fn operand_shapes_encode_big_endian() {
    let b = |op, operand| Bytecode::new(op, operand).to_bytes_vec();
    assert_eq!(b(OpCode::STOP, Operand::Z), vec![105]);
    assert_eq!(b(OpCode::LOADNIL, Operand::B(7)), vec![17, 7]);
    assert_eq!(b(OpCode::LOADI, Operand::BB(1, 200)), vec![3, 1, 200]);
    assert_eq!(b(OpCode::SSEND, Operand::BBB(1, 2, 3)), vec![45, 1, 2, 3]);
    assert_eq!(b(OpCode::NOP, Operand::BS(9, 0x1234)), vec![0, 9, 0x12, 0x34]);
    assert_eq!(b(OpCode::NOP, Operand::BSS(9, 0x0102, 0xa0b0)), vec![0, 9, 1, 2, 0xa0, 0xb0]);
    assert_eq!(b(OpCode::NOP, Operand::S(0xbeef)), vec![0, 0xbe, 0xef]);
}

#[test]
fn word_operand_keeps_low_three_bytes() {
    let bytes = Bytecode::new(OpCode::ENTER, Operand::W(0x40000)).to_bytes_vec();
    assert_eq!(bytes, vec![52, 0x04, 0x00, 0x00]);
    let bytes = Bytecode::new(OpCode::ENTER, Operand::W(0xaabbccdd)).to_bytes_vec();
    assert_eq!(bytes, vec![52, 0xbb, 0xcc, 0xdd]);
}
