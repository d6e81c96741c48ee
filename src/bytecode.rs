use vstd::prelude::*;

verus! {

/// The instruction set of the RITE virtual machine, in opcode order.
#[allow(non_camel_case_types)]
#[derive(Debug, Copy, Clone, PartialEq, Eq, Structural)]
pub enum OpCode {
    NOP,
    MOVE,
    LOADL,
    LOADI,
    LOADINEG,
    LOADI__1,
    LOADI_0,
    LOADI_1,
    LOADI_2,
    LOADI_3,
    LOADI_4,
    LOADI_5,
    LOADI_6,
    LOADI_7,
    LOADI16,
    LOADI32,
    LOADSYM,
    LOADNIL,
    LOADSELF,
    LOADT,
    LOADF,
    GETGV,
    SETGV,
    GETSV,
    SETSV,
    GETIV,
    SETIV,
    GETCV,
    SETCV,
    GETCONST,
    SETCONST,
    GETMCNST,
    SETMCNST,
    GETUPVAR,
    SETUPVAR,
    GETIDX,
    SETIDX,
    JMP,
    JMPIF,
    JMPNOT,
    JMPNIL,
    JMPUW,
    EXCEPT,
    RESCUE,
    RAISEIF,
    SSEND,
    SSENDB,
    SEND,
    SENDB,
    CALL,
    SUPER,
    ARGARY,
    ENTER,
    KEY_P,
    KEYEND,
    KARG,
    RETURN,
    RETURN_BLK,
    BREAK,
    BLKPUSH,
    ADD,
    ADDI,
    SUB,
    SUBI,
    MUL,
    DIV,
    EQ,
    LT,
    LE,
    GT,
    GE,
    ARRAY,
    ARRAY2,
    ARYCAT,
    ARYPUSH,
    ARYSPLAT,
    AREF,
    ASET,
    APOST,
    INTERN,
    SYMBOL,
    STRING,
    STRCAT,
    HASH,
    HASHADD,
    HASHCAT,
    LAMBDA,
    BLOCK,
    METHOD,
    RANGE_INC,
    RANGE_EXC,
    OCLASS,
    CLASS,
    MODULE,
    EXEC,
    DEF,
    ALIAS,
    UNDEF,
    SCLASS,
    TCLASS,
    DEBUG,
    ERR,
    EXT1,
    EXT2,
    EXT3,
    STOP,
    NumberOfOpcode,
}

/// The byte that encodes an opcode: its position in the instruction set.
pub open spec fn opcode_byte(op: OpCode) -> u8 {
    match op {
        OpCode::NOP => 0u8,
        OpCode::MOVE => 1u8,
        OpCode::LOADL => 2u8,
        OpCode::LOADI => 3u8,
        OpCode::LOADINEG => 4u8,
        OpCode::LOADI__1 => 5u8,
        OpCode::LOADI_0 => 6u8,
        OpCode::LOADI_1 => 7u8,
        OpCode::LOADI_2 => 8u8,
        OpCode::LOADI_3 => 9u8,
        OpCode::LOADI_4 => 10u8,
        OpCode::LOADI_5 => 11u8,
        OpCode::LOADI_6 => 12u8,
        OpCode::LOADI_7 => 13u8,
        OpCode::LOADI16 => 14u8,
        OpCode::LOADI32 => 15u8,
        OpCode::LOADSYM => 16u8,
        OpCode::LOADNIL => 17u8,
        OpCode::LOADSELF => 18u8,
        OpCode::LOADT => 19u8,
        OpCode::LOADF => 20u8,
        OpCode::GETGV => 21u8,
        OpCode::SETGV => 22u8,
        OpCode::GETSV => 23u8,
        OpCode::SETSV => 24u8,
        OpCode::GETIV => 25u8,
        OpCode::SETIV => 26u8,
        OpCode::GETCV => 27u8,
        OpCode::SETCV => 28u8,
        OpCode::GETCONST => 29u8,
        OpCode::SETCONST => 30u8,
        OpCode::GETMCNST => 31u8,
        OpCode::SETMCNST => 32u8,
        OpCode::GETUPVAR => 33u8,
        OpCode::SETUPVAR => 34u8,
        OpCode::GETIDX => 35u8,
        OpCode::SETIDX => 36u8,
        OpCode::JMP => 37u8,
        OpCode::JMPIF => 38u8,
        OpCode::JMPNOT => 39u8,
        OpCode::JMPNIL => 40u8,
        OpCode::JMPUW => 41u8,
        OpCode::EXCEPT => 42u8,
        OpCode::RESCUE => 43u8,
        OpCode::RAISEIF => 44u8,
        OpCode::SSEND => 45u8,
        OpCode::SSENDB => 46u8,
        OpCode::SEND => 47u8,
        OpCode::SENDB => 48u8,
        OpCode::CALL => 49u8,
        OpCode::SUPER => 50u8,
        OpCode::ARGARY => 51u8,
        OpCode::ENTER => 52u8,
        OpCode::KEY_P => 53u8,
        OpCode::KEYEND => 54u8,
        OpCode::KARG => 55u8,
        OpCode::RETURN => 56u8,
        OpCode::RETURN_BLK => 57u8,
        OpCode::BREAK => 58u8,
        OpCode::BLKPUSH => 59u8,
        OpCode::ADD => 60u8,
        OpCode::ADDI => 61u8,
        OpCode::SUB => 62u8,
        OpCode::SUBI => 63u8,
        OpCode::MUL => 64u8,
        OpCode::DIV => 65u8,
        OpCode::EQ => 66u8,
        OpCode::LT => 67u8,
        OpCode::LE => 68u8,
        OpCode::GT => 69u8,
        OpCode::GE => 70u8,
        OpCode::ARRAY => 71u8,
        OpCode::ARRAY2 => 72u8,
        OpCode::ARYCAT => 73u8,
        OpCode::ARYPUSH => 74u8,
        OpCode::ARYSPLAT => 75u8,
        OpCode::AREF => 76u8,
        OpCode::ASET => 77u8,
        OpCode::APOST => 78u8,
        OpCode::INTERN => 79u8,
        OpCode::SYMBOL => 80u8,
        OpCode::STRING => 81u8,
        OpCode::STRCAT => 82u8,
        OpCode::HASH => 83u8,
        OpCode::HASHADD => 84u8,
        OpCode::HASHCAT => 85u8,
        OpCode::LAMBDA => 86u8,
        OpCode::BLOCK => 87u8,
        OpCode::METHOD => 88u8,
        OpCode::RANGE_INC => 89u8,
        OpCode::RANGE_EXC => 90u8,
        OpCode::OCLASS => 91u8,
        OpCode::CLASS => 92u8,
        OpCode::MODULE => 93u8,
        OpCode::EXEC => 94u8,
        OpCode::DEF => 95u8,
        OpCode::ALIAS => 96u8,
        OpCode::UNDEF => 97u8,
        OpCode::SCLASS => 98u8,
        OpCode::TCLASS => 99u8,
        OpCode::DEBUG => 100u8,
        OpCode::ERR => 101u8,
        OpCode::EXT1 => 102u8,
        OpCode::EXT2 => 103u8,
        OpCode::EXT3 => 104u8,
        OpCode::STOP => 105u8,
        OpCode::NumberOfOpcode => 106u8,
    }
}

impl OpCode {
    /// The encoded byte of this opcode.
    pub fn to_byte(&self) -> (r: u8)
        ensures
            r == opcode_byte(*self),
    {
        match self {
            OpCode::NOP => 0,
            OpCode::MOVE => 1,
            OpCode::LOADL => 2,
            OpCode::LOADI => 3,
            OpCode::LOADINEG => 4,
            OpCode::LOADI__1 => 5,
            OpCode::LOADI_0 => 6,
            OpCode::LOADI_1 => 7,
            OpCode::LOADI_2 => 8,
            OpCode::LOADI_3 => 9,
            OpCode::LOADI_4 => 10,
            OpCode::LOADI_5 => 11,
            OpCode::LOADI_6 => 12,
            OpCode::LOADI_7 => 13,
            OpCode::LOADI16 => 14,
            OpCode::LOADI32 => 15,
            OpCode::LOADSYM => 16,
            OpCode::LOADNIL => 17,
            OpCode::LOADSELF => 18,
            OpCode::LOADT => 19,
            OpCode::LOADF => 20,
            OpCode::GETGV => 21,
            OpCode::SETGV => 22,
            OpCode::GETSV => 23,
            OpCode::SETSV => 24,
            OpCode::GETIV => 25,
            OpCode::SETIV => 26,
            OpCode::GETCV => 27,
            OpCode::SETCV => 28,
            OpCode::GETCONST => 29,
            OpCode::SETCONST => 30,
            OpCode::GETMCNST => 31,
            OpCode::SETMCNST => 32,
            OpCode::GETUPVAR => 33,
            OpCode::SETUPVAR => 34,
            OpCode::GETIDX => 35,
            OpCode::SETIDX => 36,
            OpCode::JMP => 37,
            OpCode::JMPIF => 38,
            OpCode::JMPNOT => 39,
            OpCode::JMPNIL => 40,
            OpCode::JMPUW => 41,
            OpCode::EXCEPT => 42,
            OpCode::RESCUE => 43,
            OpCode::RAISEIF => 44,
            OpCode::SSEND => 45,
            OpCode::SSENDB => 46,
            OpCode::SEND => 47,
            OpCode::SENDB => 48,
            OpCode::CALL => 49,
            OpCode::SUPER => 50,
            OpCode::ARGARY => 51,
            OpCode::ENTER => 52,
            OpCode::KEY_P => 53,
            OpCode::KEYEND => 54,
            OpCode::KARG => 55,
            OpCode::RETURN => 56,
            OpCode::RETURN_BLK => 57,
            OpCode::BREAK => 58,
            OpCode::BLKPUSH => 59,
            OpCode::ADD => 60,
            OpCode::ADDI => 61,
            OpCode::SUB => 62,
            OpCode::SUBI => 63,
            OpCode::MUL => 64,
            OpCode::DIV => 65,
            OpCode::EQ => 66,
            OpCode::LT => 67,
            OpCode::LE => 68,
            OpCode::GT => 69,
            OpCode::GE => 70,
            OpCode::ARRAY => 71,
            OpCode::ARRAY2 => 72,
            OpCode::ARYCAT => 73,
            OpCode::ARYPUSH => 74,
            OpCode::ARYSPLAT => 75,
            OpCode::AREF => 76,
            OpCode::ASET => 77,
            OpCode::APOST => 78,
            OpCode::INTERN => 79,
            OpCode::SYMBOL => 80,
            OpCode::STRING => 81,
            OpCode::STRCAT => 82,
            OpCode::HASH => 83,
            OpCode::HASHADD => 84,
            OpCode::HASHCAT => 85,
            OpCode::LAMBDA => 86,
            OpCode::BLOCK => 87,
            OpCode::METHOD => 88,
            OpCode::RANGE_INC => 89,
            OpCode::RANGE_EXC => 90,
            OpCode::OCLASS => 91,
            OpCode::CLASS => 92,
            OpCode::MODULE => 93,
            OpCode::EXEC => 94,
            OpCode::DEF => 95,
            OpCode::ALIAS => 96,
            OpCode::UNDEF => 97,
            OpCode::SCLASS => 98,
            OpCode::TCLASS => 99,
            OpCode::DEBUG => 100,
            OpCode::ERR => 101,
            OpCode::EXT1 => 102,
            OpCode::EXT2 => 103,
            OpCode::EXT3 => 104,
            OpCode::STOP => 105,
            OpCode::NumberOfOpcode => 106,
        }
    }
}
/// The operand shape of an instruction: bytes (`B`), big-endian shorts (`S`),
/// or one 24-bit word (`W`, kept in a `u32` whose top byte is dropped).
#[derive(Debug, Copy, Clone, PartialEq, Eq, Structural)]
pub enum Operand {
    Z,
    B(u8),
    BB(u8, u8),
    BBB(u8, u8, u8),
    BS(u8, u16),
    BSS(u8, u16, u16),
    S(u16),
    W(u32),
}

/// One instruction: an opcode with its operands.
#[derive(Debug, Copy, Clone, PartialEq, Eq, Structural)]
pub struct Bytecode {
    pub op: OpCode,
    pub operand: Operand,
}

/// The two big-endian bytes of a short.
pub open spec fn be16(s: u16) -> Seq<u8> {
    seq![(s / 256) as u8, (s % 256) as u8]
}

/// The four big-endian bytes of a word.
pub open spec fn be32(w: u32) -> Seq<u8> {
    seq![(w / 0x1000000) as u8, (w / 0x10000 % 256) as u8, (w / 256 % 256) as u8, (w % 256) as u8]
}

/// The encoded bytes of an operand.
pub open spec fn operand_bytes(o: Operand) -> Seq<u8> {
    match o {
        Operand::Z => seq![],
        Operand::B(a) => seq![a],
        Operand::BB(a, b) => seq![a, b],
        Operand::BBB(a, b, c) => seq![a, b, c],
        Operand::BS(a, s) => seq![a] + be16(s),
        Operand::BSS(a, s1, s2) => seq![a] + be16(s1) + be16(s2),
        Operand::S(s) => be16(s),
        Operand::W(w) => be32(w).subrange(1, 4),
    }
}

/// The encoded bytes of an instruction: the opcode byte, then its operands.
pub open spec fn bytecode_bytes(b: Bytecode) -> Seq<u8> {
    seq![opcode_byte(b.op)] + operand_bytes(b.operand)
}

/// The highest register an instruction names: its first byte operand, and
/// for a send with `n` arguments (`SSEND`, `SENDB`) the argument registers
/// that follow it, up to `a + n`.
pub open spec fn highest_register(b: Bytecode) -> Option<int> {
    match b.operand {
        Operand::B(a) => Some(a as int),
        Operand::BB(a, _) => Some(a as int),
        Operand::BBB(a, _, n) => if b.op == OpCode::SSEND || b.op == OpCode::SENDB {
            Some(a + n)
        } else {
            Some(a as int)
        },
        _ => None,
    }
}

/// Appends the big-endian bytes of a short.
pub fn push_be16(bytes: &mut Vec<u8>, s: u16)
    ensures
        final(bytes)@ == old(bytes)@ + be16(s),
{
    bytes.push((s / 256) as u8);
    bytes.push((s % 256) as u8);
}

impl Bytecode {
    pub fn new(op: OpCode, operand: Operand) -> (r: Self)
        ensures
            r.op == op,
            r.operand == operand,
    {
        Bytecode { op, operand }
    }

    /// The encoded bytes of this instruction.
    pub fn to_bytes_vec(&self) -> (bytes: Vec<u8>)
        ensures
            bytes@ == bytecode_bytes(*self),
    {
        let mut bytes = vec![self.op.to_byte()];
        match self.operand {
            Operand::Z => {},
            Operand::B(b) => bytes.push(b),
            Operand::BB(b1, b2) => {
                bytes.push(b1);
                bytes.push(b2);
            },
            Operand::BBB(b1, b2, b3) => {
                bytes.push(b1);
                bytes.push(b2);
                bytes.push(b3);
            },
            Operand::BS(b1, s) => {
                bytes.push(b1);
                push_be16(&mut bytes, s);
            },
            Operand::BSS(b1, s1, s2) => {
                bytes.push(b1);
                push_be16(&mut bytes, s1);
                push_be16(&mut bytes, s2);
            },
            Operand::S(s) => {
                push_be16(&mut bytes, s);
            },
            Operand::W(w) => {
                bytes.push((w / 0x10000 % 256) as u8);
                bytes.push((w / 256 % 256) as u8);
                bytes.push((w % 256) as u8);
            },
        }
        proof {
            assert(bytes@ =~= bytecode_bytes(*self));
        }
        bytes
    }
}

} // verus!
