//! The opcode table: the closed enumeration of EVM opcodes and the static
//! metadata each carries (immediate-byte count, stack arity, mnemonic).

use vstd::prelude::*;
use crate::instruction::JumpInstruction;

verus! {

/// What one interpreter step produced: an unconditional or a conditional jump
/// event, the end of the block, or plain continuation.
#[derive(Debug)]
pub enum OpCodeResult {
    JumpInstruction(JumpInstruction),
    ConditionalJumpInstruction(JumpInstruction),
    End,
    Continue,
}

/// Static metadata of one opcode.
#[derive(Clone, Copy, PartialEq, Eq, Structural, Hash, Debug)]
pub struct OpCode {
    pub code: OpCodes,
    /// How many immediate bytes follow the opcode byte (the PUSH width).
    pub input_arguments: u32,
    /// SWAP1 is 1, SWAP5 is 5, zero elsewhere.
    pub operator_index: usize,
    pub stack_inputs: u32,
    pub stack_outputs: u32,
}

#[derive(Clone, Copy, PartialEq, Eq, Structural, Hash, Debug)]
pub enum OpCodes {
    STOP,
    ADD,
    MUL,
    SUB,
    DIV,
    SDIV,
    MOD,
    SMOD,
    ADDMOD,
    MULMOD,
    EXP,
    SIGNEXTEND,
    LT,
    GT,
    SLT,
    SGT,
    EQ,
    ISZERO,
    AND,
    OR,
    XOR,
    NOT,
    BYTE,
    SHL,
    SHR,
    SAR,
    SHA3,
    ADDRESS,
    BALANCE,
    ORIGIN,
    CALLER,
    CALLVALUE,
    CALLDATALOAD,
    CALLDATASIZE,
    CALLDATACOPY,
    CODESIZE,
    CODECOPY,
    GASPRICE,
    EXTCODESIZE,
    EXTCODECOPY,
    RETURNDATASIZE,
    RETURNDATACOPY,
    EXTCODEHASH,
    BLOCKHASH,
    COINBASE,
    TIMESTAMP,
    NUMBER,
    DIFFICULTY,
    GASLIMIT,
    CHAINID,
    SELFBALANCE,
    BASEFEE,
    POP,
    MLOAD,
    MSTORE,
    MSTORE8,
    SLOAD,
    SSTORE,
    JUMP,
    JUMPI,
    PC,
    MSIZE,
    GAS,
    JUMPDEST,
    PUSH0,
    PUSH1,
    PUSH2,
    PUSH3,
    PUSH4,
    PUSH5,
    PUSH6,
    PUSH7,
    PUSH8,
    PUSH9,
    PUSH10,
    PUSH11,
    PUSH12,
    PUSH13,
    PUSH14,
    PUSH15,
    PUSH16,
    PUSH17,
    PUSH18,
    PUSH19,
    PUSH20,
    PUSH21,
    PUSH22,
    PUSH23,
    PUSH24,
    PUSH25,
    PUSH26,
    PUSH27,
    PUSH28,
    PUSH29,
    PUSH30,
    PUSH31,
    PUSH32,
    DUP1,
    DUP2,
    DUP3,
    DUP4,
    DUP5,
    DUP6,
    DUP7,
    DUP8,
    DUP9,
    DUP10,
    DUP11,
    DUP12,
    DUP13,
    DUP14,
    DUP15,
    DUP16,
    SWAP1,
    SWAP2,
    SWAP3,
    SWAP4,
    SWAP5,
    SWAP6,
    SWAP7,
    SWAP8,
    SWAP9,
    SWAP10,
    SWAP11,
    SWAP12,
    SWAP13,
    SWAP14,
    SWAP15,
    SWAP16,
    LOG0,
    LOG1,
    LOG2,
    LOG3,
    LOG4,
    EOFMAGIC,
    CREATE,
    CALL,
    CALLCODE,
    RETURN,
    DELEGATECALL,
    CREATE2,
    STATICCALL,
    REVERT,
    INVALID,
    SELFDESTRUCT,
}

/// The opcode an opcode byte stands for, if any.
pub open spec fn spec_opcode_of_byte(b: u32) -> Option<OpCodes> {
    if b == 0x00 { Some(OpCodes::STOP)
    } else if b == 0x01 { Some(OpCodes::ADD)
    } else if b == 0x02 { Some(OpCodes::MUL)
    } else if b == 0x03 { Some(OpCodes::SUB)
    } else if b == 0x04 { Some(OpCodes::DIV)
    } else if b == 0x05 { Some(OpCodes::SDIV)
    } else if b == 0x06 { Some(OpCodes::MOD)
    } else if b == 0x07 { Some(OpCodes::SMOD)
    } else if b == 0x08 { Some(OpCodes::ADDMOD)
    } else if b == 0x09 { Some(OpCodes::MULMOD)
    } else if b == 0x0a { Some(OpCodes::EXP)
    } else if b == 0x0b { Some(OpCodes::SIGNEXTEND)
    } else if b == 0x10 { Some(OpCodes::LT)
    } else if b == 0x11 { Some(OpCodes::GT)
    } else if b == 0x12 { Some(OpCodes::SLT)
    } else if b == 0x13 { Some(OpCodes::SGT)
    } else if b == 0x14 { Some(OpCodes::EQ)
    } else if b == 0x15 { Some(OpCodes::ISZERO)
    } else if b == 0x16 { Some(OpCodes::AND)
    } else if b == 0x17 { Some(OpCodes::OR)
    } else if b == 0x18 { Some(OpCodes::XOR)
    } else if b == 0x19 { Some(OpCodes::NOT)
    } else if b == 0x1a { Some(OpCodes::BYTE)
    } else if b == 0x1b { Some(OpCodes::SHL)
    } else if b == 0x1c { Some(OpCodes::SHR)
    } else if b == 0x1d { Some(OpCodes::SAR)
    } else if b == 0x20 { Some(OpCodes::SHA3)
    } else if b == 0x30 { Some(OpCodes::ADDRESS)
    } else if b == 0x31 { Some(OpCodes::BALANCE)
    } else if b == 0x32 { Some(OpCodes::ORIGIN)
    } else if b == 0x33 { Some(OpCodes::CALLER)
    } else if b == 0x34 { Some(OpCodes::CALLVALUE)
    } else if b == 0x35 { Some(OpCodes::CALLDATALOAD)
    } else if b == 0x36 { Some(OpCodes::CALLDATASIZE)
    } else if b == 0x37 { Some(OpCodes::CALLDATACOPY)
    } else if b == 0x38 { Some(OpCodes::CODESIZE)
    } else if b == 0x39 { Some(OpCodes::CODECOPY)
    } else if b == 0x3a { Some(OpCodes::GASPRICE)
    } else if b == 0x3b { Some(OpCodes::EXTCODESIZE)
    } else if b == 0x3c { Some(OpCodes::EXTCODECOPY)
    } else if b == 0x3d { Some(OpCodes::RETURNDATASIZE)
    } else if b == 0x3e { Some(OpCodes::RETURNDATACOPY)
    } else if b == 0x3f { Some(OpCodes::EXTCODEHASH)
    } else if b == 0x40 { Some(OpCodes::BLOCKHASH)
    } else if b == 0x41 { Some(OpCodes::COINBASE)
    } else if b == 0x42 { Some(OpCodes::TIMESTAMP)
    } else if b == 0x43 { Some(OpCodes::NUMBER)
    } else if b == 0x44 { Some(OpCodes::DIFFICULTY)
    } else if b == 0x45 { Some(OpCodes::GASLIMIT)
    } else if b == 0x46 { Some(OpCodes::CHAINID)
    } else if b == 0x47 { Some(OpCodes::SELFBALANCE)
    } else if b == 0x48 { Some(OpCodes::BASEFEE)
    } else if b == 0x50 { Some(OpCodes::POP)
    } else if b == 0x51 { Some(OpCodes::MLOAD)
    } else if b == 0x52 { Some(OpCodes::MSTORE)
    } else if b == 0x53 { Some(OpCodes::MSTORE8)
    } else if b == 0x54 { Some(OpCodes::SLOAD)
    } else if b == 0x55 { Some(OpCodes::SSTORE)
    } else if b == 0x56 { Some(OpCodes::JUMP)
    } else if b == 0x57 { Some(OpCodes::JUMPI)
    } else if b == 0x58 { Some(OpCodes::PC)
    } else if b == 0x59 { Some(OpCodes::MSIZE)
    } else if b == 0x5a { Some(OpCodes::GAS)
    } else if b == 0x5b { Some(OpCodes::JUMPDEST)
    } else if b == 0x5f { Some(OpCodes::PUSH0)
    } else if b == 0x60 { Some(OpCodes::PUSH1)
    } else if b == 0x61 { Some(OpCodes::PUSH2)
    } else if b == 0x62 { Some(OpCodes::PUSH3)
    } else if b == 0x63 { Some(OpCodes::PUSH4)
    } else if b == 0x64 { Some(OpCodes::PUSH5)
    } else if b == 0x65 { Some(OpCodes::PUSH6)
    } else if b == 0x66 { Some(OpCodes::PUSH7)
    } else if b == 0x67 { Some(OpCodes::PUSH8)
    } else if b == 0x68 { Some(OpCodes::PUSH9)
    } else if b == 0x69 { Some(OpCodes::PUSH10)
    } else if b == 0x6a { Some(OpCodes::PUSH11)
    } else if b == 0x6b { Some(OpCodes::PUSH12)
    } else if b == 0x6c { Some(OpCodes::PUSH13)
    } else if b == 0x6d { Some(OpCodes::PUSH14)
    } else if b == 0x6e { Some(OpCodes::PUSH15)
    } else if b == 0x6f { Some(OpCodes::PUSH16)
    } else if b == 0x70 { Some(OpCodes::PUSH17)
    } else if b == 0x71 { Some(OpCodes::PUSH18)
    } else if b == 0x72 { Some(OpCodes::PUSH19)
    } else if b == 0x73 { Some(OpCodes::PUSH20)
    } else if b == 0x74 { Some(OpCodes::PUSH21)
    } else if b == 0x75 { Some(OpCodes::PUSH22)
    } else if b == 0x76 { Some(OpCodes::PUSH23)
    } else if b == 0x77 { Some(OpCodes::PUSH24)
    } else if b == 0x78 { Some(OpCodes::PUSH25)
    } else if b == 0x79 { Some(OpCodes::PUSH26)
    } else if b == 0x7a { Some(OpCodes::PUSH27)
    } else if b == 0x7b { Some(OpCodes::PUSH28)
    } else if b == 0x7c { Some(OpCodes::PUSH29)
    } else if b == 0x7d { Some(OpCodes::PUSH30)
    } else if b == 0x7e { Some(OpCodes::PUSH31)
    } else if b == 0x7f { Some(OpCodes::PUSH32)
    } else if b == 0x80 { Some(OpCodes::DUP1)
    } else if b == 0x81 { Some(OpCodes::DUP2)
    } else if b == 0x82 { Some(OpCodes::DUP3)
    } else if b == 0x83 { Some(OpCodes::DUP4)
    } else if b == 0x84 { Some(OpCodes::DUP5)
    } else if b == 0x85 { Some(OpCodes::DUP6)
    } else if b == 0x86 { Some(OpCodes::DUP7)
    } else if b == 0x87 { Some(OpCodes::DUP8)
    } else if b == 0x88 { Some(OpCodes::DUP9)
    } else if b == 0x89 { Some(OpCodes::DUP10)
    } else if b == 0x8a { Some(OpCodes::DUP11)
    } else if b == 0x8b { Some(OpCodes::DUP12)
    } else if b == 0x8c { Some(OpCodes::DUP13)
    } else if b == 0x8d { Some(OpCodes::DUP14)
    } else if b == 0x8e { Some(OpCodes::DUP15)
    } else if b == 0x8f { Some(OpCodes::DUP16)
    } else if b == 0x90 { Some(OpCodes::SWAP1)
    } else if b == 0x91 { Some(OpCodes::SWAP2)
    } else if b == 0x92 { Some(OpCodes::SWAP3)
    } else if b == 0x93 { Some(OpCodes::SWAP4)
    } else if b == 0x94 { Some(OpCodes::SWAP5)
    } else if b == 0x95 { Some(OpCodes::SWAP6)
    } else if b == 0x96 { Some(OpCodes::SWAP7)
    } else if b == 0x97 { Some(OpCodes::SWAP8)
    } else if b == 0x98 { Some(OpCodes::SWAP9)
    } else if b == 0x99 { Some(OpCodes::SWAP10)
    } else if b == 0x9a { Some(OpCodes::SWAP11)
    } else if b == 0x9b { Some(OpCodes::SWAP12)
    } else if b == 0x9c { Some(OpCodes::SWAP13)
    } else if b == 0x9d { Some(OpCodes::SWAP14)
    } else if b == 0x9e { Some(OpCodes::SWAP15)
    } else if b == 0x9f { Some(OpCodes::SWAP16)
    } else if b == 0xa0 { Some(OpCodes::LOG0)
    } else if b == 0xa1 { Some(OpCodes::LOG1)
    } else if b == 0xa2 { Some(OpCodes::LOG2)
    } else if b == 0xa3 { Some(OpCodes::LOG3)
    } else if b == 0xa4 { Some(OpCodes::LOG4)
    } else if b == 0xef { Some(OpCodes::EOFMAGIC)
    } else if b == 0xf0 { Some(OpCodes::CREATE)
    } else if b == 0xf1 { Some(OpCodes::CALL)
    } else if b == 0xf2 { Some(OpCodes::CALLCODE)
    } else if b == 0xf3 { Some(OpCodes::RETURN)
    } else if b == 0xf4 { Some(OpCodes::DELEGATECALL)
    } else if b == 0xf5 { Some(OpCodes::CREATE2)
    } else if b == 0xfa { Some(OpCodes::STATICCALL)
    } else if b == 0xfd { Some(OpCodes::REVERT)
    } else if b == 0xfe { Some(OpCodes::INVALID)
    } else if b == 0xff { Some(OpCodes::SELFDESTRUCT)
    } else { None }
}

impl OpCodes {
    /// Looks an opcode byte up in the opcode table.
    pub fn from_byte(b: u32) -> (r: Option<OpCodes>)
        ensures
            r == spec_opcode_of_byte(b),
    {
        match b {
            0x00 => Some(OpCodes::STOP),
            0x01 => Some(OpCodes::ADD),
            0x02 => Some(OpCodes::MUL),
            0x03 => Some(OpCodes::SUB),
            0x04 => Some(OpCodes::DIV),
            0x05 => Some(OpCodes::SDIV),
            0x06 => Some(OpCodes::MOD),
            0x07 => Some(OpCodes::SMOD),
            0x08 => Some(OpCodes::ADDMOD),
            0x09 => Some(OpCodes::MULMOD),
            0x0a => Some(OpCodes::EXP),
            0x0b => Some(OpCodes::SIGNEXTEND),
            0x10 => Some(OpCodes::LT),
            0x11 => Some(OpCodes::GT),
            0x12 => Some(OpCodes::SLT),
            0x13 => Some(OpCodes::SGT),
            0x14 => Some(OpCodes::EQ),
            0x15 => Some(OpCodes::ISZERO),
            0x16 => Some(OpCodes::AND),
            0x17 => Some(OpCodes::OR),
            0x18 => Some(OpCodes::XOR),
            0x19 => Some(OpCodes::NOT),
            0x1a => Some(OpCodes::BYTE),
            0x1b => Some(OpCodes::SHL),
            0x1c => Some(OpCodes::SHR),
            0x1d => Some(OpCodes::SAR),
            0x20 => Some(OpCodes::SHA3),
            0x30 => Some(OpCodes::ADDRESS),
            0x31 => Some(OpCodes::BALANCE),
            0x32 => Some(OpCodes::ORIGIN),
            0x33 => Some(OpCodes::CALLER),
            0x34 => Some(OpCodes::CALLVALUE),
            0x35 => Some(OpCodes::CALLDATALOAD),
            0x36 => Some(OpCodes::CALLDATASIZE),
            0x37 => Some(OpCodes::CALLDATACOPY),
            0x38 => Some(OpCodes::CODESIZE),
            0x39 => Some(OpCodes::CODECOPY),
            0x3a => Some(OpCodes::GASPRICE),
            0x3b => Some(OpCodes::EXTCODESIZE),
            0x3c => Some(OpCodes::EXTCODECOPY),
            0x3d => Some(OpCodes::RETURNDATASIZE),
            0x3e => Some(OpCodes::RETURNDATACOPY),
            0x3f => Some(OpCodes::EXTCODEHASH),
            0x40 => Some(OpCodes::BLOCKHASH),
            0x41 => Some(OpCodes::COINBASE),
            0x42 => Some(OpCodes::TIMESTAMP),
            0x43 => Some(OpCodes::NUMBER),
            0x44 => Some(OpCodes::DIFFICULTY),
            0x45 => Some(OpCodes::GASLIMIT),
            0x46 => Some(OpCodes::CHAINID),
            0x47 => Some(OpCodes::SELFBALANCE),
            0x48 => Some(OpCodes::BASEFEE),
            0x50 => Some(OpCodes::POP),
            0x51 => Some(OpCodes::MLOAD),
            0x52 => Some(OpCodes::MSTORE),
            0x53 => Some(OpCodes::MSTORE8),
            0x54 => Some(OpCodes::SLOAD),
            0x55 => Some(OpCodes::SSTORE),
            0x56 => Some(OpCodes::JUMP),
            0x57 => Some(OpCodes::JUMPI),
            0x58 => Some(OpCodes::PC),
            0x59 => Some(OpCodes::MSIZE),
            0x5a => Some(OpCodes::GAS),
            0x5b => Some(OpCodes::JUMPDEST),
            0x5f => Some(OpCodes::PUSH0),
            0x60 => Some(OpCodes::PUSH1),
            0x61 => Some(OpCodes::PUSH2),
            0x62 => Some(OpCodes::PUSH3),
            0x63 => Some(OpCodes::PUSH4),
            0x64 => Some(OpCodes::PUSH5),
            0x65 => Some(OpCodes::PUSH6),
            0x66 => Some(OpCodes::PUSH7),
            0x67 => Some(OpCodes::PUSH8),
            0x68 => Some(OpCodes::PUSH9),
            0x69 => Some(OpCodes::PUSH10),
            0x6a => Some(OpCodes::PUSH11),
            0x6b => Some(OpCodes::PUSH12),
            0x6c => Some(OpCodes::PUSH13),
            0x6d => Some(OpCodes::PUSH14),
            0x6e => Some(OpCodes::PUSH15),
            0x6f => Some(OpCodes::PUSH16),
            0x70 => Some(OpCodes::PUSH17),
            0x71 => Some(OpCodes::PUSH18),
            0x72 => Some(OpCodes::PUSH19),
            0x73 => Some(OpCodes::PUSH20),
            0x74 => Some(OpCodes::PUSH21),
            0x75 => Some(OpCodes::PUSH22),
            0x76 => Some(OpCodes::PUSH23),
            0x77 => Some(OpCodes::PUSH24),
            0x78 => Some(OpCodes::PUSH25),
            0x79 => Some(OpCodes::PUSH26),
            0x7a => Some(OpCodes::PUSH27),
            0x7b => Some(OpCodes::PUSH28),
            0x7c => Some(OpCodes::PUSH29),
            0x7d => Some(OpCodes::PUSH30),
            0x7e => Some(OpCodes::PUSH31),
            0x7f => Some(OpCodes::PUSH32),
            0x80 => Some(OpCodes::DUP1),
            0x81 => Some(OpCodes::DUP2),
            0x82 => Some(OpCodes::DUP3),
            0x83 => Some(OpCodes::DUP4),
            0x84 => Some(OpCodes::DUP5),
            0x85 => Some(OpCodes::DUP6),
            0x86 => Some(OpCodes::DUP7),
            0x87 => Some(OpCodes::DUP8),
            0x88 => Some(OpCodes::DUP9),
            0x89 => Some(OpCodes::DUP10),
            0x8a => Some(OpCodes::DUP11),
            0x8b => Some(OpCodes::DUP12),
            0x8c => Some(OpCodes::DUP13),
            0x8d => Some(OpCodes::DUP14),
            0x8e => Some(OpCodes::DUP15),
            0x8f => Some(OpCodes::DUP16),
            0x90 => Some(OpCodes::SWAP1),
            0x91 => Some(OpCodes::SWAP2),
            0x92 => Some(OpCodes::SWAP3),
            0x93 => Some(OpCodes::SWAP4),
            0x94 => Some(OpCodes::SWAP5),
            0x95 => Some(OpCodes::SWAP6),
            0x96 => Some(OpCodes::SWAP7),
            0x97 => Some(OpCodes::SWAP8),
            0x98 => Some(OpCodes::SWAP9),
            0x99 => Some(OpCodes::SWAP10),
            0x9a => Some(OpCodes::SWAP11),
            0x9b => Some(OpCodes::SWAP12),
            0x9c => Some(OpCodes::SWAP13),
            0x9d => Some(OpCodes::SWAP14),
            0x9e => Some(OpCodes::SWAP15),
            0x9f => Some(OpCodes::SWAP16),
            0xa0 => Some(OpCodes::LOG0),
            0xa1 => Some(OpCodes::LOG1),
            0xa2 => Some(OpCodes::LOG2),
            0xa3 => Some(OpCodes::LOG3),
            0xa4 => Some(OpCodes::LOG4),
            0xef => Some(OpCodes::EOFMAGIC),
            0xf0 => Some(OpCodes::CREATE),
            0xf1 => Some(OpCodes::CALL),
            0xf2 => Some(OpCodes::CALLCODE),
            0xf3 => Some(OpCodes::RETURN),
            0xf4 => Some(OpCodes::DELEGATECALL),
            0xf5 => Some(OpCodes::CREATE2),
            0xfa => Some(OpCodes::STATICCALL),
            0xfd => Some(OpCodes::REVERT),
            0xfe => Some(OpCodes::INVALID),
            0xff => Some(OpCodes::SELFDESTRUCT),
            _ => None,
        }
    }
}

/// How many immediate bytes follow the opcode byte.
pub open spec fn spec_imm_count(c: OpCodes) -> u32 {
    match c {
        OpCodes::PUSH1 => 1,
        OpCodes::PUSH2 => 2,
        OpCodes::PUSH3 => 3,
        OpCodes::PUSH4 => 4,
        OpCodes::PUSH5 => 5,
        OpCodes::PUSH6 => 6,
        OpCodes::PUSH7 => 7,
        OpCodes::PUSH8 => 8,
        OpCodes::PUSH9 => 9,
        OpCodes::PUSH10 => 10,
        OpCodes::PUSH11 => 11,
        OpCodes::PUSH12 => 12,
        OpCodes::PUSH13 => 13,
        OpCodes::PUSH14 => 14,
        OpCodes::PUSH15 => 15,
        OpCodes::PUSH16 => 16,
        OpCodes::PUSH17 => 17,
        OpCodes::PUSH18 => 18,
        OpCodes::PUSH19 => 19,
        OpCodes::PUSH20 => 20,
        OpCodes::PUSH21 => 21,
        OpCodes::PUSH22 => 22,
        OpCodes::PUSH23 => 23,
        OpCodes::PUSH24 => 24,
        OpCodes::PUSH25 => 25,
        OpCodes::PUSH26 => 26,
        OpCodes::PUSH27 => 27,
        OpCodes::PUSH28 => 28,
        OpCodes::PUSH29 => 29,
        OpCodes::PUSH30 => 30,
        OpCodes::PUSH31 => 31,
        OpCodes::PUSH32 => 32,
        _ => 0,
    }
}

/// The depth operand carried in the mnemonic: `n` for SWAPn, zero elsewhere.
pub open spec fn spec_operator_index(c: OpCodes) -> usize {
    match c {
        OpCodes::SWAP1 => 1,
        OpCodes::SWAP2 => 2,
        OpCodes::SWAP3 => 3,
        OpCodes::SWAP4 => 4,
        OpCodes::SWAP5 => 5,
        OpCodes::SWAP6 => 6,
        OpCodes::SWAP7 => 7,
        OpCodes::SWAP8 => 8,
        OpCodes::SWAP9 => 9,
        OpCodes::SWAP10 => 10,
        OpCodes::SWAP11 => 11,
        OpCodes::SWAP12 => 12,
        OpCodes::SWAP13 => 13,
        OpCodes::SWAP14 => 14,
        OpCodes::SWAP15 => 15,
        OpCodes::SWAP16 => 16,
        _ => 0,
    }
}

/// How many stack elements the opcode consumes.
pub open spec fn spec_stack_inputs(c: OpCodes) -> u32 {
    match c {
        OpCodes::ISZERO | OpCodes::NOT | OpCodes::BALANCE | OpCodes::CALLDATALOAD | OpCodes::EXTCODESIZE | OpCodes::EXTCODEHASH | OpCodes::BLOCKHASH | OpCodes::POP | OpCodes::MLOAD | OpCodes::SLOAD | OpCodes::JUMP | OpCodes::DUP1 | OpCodes::SELFDESTRUCT => 1,
        OpCodes::ADD | OpCodes::MUL | OpCodes::SUB | OpCodes::DIV | OpCodes::SDIV | OpCodes::MOD | OpCodes::SMOD | OpCodes::EXP | OpCodes::SIGNEXTEND | OpCodes::LT | OpCodes::GT | OpCodes::SLT | OpCodes::SGT | OpCodes::EQ | OpCodes::AND | OpCodes::OR | OpCodes::XOR | OpCodes::BYTE | OpCodes::SHL | OpCodes::SHR | OpCodes::SAR | OpCodes::SHA3 | OpCodes::MSTORE | OpCodes::MSTORE8 | OpCodes::SSTORE | OpCodes::JUMPI | OpCodes::DUP2 | OpCodes::SWAP1 | OpCodes::LOG0 | OpCodes::RETURN | OpCodes::REVERT => 2,
        OpCodes::ADDMOD | OpCodes::MULMOD | OpCodes::CALLDATACOPY | OpCodes::CODECOPY | OpCodes::RETURNDATACOPY | OpCodes::DUP3 | OpCodes::SWAP2 | OpCodes::LOG1 | OpCodes::CREATE => 3,
        OpCodes::EXTCODECOPY | OpCodes::DUP4 | OpCodes::SWAP3 | OpCodes::LOG2 | OpCodes::CREATE2 => 4,
        OpCodes::DUP5 | OpCodes::SWAP4 | OpCodes::LOG3 => 5,
        OpCodes::DUP6 | OpCodes::SWAP5 | OpCodes::LOG4 | OpCodes::DELEGATECALL | OpCodes::STATICCALL => 6,
        OpCodes::DUP7 | OpCodes::SWAP6 | OpCodes::CALL | OpCodes::CALLCODE => 7,
        OpCodes::DUP8 | OpCodes::SWAP7 => 8,
        OpCodes::DUP9 | OpCodes::SWAP8 => 9,
        OpCodes::DUP10 | OpCodes::SWAP9 => 10,
        OpCodes::DUP11 | OpCodes::SWAP10 => 11,
        OpCodes::DUP12 | OpCodes::SWAP11 => 12,
        OpCodes::DUP13 | OpCodes::SWAP12 => 13,
        OpCodes::DUP14 | OpCodes::SWAP13 => 14,
        OpCodes::DUP15 | OpCodes::SWAP14 => 15,
        OpCodes::DUP16 | OpCodes::SWAP15 => 16,
        OpCodes::SWAP16 => 17,
        _ => 0,
    }
}

/// How many stack elements the opcode leaves behind.
pub open spec fn spec_stack_outputs(c: OpCodes) -> u32 {
    match c {
        OpCodes::ADD | OpCodes::MUL | OpCodes::SUB | OpCodes::DIV | OpCodes::SDIV | OpCodes::MOD | OpCodes::SMOD | OpCodes::ADDMOD | OpCodes::MULMOD | OpCodes::EXP | OpCodes::SIGNEXTEND | OpCodes::LT | OpCodes::GT | OpCodes::SLT | OpCodes::SGT | OpCodes::EQ | OpCodes::ISZERO | OpCodes::AND | OpCodes::OR | OpCodes::XOR | OpCodes::NOT | OpCodes::BYTE | OpCodes::SHL | OpCodes::SHR | OpCodes::SAR | OpCodes::SHA3 | OpCodes::ADDRESS | OpCodes::BALANCE | OpCodes::ORIGIN | OpCodes::CALLER | OpCodes::CALLVALUE | OpCodes::CALLDATALOAD | OpCodes::CALLDATASIZE | OpCodes::CODESIZE | OpCodes::GASPRICE | OpCodes::EXTCODESIZE | OpCodes::RETURNDATASIZE | OpCodes::EXTCODEHASH | OpCodes::BLOCKHASH | OpCodes::COINBASE | OpCodes::TIMESTAMP | OpCodes::NUMBER | OpCodes::DIFFICULTY | OpCodes::GASLIMIT | OpCodes::CHAINID | OpCodes::SELFBALANCE | OpCodes::BASEFEE | OpCodes::MLOAD | OpCodes::SLOAD | OpCodes::PC | OpCodes::MSIZE | OpCodes::GAS | OpCodes::PUSH0 | OpCodes::PUSH1 | OpCodes::PUSH2 | OpCodes::PUSH3 | OpCodes::PUSH4 | OpCodes::PUSH5 | OpCodes::PUSH6 | OpCodes::PUSH7 | OpCodes::PUSH8 | OpCodes::PUSH9 | OpCodes::PUSH10 | OpCodes::PUSH11 | OpCodes::PUSH12 | OpCodes::PUSH13 | OpCodes::PUSH14 | OpCodes::PUSH15 | OpCodes::PUSH16 | OpCodes::PUSH17 | OpCodes::PUSH18 | OpCodes::PUSH19 | OpCodes::PUSH20 | OpCodes::PUSH21 | OpCodes::PUSH22 | OpCodes::PUSH23 | OpCodes::PUSH24 | OpCodes::PUSH25 | OpCodes::PUSH26 | OpCodes::PUSH27 | OpCodes::PUSH28 | OpCodes::PUSH29 | OpCodes::PUSH30 | OpCodes::PUSH31 | OpCodes::PUSH32 | OpCodes::CREATE | OpCodes::CALL | OpCodes::CALLCODE | OpCodes::DELEGATECALL | OpCodes::CREATE2 | OpCodes::STATICCALL => 1,
        OpCodes::DUP1 | OpCodes::SWAP1 => 2,
        OpCodes::DUP2 | OpCodes::SWAP2 => 3,
        OpCodes::DUP3 | OpCodes::SWAP3 => 4,
        OpCodes::DUP4 | OpCodes::SWAP4 => 5,
        OpCodes::DUP5 | OpCodes::SWAP5 => 6,
        OpCodes::DUP6 | OpCodes::SWAP6 => 7,
        OpCodes::DUP7 | OpCodes::SWAP7 => 8,
        OpCodes::DUP8 | OpCodes::SWAP8 => 9,
        OpCodes::DUP9 | OpCodes::SWAP9 => 10,
        OpCodes::DUP10 | OpCodes::SWAP10 => 11,
        OpCodes::DUP11 | OpCodes::SWAP11 => 12,
        OpCodes::DUP12 | OpCodes::SWAP12 => 13,
        OpCodes::DUP13 | OpCodes::SWAP13 => 14,
        OpCodes::DUP14 | OpCodes::SWAP14 => 15,
        OpCodes::DUP15 | OpCodes::SWAP15 => 16,
        OpCodes::DUP16 | OpCodes::SWAP16 => 17,
        _ => 0,
    }
}

/// The mnemonic of the opcode.
pub open spec fn spec_mnemonic(c: OpCodes) -> Seq<char> {
    match c {
        OpCodes::STOP => "STOP"@,
        OpCodes::ADD => "ADD"@,
        OpCodes::MUL => "MUL"@,
        OpCodes::SUB => "SUB"@,
        OpCodes::DIV => "DIV"@,
        OpCodes::SDIV => "SDIV"@,
        OpCodes::MOD => "MOD"@,
        OpCodes::SMOD => "SMOD"@,
        OpCodes::ADDMOD => "ADDMOD"@,
        OpCodes::MULMOD => "MULMOD"@,
        OpCodes::EXP => "EXP"@,
        OpCodes::SIGNEXTEND => "SIGNEXTEND"@,
        OpCodes::LT => "LT"@,
        OpCodes::GT => "GT"@,
        OpCodes::SLT => "SLT"@,
        OpCodes::SGT => "SGT"@,
        OpCodes::EQ => "EQ"@,
        OpCodes::ISZERO => "ISZERO"@,
        OpCodes::AND => "AND"@,
        OpCodes::OR => "OR"@,
        OpCodes::XOR => "XOR"@,
        OpCodes::NOT => "NOT"@,
        OpCodes::BYTE => "BYTE"@,
        OpCodes::SHL => "SHL"@,
        OpCodes::SHR => "SHR"@,
        OpCodes::SAR => "SAR"@,
        OpCodes::SHA3 => "SHA3"@,
        OpCodes::ADDRESS => "ADDRESS"@,
        OpCodes::BALANCE => "BALANCE"@,
        OpCodes::ORIGIN => "ORIGIN"@,
        OpCodes::CALLER => "CALLER"@,
        OpCodes::CALLVALUE => "CALLVALUE"@,
        OpCodes::CALLDATALOAD => "CALLDATALOAD"@,
        OpCodes::CALLDATASIZE => "CALLDATASIZE"@,
        OpCodes::CALLDATACOPY => "CALLDATACOPY"@,
        OpCodes::CODESIZE => "CODESIZE"@,
        OpCodes::CODECOPY => "CODECOPY"@,
        OpCodes::GASPRICE => "GASPRICE"@,
        OpCodes::EXTCODESIZE => "EXTCODESIZE"@,
        OpCodes::EXTCODECOPY => "EXTCODECOPY"@,
        OpCodes::RETURNDATASIZE => "RETURNDATASIZE"@,
        OpCodes::RETURNDATACOPY => "RETURNDATACOPY"@,
        OpCodes::EXTCODEHASH => "EXTCODEHASH"@,
        OpCodes::BLOCKHASH => "BLOCKHASH"@,
        OpCodes::COINBASE => "COINBASE"@,
        OpCodes::TIMESTAMP => "TIMESTAMP"@,
        OpCodes::NUMBER => "NUMBER"@,
        OpCodes::DIFFICULTY => "DIFFICULTY"@,
        OpCodes::GASLIMIT => "GASLIMIT"@,
        OpCodes::CHAINID => "CHAINID"@,
        OpCodes::SELFBALANCE => "SELFBALANCE"@,
        OpCodes::BASEFEE => "BASEFEE"@,
        OpCodes::POP => "POP"@,
        OpCodes::MLOAD => "MLOAD"@,
        OpCodes::MSTORE => "MSTORE"@,
        OpCodes::MSTORE8 => "MSTORE8"@,
        OpCodes::SLOAD => "SLOAD"@,
        OpCodes::SSTORE => "SSTORE"@,
        OpCodes::JUMP => "JUMP"@,
        OpCodes::JUMPI => "JUMPI"@,
        OpCodes::PC => "PC"@,
        OpCodes::MSIZE => "MSIZE"@,
        OpCodes::GAS => "GAS"@,
        OpCodes::JUMPDEST => "JUMPDEST"@,
        OpCodes::PUSH0 => "PUSH0"@,
        OpCodes::PUSH1 => "PUSH1"@,
        OpCodes::PUSH2 => "PUSH2"@,
        OpCodes::PUSH3 => "PUSH3"@,
        OpCodes::PUSH4 => "PUSH4"@,
        OpCodes::PUSH5 => "PUSH5"@,
        OpCodes::PUSH6 => "PUSH6"@,
        OpCodes::PUSH7 => "PUSH7"@,
        OpCodes::PUSH8 => "PUSH8"@,
        OpCodes::PUSH9 => "PUSH9"@,
        OpCodes::PUSH10 => "PUSH10"@,
        OpCodes::PUSH11 => "PUSH11"@,
        OpCodes::PUSH12 => "PUSH12"@,
        OpCodes::PUSH13 => "PUSH13"@,
        OpCodes::PUSH14 => "PUSH14"@,
        OpCodes::PUSH15 => "PUSH15"@,
        OpCodes::PUSH16 => "PUSH16"@,
        OpCodes::PUSH17 => "PUSH17"@,
        OpCodes::PUSH18 => "PUSH18"@,
        OpCodes::PUSH19 => "PUSH19"@,
        OpCodes::PUSH20 => "PUSH20"@,
        OpCodes::PUSH21 => "PUSH21"@,
        OpCodes::PUSH22 => "PUSH22"@,
        OpCodes::PUSH23 => "PUSH23"@,
        OpCodes::PUSH24 => "PUSH24"@,
        OpCodes::PUSH25 => "PUSH25"@,
        OpCodes::PUSH26 => "PUSH26"@,
        OpCodes::PUSH27 => "PUSH27"@,
        OpCodes::PUSH28 => "PUSH28"@,
        OpCodes::PUSH29 => "PUSH29"@,
        OpCodes::PUSH30 => "PUSH30"@,
        OpCodes::PUSH31 => "PUSH31"@,
        OpCodes::PUSH32 => "PUSH32"@,
        OpCodes::DUP1 => "DUP1"@,
        OpCodes::DUP2 => "DUP2"@,
        OpCodes::DUP3 => "DUP3"@,
        OpCodes::DUP4 => "DUP4"@,
        OpCodes::DUP5 => "DUP5"@,
        OpCodes::DUP6 => "DUP6"@,
        OpCodes::DUP7 => "DUP7"@,
        OpCodes::DUP8 => "DUP8"@,
        OpCodes::DUP9 => "DUP9"@,
        OpCodes::DUP10 => "DUP10"@,
        OpCodes::DUP11 => "DUP11"@,
        OpCodes::DUP12 => "DUP12"@,
        OpCodes::DUP13 => "DUP13"@,
        OpCodes::DUP14 => "DUP14"@,
        OpCodes::DUP15 => "DUP15"@,
        OpCodes::DUP16 => "DUP16"@,
        OpCodes::SWAP1 => "SWAP1"@,
        OpCodes::SWAP2 => "SWAP2"@,
        OpCodes::SWAP3 => "SWAP3"@,
        OpCodes::SWAP4 => "SWAP4"@,
        OpCodes::SWAP5 => "SWAP5"@,
        OpCodes::SWAP6 => "SWAP6"@,
        OpCodes::SWAP7 => "SWAP7"@,
        OpCodes::SWAP8 => "SWAP8"@,
        OpCodes::SWAP9 => "SWAP9"@,
        OpCodes::SWAP10 => "SWAP10"@,
        OpCodes::SWAP11 => "SWAP11"@,
        OpCodes::SWAP12 => "SWAP12"@,
        OpCodes::SWAP13 => "SWAP13"@,
        OpCodes::SWAP14 => "SWAP14"@,
        OpCodes::SWAP15 => "SWAP15"@,
        OpCodes::SWAP16 => "SWAP16"@,
        OpCodes::LOG0 => "LOG0"@,
        OpCodes::LOG1 => "LOG1"@,
        OpCodes::LOG2 => "LOG2"@,
        OpCodes::LOG3 => "LOG3"@,
        OpCodes::LOG4 => "LOG4"@,
        OpCodes::EOFMAGIC => "EOFMAGIC"@,
        OpCodes::CREATE => "CREATE"@,
        OpCodes::CALL => "CALL"@,
        OpCodes::CALLCODE => "CALLCODE"@,
        OpCodes::RETURN => "RETURN"@,
        OpCodes::DELEGATECALL => "DELEGATECALL"@,
        OpCodes::CREATE2 => "CREATE2"@,
        OpCodes::STATICCALL => "STATICCALL"@,
        OpCodes::REVERT => "REVERT"@,
        OpCodes::INVALID => "INVALID"@,
        OpCodes::SELFDESTRUCT => "SELFDESTRUCT"@,
    }
}

impl OpCode {
    /// The mnemonic of the opcode, for rendering.
    pub fn short_name(&self) -> (r: String)
        ensures
            r@ == spec_mnemonic(self.code),
    {
        match self.code {
            OpCodes::STOP => "STOP".to_owned(),
            OpCodes::ADD => "ADD".to_owned(),
            OpCodes::MUL => "MUL".to_owned(),
            OpCodes::SUB => "SUB".to_owned(),
            OpCodes::DIV => "DIV".to_owned(),
            OpCodes::SDIV => "SDIV".to_owned(),
            OpCodes::MOD => "MOD".to_owned(),
            OpCodes::SMOD => "SMOD".to_owned(),
            OpCodes::ADDMOD => "ADDMOD".to_owned(),
            OpCodes::MULMOD => "MULMOD".to_owned(),
            OpCodes::EXP => "EXP".to_owned(),
            OpCodes::SIGNEXTEND => "SIGNEXTEND".to_owned(),
            OpCodes::LT => "LT".to_owned(),
            OpCodes::GT => "GT".to_owned(),
            OpCodes::SLT => "SLT".to_owned(),
            OpCodes::SGT => "SGT".to_owned(),
            OpCodes::EQ => "EQ".to_owned(),
            OpCodes::ISZERO => "ISZERO".to_owned(),
            OpCodes::AND => "AND".to_owned(),
            OpCodes::OR => "OR".to_owned(),
            OpCodes::XOR => "XOR".to_owned(),
            OpCodes::NOT => "NOT".to_owned(),
            OpCodes::BYTE => "BYTE".to_owned(),
            OpCodes::SHL => "SHL".to_owned(),
            OpCodes::SHR => "SHR".to_owned(),
            OpCodes::SAR => "SAR".to_owned(),
            OpCodes::SHA3 => "SHA3".to_owned(),
            OpCodes::ADDRESS => "ADDRESS".to_owned(),
            OpCodes::BALANCE => "BALANCE".to_owned(),
            OpCodes::ORIGIN => "ORIGIN".to_owned(),
            OpCodes::CALLER => "CALLER".to_owned(),
            OpCodes::CALLVALUE => "CALLVALUE".to_owned(),
            OpCodes::CALLDATALOAD => "CALLDATALOAD".to_owned(),
            OpCodes::CALLDATASIZE => "CALLDATASIZE".to_owned(),
            OpCodes::CALLDATACOPY => "CALLDATACOPY".to_owned(),
            OpCodes::CODESIZE => "CODESIZE".to_owned(),
            OpCodes::CODECOPY => "CODECOPY".to_owned(),
            OpCodes::GASPRICE => "GASPRICE".to_owned(),
            OpCodes::EXTCODESIZE => "EXTCODESIZE".to_owned(),
            OpCodes::EXTCODECOPY => "EXTCODECOPY".to_owned(),
            OpCodes::RETURNDATASIZE => "RETURNDATASIZE".to_owned(),
            OpCodes::RETURNDATACOPY => "RETURNDATACOPY".to_owned(),
            OpCodes::EXTCODEHASH => "EXTCODEHASH".to_owned(),
            OpCodes::BLOCKHASH => "BLOCKHASH".to_owned(),
            OpCodes::COINBASE => "COINBASE".to_owned(),
            OpCodes::TIMESTAMP => "TIMESTAMP".to_owned(),
            OpCodes::NUMBER => "NUMBER".to_owned(),
            OpCodes::DIFFICULTY => "DIFFICULTY".to_owned(),
            OpCodes::GASLIMIT => "GASLIMIT".to_owned(),
            OpCodes::CHAINID => "CHAINID".to_owned(),
            OpCodes::SELFBALANCE => "SELFBALANCE".to_owned(),
            OpCodes::BASEFEE => "BASEFEE".to_owned(),
            OpCodes::POP => "POP".to_owned(),
            OpCodes::MLOAD => "MLOAD".to_owned(),
            OpCodes::MSTORE => "MSTORE".to_owned(),
            OpCodes::MSTORE8 => "MSTORE8".to_owned(),
            OpCodes::SLOAD => "SLOAD".to_owned(),
            OpCodes::SSTORE => "SSTORE".to_owned(),
            OpCodes::JUMP => "JUMP".to_owned(),
            OpCodes::JUMPI => "JUMPI".to_owned(),
            OpCodes::PC => "PC".to_owned(),
            OpCodes::MSIZE => "MSIZE".to_owned(),
            OpCodes::GAS => "GAS".to_owned(),
            OpCodes::JUMPDEST => "JUMPDEST".to_owned(),
            OpCodes::PUSH0 => "PUSH0".to_owned(),
            OpCodes::PUSH1 => "PUSH1".to_owned(),
            OpCodes::PUSH2 => "PUSH2".to_owned(),
            OpCodes::PUSH3 => "PUSH3".to_owned(),
            OpCodes::PUSH4 => "PUSH4".to_owned(),
            OpCodes::PUSH5 => "PUSH5".to_owned(),
            OpCodes::PUSH6 => "PUSH6".to_owned(),
            OpCodes::PUSH7 => "PUSH7".to_owned(),
            OpCodes::PUSH8 => "PUSH8".to_owned(),
            OpCodes::PUSH9 => "PUSH9".to_owned(),
            OpCodes::PUSH10 => "PUSH10".to_owned(),
            OpCodes::PUSH11 => "PUSH11".to_owned(),
            OpCodes::PUSH12 => "PUSH12".to_owned(),
            OpCodes::PUSH13 => "PUSH13".to_owned(),
            OpCodes::PUSH14 => "PUSH14".to_owned(),
            OpCodes::PUSH15 => "PUSH15".to_owned(),
            OpCodes::PUSH16 => "PUSH16".to_owned(),
            OpCodes::PUSH17 => "PUSH17".to_owned(),
            OpCodes::PUSH18 => "PUSH18".to_owned(),
            OpCodes::PUSH19 => "PUSH19".to_owned(),
            OpCodes::PUSH20 => "PUSH20".to_owned(),
            OpCodes::PUSH21 => "PUSH21".to_owned(),
            OpCodes::PUSH22 => "PUSH22".to_owned(),
            OpCodes::PUSH23 => "PUSH23".to_owned(),
            OpCodes::PUSH24 => "PUSH24".to_owned(),
            OpCodes::PUSH25 => "PUSH25".to_owned(),
            OpCodes::PUSH26 => "PUSH26".to_owned(),
            OpCodes::PUSH27 => "PUSH27".to_owned(),
            OpCodes::PUSH28 => "PUSH28".to_owned(),
            OpCodes::PUSH29 => "PUSH29".to_owned(),
            OpCodes::PUSH30 => "PUSH30".to_owned(),
            OpCodes::PUSH31 => "PUSH31".to_owned(),
            OpCodes::PUSH32 => "PUSH32".to_owned(),
            OpCodes::DUP1 => "DUP1".to_owned(),
            OpCodes::DUP2 => "DUP2".to_owned(),
            OpCodes::DUP3 => "DUP3".to_owned(),
            OpCodes::DUP4 => "DUP4".to_owned(),
            OpCodes::DUP5 => "DUP5".to_owned(),
            OpCodes::DUP6 => "DUP6".to_owned(),
            OpCodes::DUP7 => "DUP7".to_owned(),
            OpCodes::DUP8 => "DUP8".to_owned(),
            OpCodes::DUP9 => "DUP9".to_owned(),
            OpCodes::DUP10 => "DUP10".to_owned(),
            OpCodes::DUP11 => "DUP11".to_owned(),
            OpCodes::DUP12 => "DUP12".to_owned(),
            OpCodes::DUP13 => "DUP13".to_owned(),
            OpCodes::DUP14 => "DUP14".to_owned(),
            OpCodes::DUP15 => "DUP15".to_owned(),
            OpCodes::DUP16 => "DUP16".to_owned(),
            OpCodes::SWAP1 => "SWAP1".to_owned(),
            OpCodes::SWAP2 => "SWAP2".to_owned(),
            OpCodes::SWAP3 => "SWAP3".to_owned(),
            OpCodes::SWAP4 => "SWAP4".to_owned(),
            OpCodes::SWAP5 => "SWAP5".to_owned(),
            OpCodes::SWAP6 => "SWAP6".to_owned(),
            OpCodes::SWAP7 => "SWAP7".to_owned(),
            OpCodes::SWAP8 => "SWAP8".to_owned(),
            OpCodes::SWAP9 => "SWAP9".to_owned(),
            OpCodes::SWAP10 => "SWAP10".to_owned(),
            OpCodes::SWAP11 => "SWAP11".to_owned(),
            OpCodes::SWAP12 => "SWAP12".to_owned(),
            OpCodes::SWAP13 => "SWAP13".to_owned(),
            OpCodes::SWAP14 => "SWAP14".to_owned(),
            OpCodes::SWAP15 => "SWAP15".to_owned(),
            OpCodes::SWAP16 => "SWAP16".to_owned(),
            OpCodes::LOG0 => "LOG0".to_owned(),
            OpCodes::LOG1 => "LOG1".to_owned(),
            OpCodes::LOG2 => "LOG2".to_owned(),
            OpCodes::LOG3 => "LOG3".to_owned(),
            OpCodes::LOG4 => "LOG4".to_owned(),
            OpCodes::EOFMAGIC => "EOFMAGIC".to_owned(),
            OpCodes::CREATE => "CREATE".to_owned(),
            OpCodes::CALL => "CALL".to_owned(),
            OpCodes::CALLCODE => "CALLCODE".to_owned(),
            OpCodes::RETURN => "RETURN".to_owned(),
            OpCodes::DELEGATECALL => "DELEGATECALL".to_owned(),
            OpCodes::CREATE2 => "CREATE2".to_owned(),
            OpCodes::STATICCALL => "STATICCALL".to_owned(),
            OpCodes::REVERT => "REVERT".to_owned(),
            OpCodes::INVALID => "INVALID".to_owned(),
            OpCodes::SELFDESTRUCT => "SELFDESTRUCT".to_owned(),
        }
    }
}
/// How many immediate bytes follow the opcode byte.
pub fn imm_count(c: OpCodes) -> (r: u32)
    ensures
        r == spec_imm_count(c),
{
    match c {
        OpCodes::PUSH1 => 1,
        OpCodes::PUSH2 => 2,
        OpCodes::PUSH3 => 3,
        OpCodes::PUSH4 => 4,
        OpCodes::PUSH5 => 5,
        OpCodes::PUSH6 => 6,
        OpCodes::PUSH7 => 7,
        OpCodes::PUSH8 => 8,
        OpCodes::PUSH9 => 9,
        OpCodes::PUSH10 => 10,
        OpCodes::PUSH11 => 11,
        OpCodes::PUSH12 => 12,
        OpCodes::PUSH13 => 13,
        OpCodes::PUSH14 => 14,
        OpCodes::PUSH15 => 15,
        OpCodes::PUSH16 => 16,
        OpCodes::PUSH17 => 17,
        OpCodes::PUSH18 => 18,
        OpCodes::PUSH19 => 19,
        OpCodes::PUSH20 => 20,
        OpCodes::PUSH21 => 21,
        OpCodes::PUSH22 => 22,
        OpCodes::PUSH23 => 23,
        OpCodes::PUSH24 => 24,
        OpCodes::PUSH25 => 25,
        OpCodes::PUSH26 => 26,
        OpCodes::PUSH27 => 27,
        OpCodes::PUSH28 => 28,
        OpCodes::PUSH29 => 29,
        OpCodes::PUSH30 => 30,
        OpCodes::PUSH31 => 31,
        OpCodes::PUSH32 => 32,
        _ => 0,
    }
}

/// The depth operand carried in the mnemonic: `n` for SWAPn, zero elsewhere.
pub fn operator_index_of(c: OpCodes) -> (r: usize)
    ensures
        r == spec_operator_index(c),
{
    match c {
        OpCodes::SWAP1 => 1,
        OpCodes::SWAP2 => 2,
        OpCodes::SWAP3 => 3,
        OpCodes::SWAP4 => 4,
        OpCodes::SWAP5 => 5,
        OpCodes::SWAP6 => 6,
        OpCodes::SWAP7 => 7,
        OpCodes::SWAP8 => 8,
        OpCodes::SWAP9 => 9,
        OpCodes::SWAP10 => 10,
        OpCodes::SWAP11 => 11,
        OpCodes::SWAP12 => 12,
        OpCodes::SWAP13 => 13,
        OpCodes::SWAP14 => 14,
        OpCodes::SWAP15 => 15,
        OpCodes::SWAP16 => 16,
        _ => 0,
    }
}

/// How many stack elements the opcode consumes.
pub fn stack_inputs_of(c: OpCodes) -> (r: u32)
    ensures
        r == spec_stack_inputs(c),
{
    match c {
        OpCodes::ISZERO | OpCodes::NOT | OpCodes::BALANCE | OpCodes::CALLDATALOAD | OpCodes::EXTCODESIZE | OpCodes::EXTCODEHASH | OpCodes::BLOCKHASH | OpCodes::POP | OpCodes::MLOAD | OpCodes::SLOAD | OpCodes::JUMP | OpCodes::DUP1 | OpCodes::SELFDESTRUCT => 1,
        OpCodes::ADD | OpCodes::MUL | OpCodes::SUB | OpCodes::DIV | OpCodes::SDIV | OpCodes::MOD | OpCodes::SMOD | OpCodes::EXP | OpCodes::SIGNEXTEND | OpCodes::LT | OpCodes::GT | OpCodes::SLT | OpCodes::SGT | OpCodes::EQ | OpCodes::AND | OpCodes::OR | OpCodes::XOR | OpCodes::BYTE | OpCodes::SHL | OpCodes::SHR | OpCodes::SAR | OpCodes::SHA3 | OpCodes::MSTORE | OpCodes::MSTORE8 | OpCodes::SSTORE | OpCodes::JUMPI | OpCodes::DUP2 | OpCodes::SWAP1 | OpCodes::LOG0 | OpCodes::RETURN | OpCodes::REVERT => 2,
        OpCodes::ADDMOD | OpCodes::MULMOD | OpCodes::CALLDATACOPY | OpCodes::CODECOPY | OpCodes::RETURNDATACOPY | OpCodes::DUP3 | OpCodes::SWAP2 | OpCodes::LOG1 | OpCodes::CREATE => 3,
        OpCodes::EXTCODECOPY | OpCodes::DUP4 | OpCodes::SWAP3 | OpCodes::LOG2 | OpCodes::CREATE2 => 4,
        OpCodes::DUP5 | OpCodes::SWAP4 | OpCodes::LOG3 => 5,
        OpCodes::DUP6 | OpCodes::SWAP5 | OpCodes::LOG4 | OpCodes::DELEGATECALL | OpCodes::STATICCALL => 6,
        OpCodes::DUP7 | OpCodes::SWAP6 | OpCodes::CALL | OpCodes::CALLCODE => 7,
        OpCodes::DUP8 | OpCodes::SWAP7 => 8,
        OpCodes::DUP9 | OpCodes::SWAP8 => 9,
        OpCodes::DUP10 | OpCodes::SWAP9 => 10,
        OpCodes::DUP11 | OpCodes::SWAP10 => 11,
        OpCodes::DUP12 | OpCodes::SWAP11 => 12,
        OpCodes::DUP13 | OpCodes::SWAP12 => 13,
        OpCodes::DUP14 | OpCodes::SWAP13 => 14,
        OpCodes::DUP15 | OpCodes::SWAP14 => 15,
        OpCodes::DUP16 | OpCodes::SWAP15 => 16,
        OpCodes::SWAP16 => 17,
        _ => 0,
    }
}

/// How many stack elements the opcode leaves behind.
pub fn stack_outputs_of(c: OpCodes) -> (r: u32)
    ensures
        r == spec_stack_outputs(c),
{
    match c {
        OpCodes::ADD | OpCodes::MUL | OpCodes::SUB | OpCodes::DIV | OpCodes::SDIV | OpCodes::MOD | OpCodes::SMOD | OpCodes::ADDMOD | OpCodes::MULMOD | OpCodes::EXP | OpCodes::SIGNEXTEND | OpCodes::LT | OpCodes::GT | OpCodes::SLT | OpCodes::SGT | OpCodes::EQ | OpCodes::ISZERO | OpCodes::AND | OpCodes::OR | OpCodes::XOR | OpCodes::NOT | OpCodes::BYTE | OpCodes::SHL | OpCodes::SHR | OpCodes::SAR | OpCodes::SHA3 | OpCodes::ADDRESS | OpCodes::BALANCE | OpCodes::ORIGIN | OpCodes::CALLER | OpCodes::CALLVALUE | OpCodes::CALLDATALOAD | OpCodes::CALLDATASIZE | OpCodes::CODESIZE | OpCodes::GASPRICE | OpCodes::EXTCODESIZE | OpCodes::RETURNDATASIZE | OpCodes::EXTCODEHASH | OpCodes::BLOCKHASH | OpCodes::COINBASE | OpCodes::TIMESTAMP | OpCodes::NUMBER | OpCodes::DIFFICULTY | OpCodes::GASLIMIT | OpCodes::CHAINID | OpCodes::SELFBALANCE | OpCodes::BASEFEE | OpCodes::MLOAD | OpCodes::SLOAD | OpCodes::PC | OpCodes::MSIZE | OpCodes::GAS | OpCodes::PUSH0 | OpCodes::PUSH1 | OpCodes::PUSH2 | OpCodes::PUSH3 | OpCodes::PUSH4 | OpCodes::PUSH5 | OpCodes::PUSH6 | OpCodes::PUSH7 | OpCodes::PUSH8 | OpCodes::PUSH9 | OpCodes::PUSH10 | OpCodes::PUSH11 | OpCodes::PUSH12 | OpCodes::PUSH13 | OpCodes::PUSH14 | OpCodes::PUSH15 | OpCodes::PUSH16 | OpCodes::PUSH17 | OpCodes::PUSH18 | OpCodes::PUSH19 | OpCodes::PUSH20 | OpCodes::PUSH21 | OpCodes::PUSH22 | OpCodes::PUSH23 | OpCodes::PUSH24 | OpCodes::PUSH25 | OpCodes::PUSH26 | OpCodes::PUSH27 | OpCodes::PUSH28 | OpCodes::PUSH29 | OpCodes::PUSH30 | OpCodes::PUSH31 | OpCodes::PUSH32 | OpCodes::CREATE | OpCodes::CALL | OpCodes::CALLCODE | OpCodes::DELEGATECALL | OpCodes::CREATE2 | OpCodes::STATICCALL => 1,
        OpCodes::DUP1 | OpCodes::SWAP1 => 2,
        OpCodes::DUP2 | OpCodes::SWAP2 => 3,
        OpCodes::DUP3 | OpCodes::SWAP3 => 4,
        OpCodes::DUP4 | OpCodes::SWAP4 => 5,
        OpCodes::DUP5 | OpCodes::SWAP5 => 6,
        OpCodes::DUP6 | OpCodes::SWAP6 => 7,
        OpCodes::DUP7 | OpCodes::SWAP7 => 8,
        OpCodes::DUP8 | OpCodes::SWAP8 => 9,
        OpCodes::DUP9 | OpCodes::SWAP9 => 10,
        OpCodes::DUP10 | OpCodes::SWAP10 => 11,
        OpCodes::DUP11 | OpCodes::SWAP11 => 12,
        OpCodes::DUP12 | OpCodes::SWAP12 => 13,
        OpCodes::DUP13 | OpCodes::SWAP13 => 14,
        OpCodes::DUP14 | OpCodes::SWAP14 => 15,
        OpCodes::DUP15 | OpCodes::SWAP15 => 16,
        OpCodes::DUP16 | OpCodes::SWAP16 => 17,
        _ => 0,
    }
}

/// The canonical metadata row of an opcode.
pub open spec fn spec_opcode(c: OpCodes) -> OpCode {
    OpCode {
        code: c,
        input_arguments: spec_imm_count(c),
        operator_index: spec_operator_index(c),
        stack_inputs: spec_stack_inputs(c),
        stack_outputs: spec_stack_outputs(c),
    }
}

/// Looks the metadata of an opcode up in the table.
pub fn opcode_for(c: OpCodes) -> (r: OpCode)
    ensures
        r == spec_opcode(c),
{
    OpCode {
        code: c,
        input_arguments: imm_count(c),
        operator_index: operator_index_of(c),
        stack_inputs: stack_inputs_of(c),
        stack_outputs: stack_outputs_of(c),
    }
}

impl Default for OpCode {
    /// The filler row: INVALID with zero arity.
    fn default() -> (r: OpCode)
        ensures
            r == (OpCode {
                code: OpCodes::INVALID,
                input_arguments: 0,
                operator_index: 0,
                stack_inputs: 0,
                stack_outputs: 0,
            }),
    {
        OpCode {
            code: OpCodes::INVALID,
            input_arguments: 0,
            operator_index: 0,
            stack_inputs: 0,
            stack_outputs: 0,
        }
    }
}

/// Whether the opcode ends a basic block: a jump or a halting opcode.
pub open spec fn spec_is_terminator(c: OpCodes) -> bool {
    match c {
        OpCodes::JUMP | OpCodes::STOP | OpCodes::RETURN | OpCodes::REVERT | OpCodes::INVALID
            | OpCodes::SELFDESTRUCT => true,
        _ => false,
    }
}

/// Whether the opcode halts execution outright.
pub open spec fn spec_is_halt(c: OpCodes) -> bool {
    match c {
        OpCodes::STOP | OpCodes::RETURN | OpCodes::REVERT | OpCodes::INVALID
            | OpCodes::SELFDESTRUCT => true,
        _ => false,
    }
}

/// Whether the opcode ends a basic block.
pub fn is_terminator(c: OpCodes) -> (r: bool)
    ensures
        r == spec_is_terminator(c),
{
    match c {
        OpCodes::JUMP | OpCodes::STOP | OpCodes::RETURN | OpCodes::REVERT | OpCodes::INVALID
            | OpCodes::SELFDESTRUCT => true,
        _ => false,
    }
}

/// The table rows of the opcode bytes below `b`, in byte order: one row per
/// byte that names an opcode, none for the gaps.
pub open spec fn opcode_table(b: int) -> Seq<OpCode>
    decreases b,
{
    if b <= 0 {
        Seq::<OpCode>::empty()
    } else {
        opcode_table(b - 1) + match spec_opcode_of_byte((b - 1) as u32) {
            Some(c) => seq![spec_opcode(c)],
            None => Seq::<OpCode>::empty(),
        }
    }
}

/// Every row of the table prefix is the canonical row of its opcode, and
/// every opcode byte below `b` has its row in the prefix.
pub proof fn lemma_opcode_table_complete(b: int)
    requires
        0 <= b <= 256,
    ensures
        forall|i: int| 0 <= i < opcode_table(b).len() ==> #[trigger] opcode_table(b)[i]
            == spec_opcode(opcode_table(b)[i].code),
        forall|bb: u32| bb < b && spec_opcode_of_byte(bb) is Some
            ==> exists|i: int| 0 <= i < opcode_table(b).len()
                && #[trigger] opcode_table(b)[i].code == spec_opcode_of_byte(bb)->0,
    decreases b,
{
    if b > 0 {
        lemma_opcode_table_complete(b - 1);
        let prev = opcode_table(b - 1);
        let cur = opcode_table(b);
        if spec_opcode_of_byte((b - 1) as u32) is Some {
            let c = spec_opcode_of_byte((b - 1) as u32)->0;
            assert(cur[prev.len() as int].code == c);
        }
        assert forall|bb: u32| bb < b && spec_opcode_of_byte(bb) is Some implies exists|i: int|
            0 <= i < cur.len() && #[trigger] cur[i].code == spec_opcode_of_byte(bb)->0 by {
            if bb < b - 1 {
                let i = choose|i: int| 0 <= i < prev.len() && #[trigger] prev[i].code
                    == spec_opcode_of_byte(bb)->0;
                assert(cur[i].code == spec_opcode_of_byte(bb)->0);
            } else {
                assert(cur[prev.len() as int].code == spec_opcode_of_byte(bb)->0);
            }
        }
    }
}

/// The whole opcode table, one metadata row per known opcode byte, in byte
/// order.
pub fn opcodes() -> (r: Vec<OpCode>)
    ensures
        r@ == opcode_table(256),
        forall|i: int| 0 <= i < r@.len() ==> #[trigger] r@[i] == spec_opcode(r@[i].code),
        forall|b: u32| b < 256 && spec_opcode_of_byte(b) is Some
            ==> exists|i: int| 0 <= i < r@.len()
                && #[trigger] r@[i].code == spec_opcode_of_byte(b)->0,
{
    let mut r: Vec<OpCode> = Vec::new();
    let mut b: u32 = 0;
    proof {
        assert(r@ =~= opcode_table(0));
    }
    while b < 256
        invariant
            b <= 256,
            r@ == opcode_table(b as int),
        decreases 256 - b,
    {
        if let Some(c) = OpCodes::from_byte(b) {
            r.push(opcode_for(c));
            proof {
                assert(r@ =~= opcode_table(b as int) + seq![spec_opcode(c)]);
            }
        } else {
            proof {
                assert(r@ =~= opcode_table(b as int) + Seq::<OpCode>::empty());
            }
        }
        b = b + 1;
    }
    proof {
        lemma_opcode_table_complete(256);
    }
    r
}


/// Whether the opcode pushes an immediate (PUSH1 through PUSH32).
pub open spec fn spec_is_push(c: OpCodes) -> bool {
    spec_imm_count(c) >= 1
}

/// The depth a DUP opcode duplicates from: `n` for DUPn, zero elsewhere.
pub open spec fn spec_dup_depth(c: OpCodes) -> int {
    match c {
        OpCodes::DUP1 => 1,
        OpCodes::DUP2 => 2,
        OpCodes::DUP3 => 3,
        OpCodes::DUP4 => 4,
        OpCodes::DUP5 => 5,
        OpCodes::DUP6 => 6,
        OpCodes::DUP7 => 7,
        OpCodes::DUP8 => 8,
        OpCodes::DUP9 => 9,
        OpCodes::DUP10 => 10,
        OpCodes::DUP11 => 11,
        OpCodes::DUP12 => 12,
        OpCodes::DUP13 => 13,
        OpCodes::DUP14 => 14,
        OpCodes::DUP15 => 15,
        OpCodes::DUP16 => 16,
        _ => 0,
    }
}

/// The depth a SWAP opcode exchanges with: `n` for SWAPn, zero elsewhere.
pub open spec fn spec_swap_depth(c: OpCodes) -> int {
    match c {
        OpCodes::SWAP1 => 1,
        OpCodes::SWAP2 => 2,
        OpCodes::SWAP3 => 3,
        OpCodes::SWAP4 => 4,
        OpCodes::SWAP5 => 5,
        OpCodes::SWAP6 => 6,
        OpCodes::SWAP7 => 7,
        OpCodes::SWAP8 => 8,
        OpCodes::SWAP9 => 9,
        OpCodes::SWAP10 => 10,
        OpCodes::SWAP11 => 11,
        OpCodes::SWAP12 => 12,
        OpCodes::SWAP13 => 13,
        OpCodes::SWAP14 => 14,
        OpCodes::SWAP15 => 15,
        OpCodes::SWAP16 => 16,
        _ => 0,
    }
}

} // verus!
