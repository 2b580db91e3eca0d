use evmflow::calldata::{parse_callvalue, CallData, Environment};
use evmflow::errors::EvmError;
use evmflow::hex::{hex_string, Hex};
use evmflow::instruction::Instruction;
use evmflow::memory::Memory;
use evmflow::opcode::{opcode_for, opcodes, OpCodeResult, OpCodes};
use evmflow::parser::{bytecode_to_instructions, Parser};
use evmflow::stack::{Stack, StackElement};

fn step(op: OpCodes, index: u128, stack: &mut Stack) -> Result<OpCodeResult, EvmError> {
    let input = Instruction {
        args: Vec::new(),
        opcode: opcode_for(op),
        index: Hex(index),
    };
    let mut pc = Hex(index);
    let mut memory = Memory::new();
    let env = Environment::new();
    input.parse(stack, &mut pc, &mut memory, &env)
}

fn elem(value: u128) -> StackElement {
    StackElement { value: Hex(value), origin: Hex(0), size: 1 }
}

#[test]
fn sub_wraps_below_zero() {
    // sub(0, 1) = 2^128 - 1 in a 128-bit word
    assert_eq!(Hex(0).wrapping_sub(Hex(1)), Hex(u128::MAX));
    let mut stack = Stack::new();
    stack.push(elem(1));
    stack.push(elem(0));
    step(OpCodes::SUB, 9, &mut stack).unwrap();
    let top = stack.pop().unwrap();
    assert_eq!(top.value, Hex(u128::MAX));
    assert_eq!(top.origin, Hex(9));
    assert_eq!(top.size, 1);
}

#[test]
fn add_and_mul_wrap() {
    assert_eq!(Hex(u128::MAX).wrapping_add(Hex(1)), Hex(0));
    assert_eq!(Hex(3).wrapping_add(Hex(4)), Hex(7));
    assert_eq!(Hex(1u128 << 127).wrapping_mul(Hex(2)), Hex(0));
    assert_eq!(Hex(6).wrapping_mul(Hex(7)), Hex(42));
}

#[test]
fn shifts_by_word_width_or_more_yield_zero() {
    assert_eq!(Hex(5).shl(Hex(128)), Hex(0));
    assert_eq!(Hex(5).shr(Hex(128)), Hex(0));
    assert_eq!(Hex(u128::MAX).shl(Hex(1000)), Hex(0));
    assert_eq!(Hex(u128::MAX).shr(Hex(1000)), Hex(0));
    assert_eq!(Hex(1).shl(Hex(4)), Hex(16));
    assert_eq!(Hex(0xf0).shr(Hex(4)), Hex(0xf));
}

#[test]
fn modulo_and_bitand() {
    assert_eq!(Hex(7).modulo(Hex(3)), Hex(1));
    assert_eq!(Hex(7).modulo(Hex(0)), Hex(0));
    assert_eq!(Hex(0xff0f).bitand(Hex(0x00ff)), Hex(0x000f));
}

#[test]
fn comparisons_follow_evm_order() {
    // LT pops a then b and pushes a < b
    let mut stack = Stack::new();
    stack.push(elem(5));
    stack.push(elem(3));
    step(OpCodes::LT, 0, &mut stack).unwrap();
    assert_eq!(stack.pop().unwrap().value, Hex(1));

    // SLT is signed: the top bit is the sign
    let mut stack = Stack::new();
    stack.push(elem(1));
    stack.push(StackElement { value: Hex(1u128 << 127), origin: Hex(0), size: 1 });
    step(OpCodes::SLT, 0, &mut stack).unwrap();
    assert_eq!(stack.pop().unwrap().value, Hex(1));

    // EQ and ISZERO
    let mut stack = Stack::new();
    stack.push(elem(4));
    stack.push(elem(4));
    step(OpCodes::EQ, 0, &mut stack).unwrap();
    assert_eq!(stack.pop().unwrap().value, Hex(1));

    let mut stack = Stack::new();
    stack.push(elem(0));
    step(OpCodes::ISZERO, 0, &mut stack).unwrap();
    assert_eq!(stack.pop().unwrap().value, Hex(1));
}

#[test]
fn swap_twice_is_identity() {
    let mut stack = Stack::new();
    stack.push(elem(1));
    stack.push(elem(2));
    stack.push(elem(3));
    step(OpCodes::SWAP2, 0, &mut stack).unwrap();
    assert_eq!(stack.get(0).unwrap().value, Hex(3));
    assert_eq!(stack.get(2).unwrap().value, Hex(1));
    step(OpCodes::SWAP2, 1, &mut stack).unwrap();
    assert_eq!(stack.get(0).unwrap().value, Hex(1));
    assert_eq!(stack.get(1).unwrap().value, Hex(2));
    assert_eq!(stack.get(2).unwrap().value, Hex(3));
}

#[test]
fn dup_copies_the_element_at_depth() {
    let mut stack = Stack::new();
    stack.push(StackElement { value: Hex(0xaa), origin: Hex(7), size: 2 });
    stack.push(elem(1));
    stack.push(elem(2));
    step(OpCodes::DUP3, 0, &mut stack).unwrap();
    assert_eq!(stack.len(), 4);
    assert_eq!(
        stack.pop().unwrap(),
        StackElement { value: Hex(0xaa), origin: Hex(7), size: 2 }
    );
}

#[test]
fn mstore_then_mload_returns_the_stored_value() {
    let mut memory = Memory::new();
    memory.mstore(
        StackElement { value: Hex(0xabcd), origin: Hex(7), size: 2 },
        Hex(4),
        Hex(9),
    );
    assert!(memory.get_contents().len() >= 36);
    let loaded = memory.mload(Hex(4));
    assert_eq!(loaded.value, Hex(0xabcd));
    assert_eq!(loaded.origin, Some(Hex(7)));
}

#[test]
fn mstore_pads_fresh_memory_with_zero_cells() {
    let mut memory = Memory::new();
    memory.mstore(
        StackElement { value: Hex(0xff), origin: Hex(1), size: 1 },
        Hex(40),
        Hex(2),
    );
    let cells = memory.get_contents();
    assert!(cells.len() >= 72);
    // a fresh cell outside the written slot was never written
    assert_eq!(cells[0].value, Hex(0));
    assert_eq!(cells[0].origin, None);
    // the slot's trailing cell holds the stored byte
    assert_eq!(cells[71].value, Hex(0xff));
    assert_eq!(cells[71].origin, Some(Hex(1)));
}

#[test]
fn stack_underflow_is_reported() {
    let mut stack = Stack::new();
    let r = step(OpCodes::ADD, 3, &mut stack);
    assert_eq!(r.unwrap_err(), EvmError::StackUnderflow { pc: Hex(3) });
}

#[test]
fn unmodeled_opcode_is_reported() {
    let mut stack = Stack::new();
    stack.push(elem(1));
    stack.push(elem(2));
    let r = step(OpCodes::DIV, 4, &mut stack);
    assert_eq!(
        r.unwrap_err(),
        EvmError::Unsupported { pc: Hex(4), opcode: OpCodes::DIV }
    );
}

#[test]
fn unknown_opcode_byte_fails_decoding() {
    let r = bytecode_to_instructions(&vec![0x00, 0x0c]);
    assert_eq!(r.unwrap_err(), EvmError::Decode { pc: Hex(1) });
}

#[test]
fn truncated_push_fails_decoding() {
    let r = bytecode_to_instructions(&vec![0x61, 0x01]);
    assert_eq!(r.unwrap_err(), EvmError::Decode { pc: Hex(0) });
}

#[test]
fn oversized_immediate_fails_decoding() {
    let r = bytecode_to_instructions(&vec![0x60, 0x1ff]);
    assert_eq!(r.unwrap_err(), EvmError::Decode { pc: Hex(0) });
}

#[test]
fn cbor_trailer_is_excluded_from_the_map() {
    // PUSH1 1; PUSH1 2; ADD; STOP, then a CBOR trailer beginning with the
    // marker a2 64 69 70 66 73
    let input = Vec::from([
        0x60, 0x01, 0x60, 0x02, 0x01, 0x00, 0xa2, 0x64, 0x69, 0x70, 0x66, 0x73, 0x58, 0x22,
        0x12, 0x20,
    ]);
    let parser = Parser::new(input).unwrap();
    let map = parser.get_instructions();
    assert_eq!(map.len(), 4);
    for pc in 6..16u128 {
        assert!(map.get(Hex(pc)).is_none());
    }
}

#[test]
fn calldata_window_reads_big_endian_and_zero_extends() {
    // thirty-two bytes of calldata, the last one 0xff
    let mut data = "0".repeat(62);
    data.push_str("ff");
    let cd = CallData::new(data);
    let e = cd.get(0).unwrap();
    assert_eq!(e.value, Hex(0xff));
    assert_eq!(e.origin, Hex(0));
    assert_eq!(e.size, 32);
    // at byte offset 2 the last byte sits two bytes higher in the window
    let e = cd.get(2).unwrap();
    assert_eq!(e.value, Hex(0xff0000));
    // a window wholly past the end reads as zero
    let e = cd.get(100).unwrap();
    assert_eq!(e.value, Hex(0));
    // a window that is no hex fails
    let bad = CallData::new("zz".to_string());
    assert_eq!(bad.get(0).unwrap_err(), EvmError::Input);
    // the size is the byte length of the calldata
    assert_eq!(
        cd.size(),
        StackElement { value: Hex(32), origin: Hex(0), size: 1 }
    );
}

#[test]
fn shl_shifts_and_saturates_at_width() {
    let mut stack = Stack::new();
    stack.push(elem(0xf));
    stack.push(elem(4));
    step(OpCodes::SHL, 0, &mut stack).unwrap();
    assert_eq!(stack.pop().unwrap().value, Hex(0xf0));

    let mut stack = Stack::new();
    stack.push(elem(1));
    stack.push(elem(200));
    step(OpCodes::SHL, 0, &mut stack).unwrap();
    assert_eq!(stack.pop().unwrap().value, Hex(0));
}

#[test]
fn callvalue_is_read_from_the_environment() {
    let mut stack = Stack::new();
    let input = Instruction {
        args: Vec::new(),
        opcode: opcode_for(OpCodes::CALLVALUE),
        index: Hex(5),
    };
    let mut pc = Hex(5);
    let mut memory = Memory::new();
    let env = Environment {
        calldata: None,
        callvalue: Some(StackElement { value: Hex(0x7b), origin: Hex(0), size: 1 }),
    };
    input.parse(&mut stack, &mut pc, &mut memory, &env).unwrap();
    let top = stack.pop().unwrap();
    assert_eq!(top.value, Hex(0x7b));
    assert_eq!(top.origin, Hex(5));
    assert_eq!(top.size, 1);
}

#[test]
fn callvalue_parse_rejects_bad_input() {
    assert_eq!(parse_callvalue("12a").unwrap_err(), EvmError::Input);
    // forty-one digits exceed the 128-bit word
    let huge = "9".repeat(41);
    assert_eq!(parse_callvalue(huge.as_str()).unwrap_err(), EvmError::Input);
    assert_eq!(
        parse_callvalue("0").unwrap(),
        StackElement { value: Hex(0), origin: Hex(0), size: 1 }
    );
}

#[test]
fn opcode_table_has_standard_rows() {
    let table = opcodes();
    assert_eq!(table.len(), 145);
    let add = table.iter().find(|o| o.code == OpCodes::ADD).unwrap();
    assert_eq!(add.input_arguments, 0);
    assert_eq!(add.stack_inputs, 2);
    assert_eq!(add.stack_outputs, 1);
    let push5 = table.iter().find(|o| o.code == OpCodes::PUSH5).unwrap();
    assert_eq!(push5.input_arguments, 5);
    assert_eq!(push5.stack_outputs, 1);
    let swap3 = table.iter().find(|o| o.code == OpCodes::SWAP3).unwrap();
    assert_eq!(swap3.operator_index, 3);
    assert_eq!(swap3.stack_inputs, 4);
    assert_eq!(swap3.stack_outputs, 4);
    assert_eq!(opcode_for(OpCodes::ADD).short_name(), "ADD");
    assert_eq!(OpCodes::from_byte(0x60), Some(OpCodes::PUSH1));
    assert_eq!(OpCodes::from_byte(0x0c), None);
}

#[test]
fn hex_words_render_as_hex_digits() {
    assert_eq!(hex_string(Hex(0x1a2b)), "1a2b");
    assert_eq!(hex_string(Hex(0)), "0");
}

#[test]
fn pop_discards_and_stop_halts() {
    let mut stack = Stack::new();
    stack.push(elem(9));
    let r = step(OpCodes::POP, 0, &mut stack).unwrap();
    assert!(matches!(r, OpCodeResult::Continue));
    assert_eq!(stack.len(), 0);

    let mut stack = Stack::new();
    let r = step(OpCodes::STOP, 0, &mut stack).unwrap();
    assert!(matches!(r, OpCodeResult::End));
    let r = step(OpCodes::REVERT, 0, &mut stack).unwrap();
    assert!(matches!(r, OpCodeResult::End));
}

#[test]
fn jump_event_carries_the_jump_pc() {
    // PUSH1 5; JUMP@2; JUMPDEST@3... the JUMP's own pc is the event's source
    let input = Vec::from([0x60, 0x03, 0x56, 0x5b, 0x00]);
    let parser = Parser::new(input).unwrap();
    let env = Environment::new();
    let sections = evmflow::parser::parse_instruction_set(
        Hex(0),
        parser.get_instructions(),
        None,
        Memory::new(),
        None,
        &env,
    )
    .unwrap();
    let jump = sections.first().unwrap().jump.as_ref().unwrap();
    assert_eq!(jump.source, Hex(2));
}

#[test]
fn jump_pops_its_target() {
    let mut stack = Stack::new();
    stack.push(StackElement { value: Hex(9), origin: Hex(0), size: 1 });
    let r = step(OpCodes::JUMP, 8, &mut stack).unwrap();
    match r {
        OpCodeResult::JumpInstruction(ji) => {
            assert_eq!(ji.target, StackElement { value: Hex(9), origin: Hex(0), size: 1 });
            assert_eq!(ji.source, Hex(8));
            assert!(ji.condition.is_none());
        },
        _ => panic!("JUMP must raise a jump event"),
    }
    assert_eq!(stack.len(), 0);
}
