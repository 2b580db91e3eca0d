use evmflow::calldata::{parse_callvalue, Environment};
use evmflow::hex::Hex;
use evmflow::memory::Memory;
use evmflow::opcode::OpCodes;
use evmflow::parser::{bytecode_to_instructions, parse_instruction_set, read_bytecode, Parser};
use evmflow::stack::StackElement;

#[test]
fn simple_push() {
    let result = bytecode_to_instructions(&[0x60, 0x80].to_vec()).unwrap();
    assert_eq!(result.len(), 1);
    let instruction = result.get(Hex(0x0)).unwrap();
    assert_eq!(instruction.args.len(), 1);
    assert_eq!(*instruction.args.first().unwrap(), Hex(0x80));
    assert_eq!(instruction.opcode.code, OpCodes::PUSH1);
    assert_eq!(instruction.index, Hex(0x0));
}

#[test]
fn simple_push_no_arg() {
    // a PUSH whose immediate byte is missing is a decode error
    let result = bytecode_to_instructions(&[0x60].to_vec());
    assert!(result.is_err());
}

#[test]
fn instructions_between_jump_target_push_and_jump_instruction() {
    let input = Vec::from([
        0x60, 0x9, // 0x0, 0x1 argument for PUSH1
        0x60, 0x43, // 0x2 push arguments for ADD command
        0x60, 0x48, // 0x4
        0x01, // 0x6 ADD
        0x50, // 0x7 POP
        0x56, // 0x8 JUMP
        0x5b, // 0x9 JUMPDEST
        0x00, // 0xa STOP
    ]);

    let parser = Parser::new(input).unwrap();
    let instruction_sections = parser.get_instruction_sets();
    assert_eq!(instruction_sections.len(), 2);
    let env = Environment::new();
    let first_end = instruction_sections
        .iter()
        .find(|s| s.start == Hex(0))
        .unwrap()
        .end;
    let second_end = instruction_sections
        .iter()
        .find(|s| s.start == Hex(9))
        .unwrap()
        .end;
    let first_instruction_section = parse_instruction_set(
        Hex(0),
        parser.get_instructions(),
        None,
        Memory::new(),
        Some(first_end),
        &env,
    )
    .unwrap();
    let target_instruction_section = parse_instruction_set(
        Hex(9),
        parser.get_instructions(),
        None,
        Memory::new(),
        Some(second_end),
        &env,
    )
    .unwrap();
    let jump_target = &first_instruction_section
        .first()
        .unwrap()
        .jump
        .as_ref()
        .unwrap()
        .target;
    let jump_dest = target_instruction_section.first().unwrap().start;
    assert_eq!(
        jump_target,
        &StackElement { value: jump_dest, origin: Hex(0), size: 1 }
    );
}

#[test]
fn find_related_jumps() {
    let input = Vec::from([
        0x60, 0x3, // jumping to second section
        0x56, // 0x2 JUMP
        0x5b, // 0x3 JUMPDEST
        0x60, 0x7, // 0x4, 0x5
        0x56, // 0x6 JUMP
        0x5b, // 0x7 JUMPDEST
        0x00, // 0x8 STOP
    ]);

    let parser = Parser::new(input).unwrap();
    let instruction_sections = parser.get_instruction_sets();

    assert_eq!(
        instruction_sections.len(),
        3,
        "actual instruction section: {:?}",
        instruction_sections
    );

    // sections whose closing instruction is a JUMP
    let jumps = instruction_sections
        .iter()
        .filter(|s| match parser.get_instructions().get(s.end) {
            Some(ins) => ins.opcode.code == OpCodes::JUMP,
            None => false,
        })
        .count();
    assert_eq!(jumps, 2);
}

// - Jump value pushed in different section
#[test]
fn jump_push_in_other_section2() {
    let input = Vec::from([
        0x60, 0x7, // 0x0, 0x1
        0x60, 0x5, // 0x2, 0x3, jumping to second section
        0x56, // 0x4 JUMP
        0x5b, // 0x5 JUMPDEST
        0x56, // 0x6 JUMP
        0x5b, // 0x7 JUMPDEST
        0x00, // 0x8 STOP
    ]);

    let parser = Parser::new(input).unwrap();
    let instruction_sections = parser.get_instruction_sets();
    assert_eq!(instruction_sections.len(), 3);
}

#[test]
fn jump_push_in_other_section_nested() {
    let input = Vec::from([
        0x60, 0xb, // 0x0, 0x1
        0x60, 0x9, // 0x2, 0x3
        0x60, 0x7, // 0x4, 0x5, jumping to second section
        0x56, // 0x6 JUMP
        0x5b, // 0x7 JUMPDEST
        0x56, // 0x8 JUMP
        0x5b, // 0x9 JUMPDEST
        0x56, // 0xa JUMP
        0x5b, // 0xb JUMPDEST
        0x00, // 0xc STOP
    ]);

    let parser = Parser::new(input).unwrap();
    let instruction_sections = parser.get_instruction_sets();
    assert_eq!(instruction_sections.len(), 4);
}

#[test]
fn jump_push_in_other_section_nested2() {
    // same as jump_push_in_other_section_nested, but in a different sequence
    let input = Vec::from([
        0x60, 0xb, // 0x0, 0x1
        0x60, 0x7, // 0x2, 0x3, jumping to second section
        0x60, 0x9, // 0x4, 0x5
        0x56, // 0x6 JUMP
        0x5b, // 0x7 JUMPDEST
        0x56, // 0x8 JUMP
        0x5b, // 0x9 JUMPDEST
        0x56, // 0xa JUMP
        0x5b, // 0xb JUMPDEST
        0x00, // 0xc STOP
    ]);

    let parser = Parser::new(input).unwrap();
    let instruction_sections = parser.get_instruction_sets();
    assert_eq!(instruction_sections.len(), 4);
}

#[test]
fn conditional_jump() {
    let input = Vec::from([
        0x60, 0x2, // 0x0, 0x1
        0x60, 0x1, // 0x2, 0x3
        0x57, // 0x4 JUMPI
        0x56, // 0x5 JUMP
        0x5b, // 0x6 JUMPDEST
        0x00, // 0x7 STOP
        0x5b, // 0x8 JUMPDEST
        0x00, // 0x9 STOP
    ]);
    let parser = Parser::new(input).unwrap();
    let instruction_sets = parser.get_instruction_sets();
    assert_eq!(instruction_sets.len(), 3);
}

#[test]
fn read_valid_bytecode() {
    let bytes: &'static [u8] = b"\
608060405234801561001057600080fd5b50600436106100365760003560e\
01c80636057361d1461003b5780638f88708b14610057575b600080fd5b61\
005560048036038101906100509190610115565b610087565b005b6100716\
00480360381019061006c9190610115565b610094565b60405161007e9190\
610151565b60405180910390f35b610090816100b3565b5050565b6000610\
09f826100b3565b6002546100ac919061019b565b9050919050565b600081\
6002546100c391906101cf565b60028190555081600181905550600154905\
0919050565b600080fd5b6000819050919050565b6100f2816100df565b81\
146100fd57600080fd5b50565b60008135905061010f816100e9565b92915\
050565b60006020828403121561012b5761012a6100da565b5b6000610139\
84828501610100565b91505092915050565b61014b816100df565b8252505\
0565b60006020820190506101666000830184610142565b92915050565b7f\
4e487b7100000000000000000000000000000000000000000000000000000\
000600052601160045260246000fd5b60006101a6826100df565b91506101\
b1836100df565b92508282039050818111156101c9576101c861016c565b5\
b92915050565b60006101da826100df565b91506101e5836100df565b9250\
8282019050808211156101fd576101fc61016c565b5b9291505056fea2646\
9706673582212206471fae051fe349afbc0803628e924a4d57b36e4067d38\
265220429afd34242d64736f6c63430008130033\
";
    let cursor = String::from_utf8(bytes.to_vec()).unwrap();
    let bytecode = read_bytecode(cursor).expect("Could not parse input");
    assert_eq!(96, *bytecode.first().unwrap());
    assert_eq!(51, *bytecode.last().unwrap());

    let bytes: &'static [u8] = b"11";
    let cursor = String::from_utf8(bytes.to_vec()).unwrap();
    let bytecode = read_bytecode(cursor).expect("Could not parse input");
    assert_eq!(17, *bytecode.first().unwrap());
    assert_eq!(17, *bytecode.last().unwrap());
}

#[test]
fn invalid_input_space() {
    let input = "Hello world!";
    let cursor = input.to_string();
    let result = read_bytecode(cursor);
    assert!(result.is_none());
}

#[test]
fn invalid_input_no_hex() {
    let input = "Helloworld".to_string();
    let result = read_bytecode(input);
    assert!(result.is_none());
}

#[test]
fn empty_input() {
    let input = "".to_string();
    let result = read_bytecode(input);
    assert!(result.is_none());
}

#[test]
fn test_input_callarg() {
    let callvalue = parse_callvalue("123").unwrap();
    assert_eq!(callvalue.value, Hex(0x7b));
    assert_eq!(callvalue.size, 1);

    let callvalue = parse_callvalue("256").unwrap();
    assert_eq!(callvalue.value, Hex(0x0100));
    assert_eq!(callvalue.size, 2);

    // an empty call value is rejected
    assert!(parse_callvalue("").is_err());
}
