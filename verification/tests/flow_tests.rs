use evmflow::calldata::Environment;
use evmflow::errors::EvmError;
use evmflow::flow_parser::FlowParser;
use evmflow::hex::Hex;
use evmflow::parser::Parser;

#[test]
fn parse_simple_flow() {
    let input = Vec::from([
        0x60, 0xb, // 0x0, 0x1
        0x60, 0x9, // 0x2, 0x3
        0x60, 0x7, // 0x4, 0x5, jumping to second section
        0x56, // 0x6 JUMP
        0x5b, // 0x7 JUMPDEST
        0x56, // 0x8 JUMP
        0x5b, // 0x9 JUMPDEST
        0x56, // 0xa JUMP
        0x5b, // 0xb JUMPDEST
        0x00, // 0xc STOP
    ]);

    let parser = Parser::new(input).unwrap();
    let instruction_sets = parser.get_instruction_sets();
    let instructions = parser.get_instructions();
    assert_eq!(instruction_sets.len(), 4);

    let mut flow_parser = FlowParser::new(instructions);
    let env = Environment::new();
    flow_parser.parse_flows(&env);
    let flows = flow_parser.flows();
    assert_eq!(flows.len(), 1);
}

#[test]
fn break_into_simple_instruction_sections() {
    let input: Vec<u32> = Vec::from([
        0x60, 0x3, // 0x0, 0x1 argument for PUSH1
        0x56, // 0x2 JUMP
        0x5b, // 0x3 JUMPDEST
        0x00, // 0x4 STOP
    ]);

    let parser = Parser::new(input).unwrap();
    let instruction_sets = parser.get_instruction_sets();
    let instructions = parser.get_instructions();
    // we have two sections; one before the jump and one after the jump. From JUMPDEST to STOP.
    assert_eq!(instruction_sets.len(), 2);
    let mut flow_parser = FlowParser::new(instructions);
    let env = Environment::new();
    flow_parser.parse_flows(&env);

    let flow = flow_parser.flows();
    assert_eq!(flow.len(), 1);
}

#[test]
fn parse_conditional_flow() {
    let input = Vec::from([
        0x60, 0xe, // 0x0, 0x1
        0x60, 0xc, // 0x2, 0x3
        0x60, 0x1, // 0x4, 0x5
        0x60, 0xa, // 0x6, 0x7
        0x57, // 0x8 JUMPI
        0x56, // 0x9 JUMP
        0x5b, // 0xa JUMPDEST
        0x56, // 0xb JUMP
        0x5b, // 0xc JUMPDEST
        0x56, // 0xd JUMP
        0x5b, // 0xe JUMPDEST
        0x00, // 0xf STOP
    ]);
    let parser = Parser::new(input).unwrap();
    let instructions = parser.get_instructions();
    let instruction_sets = parser.get_instruction_sets();
    assert_eq!(instruction_sets.len(), 4, "{:?}", instruction_sets);
    let mut flow_parser = FlowParser::new(instructions);
    let env = Environment::new();
    flow_parser.parse_flows(&env);
    let flows = flow_parser.flows();
    println!("flows: {:?}", flows);
    for flow in flows.iter() {
        println!("{}", flow.print());
    }
    assert_eq!(flows.len(), 2);
}

#[test]
fn real_flow() {
    let input = Vec::from([
        0x60, 0x40, // 0x0, 0x1
        0x60, 0x60, // 0x2, 0x3
        0x52, // 0x4 MSTORE
        0x34, // 0x5 CALLVALUE
        0x80, // 0x6 DUP1
        0x15, // 0x7 ISZERO
        0x61, 0x00, 0x10, // 0x8 PUSH2 0010
        0x57, // 0xb JUMPI
        0x60, 0x00, // 0xc PUSH1 00
        0x80, // 0xe DUP1
        0xfd, // 0xf REVERT
        0x5b, // 0x10 JUMPDEST
        0xfd, // 0x11 REVERT
    ]);

    let parser = Parser::new(input).unwrap();
    let instruction_sets = parser.get_instruction_sets();
    let instructions = parser.get_instructions();
    assert_eq!(instruction_sets.len(), 2);

    let mut flow_parser = FlowParser::new(instructions);
    let env = Environment::new();
    flow_parser.parse_flows(&env);
    let flows = flow_parser.flows();
    assert_eq!(flows.len(), 2);
}

#[test]
fn linear_chain_explores_one_flow_of_three_blocks() {
    // PUSH1 7; PUSH1 5; JUMP; JUMPDEST@5; JUMP; JUMPDEST@7; STOP
    let input = Vec::from([0x60, 0x07, 0x60, 0x05, 0x56, 0x5b, 0x56, 0x5b, 0x00]);
    let parser = Parser::new(input).unwrap();
    let mut flow_parser = FlowParser::new(parser.get_instructions());
    let env = Environment::new();
    flow_parser.parse_flows(&env);
    let flows = flow_parser.flows();
    assert_eq!(flows.len(), 1);
    assert_eq!(flows[0].len(), 3);
    // the flow is complete: no unexpanded jump target is left
    assert!(flows[0].get_last_step().is_none());
}

#[test]
fn one_jumpi_explores_two_flows() {
    // PUSH1 1; PUSH1 6; JUMPI; STOP; JUMPDEST@6; STOP
    let input = Vec::from([0x60, 0x01, 0x60, 0x06, 0x57, 0x00, 0x5b, 0x00]);
    let parser = Parser::new(input).unwrap();
    let mut flow_parser = FlowParser::new(parser.get_instructions());
    let env = Environment::new();
    flow_parser.parse_flows(&env);
    let flows = flow_parser.flows();
    assert_eq!(flows.len(), 2);
    // each explored flow ends without a frontier
    for flow in flows.iter() {
        assert!(flow.get_last_step().is_none());
    }
}

#[test]
fn malformed_jump_target_drops_the_branch_with_a_record() {
    // PUSH1 5; JUMP jumps to a STOP, not a JUMPDEST: the branch is dropped
    // and an error record names the jump and its target
    let input = Vec::from([0x60, 0x05, 0x56, 0x00, 0x00, 0x00]);
    let parser = Parser::new(input).unwrap();
    let mut flow_parser = FlowParser::new(parser.get_instructions());
    let env = Environment::new();
    flow_parser.parse_flows(&env);
    assert_eq!(flow_parser.flows().len(), 0);
    assert_eq!(flow_parser.errors().len(), 1);
    assert_eq!(
        flow_parser.errors()[0],
        EvmError::MalformedJumpTarget { pc: Hex(2), target: Hex(5) }
    );
}

#[test]
fn flow_print_renders_the_chain() {
    let input = Vec::from([0x60, 0x03, 0x56, 0x5b, 0x00]);
    let parser = Parser::new(input).unwrap();
    let mut flow_parser = FlowParser::new(parser.get_instructions());
    let env = Environment::new();
    flow_parser.parse_flows(&env);
    let flows = flow_parser.flows();
    assert_eq!(flows.len(), 1);
    let rendering = flows[0].print();
    assert!(rendering.contains("END"));
}
