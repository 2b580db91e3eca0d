use evmflow::calldata::Environment;
use evmflow::hex::Hex;
use evmflow::instruction::Instruction;
use evmflow::memory::{Memory, MemoryElement};
use evmflow::opcode::{opcode_for, OpCodeResult, OpCodes};
use evmflow::stack::{Stack, StackElement};

#[test]
fn pushx_1() {
    let input = Instruction {
        args: Vec::from([Hex(0xff)]),
        opcode: opcode_for(OpCodes::PUSH1),
        index: Hex(0),
    };
    let mut stack = Stack::new();
    let mut memory = Memory::new();
    let mut pc = Hex(0);
    let env = Environment::new();
    match input.parse(&mut stack, &mut pc, &mut memory, &env) {
        Ok(v) => assert!(matches!(v, OpCodeResult::Continue)),
        Err(_) => panic!("parse returned error where none was expected"),
    }
    assert!(stack.len() == 1);
    let elem = stack.pop().unwrap();
    assert_eq!(elem.value, Hex(0xff));
    assert_eq!(elem.size, 1);
    assert_eq!(elem.origin, Hex(0));
    assert_eq!(pc, Hex(1));
}

#[test]
fn pushx_5() {
    let input = Instruction {
        args: Vec::from([Hex(0xff), Hex(0xee), Hex(0xdd), Hex(0xcc), Hex(0xbb)]),
        opcode: opcode_for(OpCodes::PUSH5),
        index: Hex(0),
    };
    let mut stack = Stack::new();
    let mut memory = Memory::new();
    let mut pc = Hex(0);
    let env = Environment::new();
    match input.parse(&mut stack, &mut pc, &mut memory, &env) {
        Ok(v) => assert!(matches!(v, OpCodeResult::Continue)),
        Err(_) => panic!("parse returned error where none was expected"),
    }
    assert!(stack.len() == 1);
    let elem = stack.pop().unwrap();
    assert_eq!(elem.value, Hex(0xffeeddccbb));
    assert_eq!(elem.size, 5);
    assert_eq!(elem.origin, Hex(0));
    assert_eq!(pc, Hex(5));
}

#[test]
fn mstore_basic() {
    let input = Instruction {
        args: Vec::new(),
        opcode: opcode_for(OpCodes::MSTORE),
        index: Hex(2),
    };
    let mut stack = Stack::new();
    stack.push(StackElement { value: Hex(0xabcd), origin: Hex(0), size: 2 });
    stack.push(StackElement { value: Hex(0), origin: Hex(1), size: 1 });
    let mut memory = Memory::new();
    let mut pc = Hex(0);
    let env = Environment::new();
    match input.parse(&mut stack, &mut pc, &mut memory, &env) {
        Ok(v) => assert!(matches!(v, OpCodeResult::Continue)),
        Err(_) => panic!("parse returned error where none was expected"),
    }
    assert!(stack.len() == 0);
    assert_eq!(memory.get_contents().len(), 32);
    assert_eq!(
        memory.get_contents().get(30),
        Some(&MemoryElement { value: Hex(0xab), origin: Some(Hex(0)) })
    );
    assert_eq!(
        memory.get_contents().get(31),
        Some(&MemoryElement { value: Hex(0xcd), origin: Some(Hex(0)) })
    );
}

#[test]
fn multiple_mstores() {
    let first_input = Instruction {
        args: Vec::new(),
        opcode: opcode_for(OpCodes::MSTORE),
        index: Hex(2),
    };
    let second_input = Instruction {
        args: Vec::new(),
        opcode: opcode_for(OpCodes::MSTORE),
        index: Hex(5),
    };
    let mut stack = Stack::new();
    stack.push(StackElement { value: Hex(0x1234), origin: Hex(4), size: 2 });
    stack.push(StackElement { value: Hex(1), origin: Hex(3), size: 1 });
    stack.push(StackElement { value: Hex(0xabcd), origin: Hex(0), size: 2 });
    stack.push(StackElement { value: Hex(0), origin: Hex(1), size: 1 });
    let mut memory = Memory::new();
    let mut pc = Hex(0);
    let env = Environment::new();
    match first_input.parse(&mut stack, &mut pc, &mut memory, &env) {
        Ok(v) => assert!(matches!(v, OpCodeResult::Continue)),
        Err(_) => panic!("parse returned error where none was expected"),
    }
    assert_eq!(
        memory.get_contents().get(31),
        Some(&MemoryElement { value: Hex(0xcd), origin: Some(Hex(0)) })
    );
    match second_input.parse(&mut stack, &mut pc, &mut memory, &env) {
        Ok(v) => assert!(matches!(v, OpCodeResult::Continue)),
        Err(_) => panic!("parse returned error where none was expected"),
    }
    assert!(stack.len() == 0);
    assert_eq!(memory.get_contents().len(), 64);
    assert_eq!(
        memory.get_contents().get(0),
        Some(&MemoryElement { value: Hex(0), origin: Some(Hex(2)) })
    );
    assert_eq!(
        memory.get_contents().get(31),
        Some(&MemoryElement { value: Hex(0x12), origin: Some(Hex(4)) })
    );
    assert_eq!(
        memory.get_contents().get(32),
        Some(&MemoryElement { value: Hex(0x34), origin: Some(Hex(4)) })
    );
}

#[test]
fn dup1() {
    let mut stack = Stack::new();
    stack.push(StackElement { value: Hex(1), origin: Hex(0), size: 1 });
    let input = Instruction {
        args: Vec::new(),
        opcode: opcode_for(OpCodes::DUP1),
        index: Hex(2),
    };
    let mut pc = Hex(0);
    let mut memory = Memory::new();
    let env = Environment::new();
    input.parse(&mut stack, &mut pc, &mut memory, &env).unwrap();
    assert_eq!(stack.len(), 2);
    assert_eq!(stack.get(0), stack.get(1));
}

#[test]
fn dup1_empty_stack() {
    let mut stack = Stack::new();
    let input = Instruction {
        args: Vec::new(),
        opcode: opcode_for(OpCodes::DUP1),
        index: Hex(2),
    };
    let mut pc = Hex(0);
    let mut memory = Memory::new();
    let env = Environment::new();
    assert!(input.parse(&mut stack, &mut pc, &mut memory, &env).is_err());
}

#[test]
fn dup2() {
    let mut stack = Stack::new();
    stack.push(StackElement { value: Hex(2), origin: Hex(1), size: 1 });
    stack.push(StackElement { value: Hex(1), origin: Hex(0), size: 1 });
    let input = Instruction {
        args: Vec::new(),
        opcode: opcode_for(OpCodes::DUP2),
        index: Hex(2),
    };
    let mut pc = Hex(0);
    let mut memory = Memory::new();
    let env = Environment::new();
    input.parse(&mut stack, &mut pc, &mut memory, &env).unwrap();
    assert_eq!(stack.len(), 3);
    assert_eq!(stack.get(0), stack.get(2));
}

#[test]
fn shr() {
    let mut stack = Stack::new();
    stack.push(StackElement { value: Hex(0xf), origin: Hex(1), size: 1 });
    stack.push(StackElement { value: Hex(1), origin: Hex(0), size: 1 });
    let input = Instruction {
        args: Vec::new(),
        opcode: opcode_for(OpCodes::SHR),
        index: Hex(2),
    };
    let mut pc = Hex(0);
    let mut memory = Memory::new();
    let env = Environment::new();
    input.parse(&mut stack, &mut pc, &mut memory, &env).unwrap();
    assert_eq!(stack.len(), 1);
    assert_eq!(stack.get(0).unwrap().value, Hex(0x7));
}

#[test]
fn shr_overflow() {
    let mut stack = Stack::new();
    stack.push(StackElement { value: Hex(0), origin: Hex(0), size: 1 });
    stack.push(StackElement { value: Hex(0xff), origin: Hex(0x1), size: 1 });
    let input = Instruction {
        args: Vec::new(),
        opcode: opcode_for(OpCodes::SHR),
        index: Hex(2),
    };
    let mut pc = Hex(0);
    let mut memory = Memory::new();
    let env = Environment::new();
    input.parse(&mut stack, &mut pc, &mut memory, &env).unwrap();
    assert_eq!(stack.len(), 1);
    assert_eq!(stack.get(0).unwrap().value, Hex(0x0));
}
