//! Decoded instructions and the interpreter: the per-opcode effect on the
//! symbolic stack, memory and program counter.

use vstd::prelude::*;
use crate::hex::Hex;
use crate::opcode::{OpCode, OpCodes, spec_opcode};
use crate::stack::{Stack, StackElement};
use crate::calldata::{Environment, window_ok, window_val};
use crate::errors::EvmError;
use crate::hex::{word_mod, word_append_byte};
use crate::memory::{Memory, MemoryElement, mstore_spec, grow_to_spec, load_word, load_origin};
use crate::opcode::{
    OpCodeResult, spec_is_push, spec_dup_depth, spec_swap_depth,
};
use vstd::arithmetic::power2::pow2;

verus! {

/// A bound every decoded program counter stays far below: offsets into
/// bytecode fit in a machine word, so they are tiny next to 2^64.
pub open spec fn pc_bound() -> int {
    0x10000000000000000int
}

/// One decoded instruction: the offset of its opcode byte, the opcode's
/// metadata row, and its immediate bytes.
#[derive(Debug)]
pub struct Instruction {
    pub args: Vec<Hex>,
    pub opcode: OpCode,
    pub index: Hex,
}

impl Clone for Instruction {
    fn clone(&self) -> (r: Instruction)
        ensures
            r.args@ == self.args@,
            r.opcode == self.opcode,
            r.index == self.index,
    {
        let mut args: Vec<Hex> = Vec::new();
        let mut i: usize = 0;
        while i < self.args.len()
            invariant
                i <= self.args@.len(),
                args@ == self.args@.take(i as int),
            decreases self.args@.len() - i,
        {
            args.push(self.args[i]);
            proof {
                assert(self.args@.take(i + 1) == self.args@.take(i as int).push(self.args@[i as int]));
            }
            i = i + 1;
        }
        proof {
            assert(self.args@.take(self.args@.len() as int) == self.args@);
        }
        Instruction { args, opcode: self.opcode, index: self.index }
    }
}

impl Instruction {
    /// A decoded instruction carries its canonical metadata row, exactly the
    /// immediate bytes the row asks for, each a byte, at an offset that fits
    /// a machine word.
    pub open spec fn wf(self) -> bool {
        &&& self.opcode == spec_opcode(self.opcode.code)
        &&& self.args@.len() == self.opcode.input_arguments
        &&& forall|i: int| 0 <= i < self.args@.len() ==> (#[trigger] self.args@[i]).0 < 256
        &&& self.index.0 + 40 < pc_bound()
    }
}

/// A decoded instruction together with the argument a rewrite consumed; kept
/// for callers that annotate instructions.
#[derive(Debug)]
pub struct ParsedInstruction {
    pub instruction: Instruction,
    pub used_arg: Option<Hex>,
}

/// Whether a jump event forks.
#[derive(Clone, Copy, PartialEq, Eq, Structural, Debug)]
pub enum JumpType {
    Conditional,
    Unconditional,
}

/// A jump event: the instruction that jumped, the resolved target element,
/// the popped condition for a conditional jump, and the program counter the
/// event was raised from.
#[derive(Debug)]
pub struct JumpInstruction {
    pub instruction: Instruction,
    pub jump_type: JumpType,
    pub target: StackElement,
    pub source: Hex,
    pub condition: Option<StackElement>,
}

impl Clone for JumpInstruction {
    fn clone(&self) -> (r: JumpInstruction)
        ensures
            r.instruction.args@ == self.instruction.args@,
            r.instruction.opcode == self.instruction.opcode,
            r.instruction.index == self.instruction.index,
            r.jump_type == self.jump_type,
            r.target == self.target,
            r.source == self.source,
            r.condition == self.condition,
    {
        JumpInstruction {
            instruction: self.instruction.clone(),
            jump_type: self.jump_type,
            target: self.target,
            source: self.source,
            condition: self.condition,
        }
    }
}

/// A pre-symbolic basic block: the offsets of its first and last
/// instructions. The jump and stack fields are filled by a symbolic run, not
/// by the linear scan.
#[derive(Debug)]
pub struct InstructionSet {
    pub start: Hex,
    pub end: Hex,
    pub jump: Option<JumpInstruction>,
    pub stack: Stack,
}



/// Every element of a well-formed stack has a legal width.
pub open spec fn stack_wf(s: Seq<StackElement>) -> bool {
    forall|i: int| 0 <= i < s.len() ==> (#[trigger] s[i]).wf()
}

/// A well-formed environment holds a well-formed call value, if any.
pub open spec fn env_wf(env: Environment) -> bool {
    env.callvalue matches Some(cv) ==> cv.wf()
}

/// The big-endian word the immediate bytes of a PUSH stand for, wrapping at
/// the word width: the first `n` of them.
pub open spec fn args_word_rec(args: Seq<Hex>, n: nat) -> int
    decreases n,
{
    if n == 0 {
        0
    } else {
        (args_word_rec(args, (n - 1) as nat) * 256 + args[n - 1].0) % word_mod()
    }
}

/// The big-endian word the immediate bytes of a PUSH stand for.
pub open spec fn args_word(args: Seq<Hex>) -> int {
    args_word_rec(args, args.len())
}

/// Signed comparison at the word width: the sign is the top bit.
pub open spec fn spec_slt(a: u128, b: u128) -> bool {
    let an = a >= 0x80000000000000000000000000000000u128;
    let bn = b >= 0x80000000000000000000000000000000u128;
    if an != bn {
        an
    } else {
        a < b
    }
}

/// The opcodes that pop two words and push one result of width one.
pub open spec fn spec_is_binop(c: OpCodes) -> bool {
    match c {
        OpCodes::ADD | OpCodes::SUB | OpCodes::MUL | OpCodes::LT | OpCodes::SLT | OpCodes::EQ
            | OpCodes::SHL | OpCodes::SHR => true,
        _ => false,
    }
}

/// The value a two-operand opcode pushes: `a` is the first word popped, `b`
/// the second.
pub open spec fn binop_value(c: OpCodes, a: Hex, b: Hex) -> Hex {
    match c {
        OpCodes::ADD => Hex(((a.0 + b.0) % word_mod()) as u128),
        OpCodes::SUB => Hex(((a.0 - b.0) % word_mod()) as u128),
        OpCodes::MUL => Hex(((a.0 * b.0) % word_mod()) as u128),
        OpCodes::LT => if a.0 < b.0 { Hex(1) } else { Hex(0) },
        OpCodes::SLT => if spec_slt(a.0, b.0) { Hex(1) } else { Hex(0) },
        OpCodes::EQ => if a.0 == b.0 { Hex(1) } else { Hex(0) },
        OpCodes::SHL => if a.0 >= 128 {
            Hex(0)
        } else {
            Hex(((b.0 * pow2(a.0 as nat)) % word_mod()) as u128)
        },
        OpCodes::SHR => if a.0 >= 128 {
            Hex(0)
        } else {
            Hex((b.0 as int / pow2(a.0 as nat) as int) as u128)
        },
        _ => Hex(0),
    }
}

/// What kind of outcome one interpreter step has.
pub enum StepKind {
    Continue,
    Jump { target: StackElement, source: Hex },
    JumpI { target: StackElement, condition: StackElement, source: Hex },
    End,
    Fail { error: EvmError },
}

/// The complete model of one interpreter step: the stack, program counter
/// and memory after it, and its outcome.
pub struct StepModel {
    pub stack: Seq<StackElement>,
    pub pc: u128,
    pub mem: Seq<MemoryElement>,
    pub kind: StepKind,
}

/// The effect of one instruction on the symbolic machine: what the
/// interpreter's `parse` leaves behind, for every opcode it models.
pub open spec fn spec_step(
    ins: Instruction,
    s: Seq<StackElement>,
    pc: u128,
    mem: Seq<MemoryElement>,
    env: Environment,
) -> StepModel {
    let code = ins.opcode.code;
    let idx = ins.index;
    let underflow = StepKind::Fail { error: EvmError::StackUnderflow { pc: idx } };
    if spec_is_binop(code) {
        if s.len() >= 2 {
            StepModel {
                stack: s.drop_last().drop_last().push(
                    StackElement { value: binop_value(code, s.last().value, s[s.len() - 2].value), origin: idx, size: 1usize },
                ),
                pc,
                mem,
                kind: StepKind::Continue,
            }
        } else {
            StepModel { stack: Seq::empty(), pc, mem, kind: underflow }
        }
    } else if spec_is_push(code) {
        StepModel {
            stack: s.push(
                StackElement {
                    value: Hex(args_word(ins.args@) as u128),
                    origin: idx,
                    size: ins.args@.len() as usize,
                },
            ),
            pc: (pc + ins.args@.len()) as u128,
            mem,
            kind: StepKind::Continue,
        }
    } else if spec_dup_depth(code) >= 1 {
        let n = spec_dup_depth(code);
        if s.len() >= n {
            StepModel { stack: s.push(s[s.len() - n]), pc, mem, kind: StepKind::Continue }
        } else {
            StepModel { stack: s, pc, mem, kind: underflow }
        }
    } else if spec_swap_depth(code) >= 1 {
        let n = spec_swap_depth(code);
        if s.len() >= n + 1 {
            StepModel {
                stack: s.update(s.len() - n - 1, s[s.len() - 1]).update(s.len() - 1, s[s.len() - n - 1]),
                pc,
                mem,
                kind: StepKind::Continue,
            }
        } else {
            StepModel { stack: s, pc, mem, kind: underflow }
        }
    } else {
        match code {
            OpCodes::ISZERO => if s.len() >= 1 {
                StepModel {
                    stack: s.drop_last().push(
                        StackElement {
                            value: if s.last().value.0 == 0 { Hex(1) } else { Hex(0) },
                            origin: idx,
                            size: 1usize,
                        },
                    ),
                    pc,
                    mem,
                    kind: StepKind::Continue,
                }
            } else {
                StepModel { stack: s, pc, mem, kind: underflow }
            },
            OpCodes::POP => if s.len() >= 1 {
                StepModel { stack: s.drop_last(), pc, mem, kind: StepKind::Continue }
            } else {
                StepModel { stack: s, pc, mem, kind: underflow }
            },
            OpCodes::JUMPDEST => StepModel { stack: s, pc, mem, kind: StepKind::Continue },
            OpCodes::STOP | OpCodes::RETURN | OpCodes::REVERT | OpCodes::INVALID
                | OpCodes::SELFDESTRUCT => StepModel { stack: s, pc, mem, kind: StepKind::End },
            OpCodes::JUMP => if s.len() >= 1 {
                StepModel {
                    stack: s.drop_last(),
                    pc,
                    mem,
                    kind: StepKind::Jump { target: s.last(), source: idx },
                }
            } else {
                StepModel { stack: s, pc, mem, kind: underflow }
            },
            OpCodes::JUMPI => if s.len() >= 2 {
                StepModel {
                    stack: s.drop_last().drop_last(),
                    pc,
                    mem,
                    kind: StepKind::JumpI {
                        target: s.last(),
                        condition: s[s.len() - 2],
                        source: idx,
                    },
                }
            } else {
                StepModel { stack: Seq::empty(), pc, mem, kind: underflow }
            },
            OpCodes::SLOAD => if s.len() >= 1 {
                StepModel {
                    stack: s.drop_last().push(StackElement { value: Hex(0), origin: idx, size: 1usize }),
                    pc,
                    mem,
                    kind: StepKind::Continue,
                }
            } else {
                StepModel { stack: s, pc, mem, kind: underflow }
            },
            OpCodes::MSTORE => if s.len() >= 2 {
                let off = s.last();
                let val = s[s.len() - 2];
                if off.value.0 > usize::MAX - 64 {
                    StepModel {
                        stack: s.drop_last().drop_last(),
                        pc,
                        mem,
                        kind: StepKind::Fail { error: EvmError::MemoryOutOfRange { pc: idx } },
                    }
                } else {
                    StepModel {
                        stack: s.drop_last().drop_last(),
                        pc,
                        mem: mstore_spec(mem, val, off.value.0 as int, idx),
                        kind: StepKind::Continue,
                    }
                }
            } else {
                StepModel { stack: Seq::empty(), pc, mem, kind: underflow }
            },
            OpCodes::MLOAD => if s.len() >= 1 {
                let off = s.last();
                if off.value.0 > usize::MAX - 64 {
                    StepModel {
                        stack: s.drop_last(),
                        pc,
                        mem,
                        kind: StepKind::Fail { error: EvmError::MemoryOutOfRange { pc: idx } },
                    }
                } else {
                    let g = grow_to_spec(mem, off.value.0 + 32);
                    let lo = load_origin(g, off.value.0 as int, 32);
                    StepModel {
                        stack: s.drop_last().push(
                            StackElement {
                                value: Hex(load_word(g, off.value.0 as int, 32) as u128),
                                origin: if lo is Some { lo->0 } else { idx },
                                size: 32usize,
                            },
                        ),
                        pc,
                        mem: g,
                        kind: StepKind::Continue,
                    }
                }
            } else {
                StepModel { stack: s, pc, mem, kind: underflow }
            },
            OpCodes::CALLDATALOAD => if s.len() >= 1 {
                let off = s.last();
                match env.calldata {
                    Some(cd) => if off.value.0 > usize::MAX {
                        StepModel {
                            stack: s.drop_last().push(
                                StackElement { value: Hex(0), origin: Hex(0), size: 32usize },
                            ),
                            pc,
                            mem,
                            kind: StepKind::Continue,
                        }
                    } else if window_ok(cd@, off.value.0 as int) {
                        StepModel {
                            stack: s.drop_last().push(
                                StackElement {
                                    value: Hex(window_val(cd@, 2 * (off.value.0 as int), 64) as u128),
                                    origin: Hex(0),
                                    size: 32usize,
                                },
                            ),
                            pc,
                            mem,
                            kind: StepKind::Continue,
                        }
                    } else {
                        StepModel {
                            stack: s.drop_last(),
                            pc,
                            mem,
                            kind: StepKind::Fail { error: EvmError::Input },
                        }
                    },
                    None => StepModel {
                        stack: s.drop_last().push(StackElement { value: Hex(0), origin: idx, size: 1usize }),
                        pc,
                        mem,
                        kind: StepKind::Continue,
                    },
                }
            } else {
                StepModel { stack: s, pc, mem, kind: underflow }
            },
            OpCodes::CALLDATASIZE => match env.calldata {
                Some(cd) => StepModel {
                    stack: s.push(
                        StackElement { value: Hex((cd@.len() / 2) as u128), origin: Hex(0), size: 1usize },
                    ),
                    pc,
                    mem,
                    kind: StepKind::Continue,
                },
                None => StepModel {
                    stack: s.push(StackElement { value: Hex(0), origin: idx, size: 1usize }),
                    pc,
                    mem,
                    kind: StepKind::Continue,
                },
            },
            OpCodes::CALLVALUE => match env.callvalue {
                Some(cv) => StepModel {
                    stack: s.push(StackElement { value: cv.value, origin: idx, size: cv.size }),
                    pc,
                    mem,
                    kind: StepKind::Continue,
                },
                None => StepModel {
                    stack: s.push(StackElement { value: Hex(0), origin: idx, size: 1usize }),
                    pc,
                    mem,
                    kind: StepKind::Continue,
                },
            },
            _ => StepModel {
                stack: s,
                pc,
                mem,
                kind: StepKind::Fail {
                    error: EvmError::Unsupported { pc: idx, opcode: code },
                },
            },
        }
    }
}

/// Whether the executable outcome `r` realizes the modeled outcome `k` of a
/// step of `ins`: jump events carry the instruction itself, the popped
/// target and condition, and the raising program counter.
pub open spec fn step_result_matches(
    r: Result<OpCodeResult, EvmError>,
    k: StepKind,
    ins: Instruction,
) -> bool {
    match k {
        StepKind::Continue => r matches Ok(OpCodeResult::Continue),
        StepKind::End => r matches Ok(OpCodeResult::End),
        StepKind::Jump { target, source } => r matches Ok(OpCodeResult::JumpInstruction(ji))
            && ji_matches(ji, ins, JumpType::Unconditional, target, None, source),
        StepKind::JumpI { target, condition, source } => r matches Ok(
            OpCodeResult::ConditionalJumpInstruction(ji),
        ) && ji_matches(ji, ins, JumpType::Conditional, target, Some(condition), source),
        StepKind::Fail { error } => r == Err::<OpCodeResult, EvmError>(error),
    }
}

/// Whether a jump event record carries exactly the given pieces.
pub open spec fn ji_matches(
    ji: JumpInstruction,
    ins: Instruction,
    jt: JumpType,
    target: StackElement,
    condition: Option<StackElement>,
    source: Hex,
) -> bool {
    &&& ji.jump_type == jt
    &&& ji.target == target
    &&& ji.condition == condition
    &&& ji.source == source
    &&& ji.instruction.index == ins.index
    &&& ji.instruction.opcode == ins.opcode
    &&& ji.instruction.args@ == ins.args@
}


impl Instruction {
    /// Halts the machine: the stack is left as it stands.
    fn stop(&self, _stack: &mut Stack) -> (r: Result<OpCodeResult, EvmError>)
        ensures
            final(_stack)@ == old(_stack)@,
            r matches Ok(OpCodeResult::End),
    {
        Ok(OpCodeResult::End)
    }

    /// Discards the top element; underflows on an empty stack.
    fn pop(&self, stack: &mut Stack) -> (r: Result<OpCodeResult, EvmError>)
        ensures
            old(stack)@.len() >= 1 ==> (r matches Ok(OpCodeResult::Continue)) && final(stack)@
                == old(stack)@.drop_last(),
            old(stack)@.len() == 0 ==> r == Err::<OpCodeResult, EvmError>(
                EvmError::StackUnderflow { pc: self.index },
            ) && final(stack)@ == old(stack)@,
    {
        match stack.pop() {
            Some(_) => Ok(OpCodeResult::Continue),
            None => Err(EvmError::StackUnderflow { pc: self.index }),
        }
    }


    /// Adds the two top words, wrapping at the word width.
    fn add(&self, stack: &mut Stack) -> (r: Result<OpCodeResult, EvmError>)
        ensures
            old(stack)@.len() >= 2 ==> (r matches Ok(OpCodeResult::Continue)) && final(stack)@
                == old(stack)@.drop_last().drop_last().push(StackElement {
                    value: binop_value(OpCodes::ADD, old(stack)@.last().value, old(stack)@[old(stack)@.len() - 2].value),
                    origin: self.index,
                    size: 1usize,
                }),
            old(stack)@.len() < 2 ==> r == Err::<OpCodeResult, EvmError>(
                EvmError::StackUnderflow { pc: self.index },
            ) && final(stack)@ == Seq::<StackElement>::empty(),
    {
        let left = match stack.pop() {
            Some(v) => v,
            None => { return Err(EvmError::StackUnderflow { pc: self.index }); },
        };
        let right = match stack.pop() {
            Some(v) => v,
            None => { return Err(EvmError::StackUnderflow { pc: self.index }); },
        };
        stack.push(StackElement { value: left.value.wrapping_add(right.value), origin: self.index, size: 1 });
        Ok(OpCodeResult::Continue)
    }


    /// Subtracts the second word from the top word, wrapping at the word width.
    fn sub(&self, stack: &mut Stack) -> (r: Result<OpCodeResult, EvmError>)
        ensures
            old(stack)@.len() >= 2 ==> (r matches Ok(OpCodeResult::Continue)) && final(stack)@
                == old(stack)@.drop_last().drop_last().push(StackElement {
                    value: binop_value(OpCodes::SUB, old(stack)@.last().value, old(stack)@[old(stack)@.len() - 2].value),
                    origin: self.index,
                    size: 1usize,
                }),
            old(stack)@.len() < 2 ==> r == Err::<OpCodeResult, EvmError>(
                EvmError::StackUnderflow { pc: self.index },
            ) && final(stack)@ == Seq::<StackElement>::empty(),
    {
        let left = match stack.pop() {
            Some(v) => v,
            None => { return Err(EvmError::StackUnderflow { pc: self.index }); },
        };
        let right = match stack.pop() {
            Some(v) => v,
            None => { return Err(EvmError::StackUnderflow { pc: self.index }); },
        };
        stack.push(StackElement { value: left.value.wrapping_sub(right.value), origin: self.index, size: 1 });
        Ok(OpCodeResult::Continue)
    }


    /// Multiplies the two top words, wrapping at the word width.
    fn mul(&self, stack: &mut Stack) -> (r: Result<OpCodeResult, EvmError>)
        ensures
            old(stack)@.len() >= 2 ==> (r matches Ok(OpCodeResult::Continue)) && final(stack)@
                == old(stack)@.drop_last().drop_last().push(StackElement {
                    value: binop_value(OpCodes::MUL, old(stack)@.last().value, old(stack)@[old(stack)@.len() - 2].value),
                    origin: self.index,
                    size: 1usize,
                }),
            old(stack)@.len() < 2 ==> r == Err::<OpCodeResult, EvmError>(
                EvmError::StackUnderflow { pc: self.index },
            ) && final(stack)@ == Seq::<StackElement>::empty(),
    {
        let left = match stack.pop() {
            Some(v) => v,
            None => { return Err(EvmError::StackUnderflow { pc: self.index }); },
        };
        let right = match stack.pop() {
            Some(v) => v,
            None => { return Err(EvmError::StackUnderflow { pc: self.index }); },
        };
        stack.push(StackElement { value: left.value.wrapping_mul(right.value), origin: self.index, size: 1 });
        Ok(OpCodeResult::Continue)
    }


    /// Unsigned comparison: pushes one when the first popped word is below the second.
    fn lt(&self, stack: &mut Stack) -> (r: Result<OpCodeResult, EvmError>)
        ensures
            old(stack)@.len() >= 2 ==> (r matches Ok(OpCodeResult::Continue)) && final(stack)@
                == old(stack)@.drop_last().drop_last().push(StackElement {
                    value: binop_value(OpCodes::LT, old(stack)@.last().value, old(stack)@[old(stack)@.len() - 2].value),
                    origin: self.index,
                    size: 1usize,
                }),
            old(stack)@.len() < 2 ==> r == Err::<OpCodeResult, EvmError>(
                EvmError::StackUnderflow { pc: self.index },
            ) && final(stack)@ == Seq::<StackElement>::empty(),
    {
        let left = match stack.pop() {
            Some(v) => v,
            None => { return Err(EvmError::StackUnderflow { pc: self.index }); },
        };
        let right = match stack.pop() {
            Some(v) => v,
            None => { return Err(EvmError::StackUnderflow { pc: self.index }); },
        };
        let value = if left.value.0 < right.value.0 { Hex(1) } else { Hex(0) };
        stack.push(StackElement { value, origin: self.index, size: 1 });
        Ok(OpCodeResult::Continue)
    }


    /// Pushes one when the two top words are equal.
    fn eq(&self, stack: &mut Stack) -> (r: Result<OpCodeResult, EvmError>)
        ensures
            old(stack)@.len() >= 2 ==> (r matches Ok(OpCodeResult::Continue)) && final(stack)@
                == old(stack)@.drop_last().drop_last().push(StackElement {
                    value: binop_value(OpCodes::EQ, old(stack)@.last().value, old(stack)@[old(stack)@.len() - 2].value),
                    origin: self.index,
                    size: 1usize,
                }),
            old(stack)@.len() < 2 ==> r == Err::<OpCodeResult, EvmError>(
                EvmError::StackUnderflow { pc: self.index },
            ) && final(stack)@ == Seq::<StackElement>::empty(),
    {
        let left = match stack.pop() {
            Some(v) => v,
            None => { return Err(EvmError::StackUnderflow { pc: self.index }); },
        };
        let right = match stack.pop() {
            Some(v) => v,
            None => { return Err(EvmError::StackUnderflow { pc: self.index }); },
        };
        let value = if left.value.0 == right.value.0 { Hex(1) } else { Hex(0) };
        stack.push(StackElement { value, origin: self.index, size: 1 });
        Ok(OpCodeResult::Continue)
    }


    /// Signed comparison at the word width: the top bit is the sign.
    fn slt(&self, stack: &mut Stack) -> (r: Result<OpCodeResult, EvmError>)
        ensures
            old(stack)@.len() >= 2 ==> (r matches Ok(OpCodeResult::Continue)) && final(stack)@
                == old(stack)@.drop_last().drop_last().push(StackElement {
                    value: binop_value(OpCodes::SLT, old(stack)@.last().value, old(stack)@[old(stack)@.len() - 2].value),
                    origin: self.index,
                    size: 1usize,
                }),
            old(stack)@.len() < 2 ==> r == Err::<OpCodeResult, EvmError>(
                EvmError::StackUnderflow { pc: self.index },
            ) && final(stack)@ == Seq::<StackElement>::empty(),
    {
        let left = match stack.pop() {
            Some(v) => v,
            None => { return Err(EvmError::StackUnderflow { pc: self.index }); },
        };
        let right = match stack.pop() {
            Some(v) => v,
            None => { return Err(EvmError::StackUnderflow { pc: self.index }); },
        };
        let ln = left.value.0 >= 0x80000000000000000000000000000000u128;
        let rn = right.value.0 >= 0x80000000000000000000000000000000u128;
        let below = if ln != rn { ln } else { left.value.0 < right.value.0 };
        let value = if below { Hex(1) } else { Hex(0) };
        stack.push(StackElement { value, origin: self.index, size: 1 });
        Ok(OpCodeResult::Continue)
    }

    /// Logical shift left: the first popped word is the shift amount, the
    /// second the value; a shift of the word width or more yields zero.
    fn shl(&self, stack: &mut Stack) -> (r: Result<OpCodeResult, EvmError>)
        ensures
            old(stack)@.len() >= 2 ==> (r matches Ok(OpCodeResult::Continue)) && final(stack)@
                == old(stack)@.drop_last().drop_last().push(StackElement {
                    value: binop_value(OpCodes::SHL, old(stack)@.last().value, old(stack)@[old(stack)@.len() - 2].value),
                    origin: self.index,
                    size: 1usize,
                }),
            old(stack)@.len() < 2 ==> r == Err::<OpCodeResult, EvmError>(
                EvmError::StackUnderflow { pc: self.index },
            ) && final(stack)@ == Seq::<StackElement>::empty(),
    {
        let shift = match stack.pop() {
            Some(v) => v,
            None => { return Err(EvmError::StackUnderflow { pc: self.index }); },
        };
        let value = match stack.pop() {
            Some(v) => v,
            None => { return Err(EvmError::StackUnderflow { pc: self.index }); },
        };
        stack.push(StackElement {
            value: value.value.shl(shift.value),
            origin: self.index,
            size: 1,
        });
        Ok(OpCodeResult::Continue)
    }

    /// Logical shift right: the first popped word is the shift amount, the
    /// second the value; a shift of the word width or more yields zero.
    fn shr(&self, stack: &mut Stack) -> (r: Result<OpCodeResult, EvmError>)
        ensures
            old(stack)@.len() >= 2 ==> (r matches Ok(OpCodeResult::Continue)) && final(stack)@
                == old(stack)@.drop_last().drop_last().push(StackElement {
                    value: binop_value(OpCodes::SHR, old(stack)@.last().value, old(stack)@[old(stack)@.len() - 2].value),
                    origin: self.index,
                    size: 1usize,
                }),
            old(stack)@.len() < 2 ==> r == Err::<OpCodeResult, EvmError>(
                EvmError::StackUnderflow { pc: self.index },
            ) && final(stack)@ == Seq::<StackElement>::empty(),
    {
        let shift = match stack.pop() {
            Some(v) => v,
            None => { return Err(EvmError::StackUnderflow { pc: self.index }); },
        };
        let value = match stack.pop() {
            Some(v) => v,
            None => { return Err(EvmError::StackUnderflow { pc: self.index }); },
        };
        stack.push(StackElement {
            value: value.value.shr(shift.value),
            origin: self.index,
            size: 1,
        });
        Ok(OpCodeResult::Continue)
    }

    /// Pushes one when the top word is zero.
    fn is_zero(&self, stack: &mut Stack) -> (r: Result<OpCodeResult, EvmError>)
        ensures
            old(stack)@.len() >= 1 ==> (r matches Ok(OpCodeResult::Continue)) && final(stack)@
                == old(stack)@.drop_last().push(StackElement {
                    value: if old(stack)@.last().value.0 == 0 { Hex(1) } else { Hex(0) },
                    origin: self.index,
                    size: 1usize,
                }),
            old(stack)@.len() == 0 ==> r == Err::<OpCodeResult, EvmError>(
                EvmError::StackUnderflow { pc: self.index },
            ) && final(stack)@ == old(stack)@,
    {
        let value = match stack.pop() {
            Some(v) => v,
            None => { return Err(EvmError::StackUnderflow { pc: self.index }); },
        };
        let pushed = if value.value.0 == 0 { Hex(1) } else { Hex(0) };
        stack.push(StackElement { value: pushed, origin: self.index, size: 1 });
        Ok(OpCodeResult::Continue)
    }

    /// Exchanges the top of the stack with the element `num_swap` below it;
    /// underflows unless the stack holds more than `num_swap` elements.
    fn swapx(&self, num_swap: u32, stack: &mut Stack) -> (r: Result<OpCodeResult, EvmError>)
        requires
            1 <= num_swap <= 16,
        ensures
            old(stack)@.len() >= num_swap + 1 ==> (r matches Ok(OpCodeResult::Continue))
                && final(stack)@ == old(stack)@.update(
                    old(stack)@.len() - num_swap - 1,
                    old(stack)@[old(stack)@.len() - 1],
                ).update(old(stack)@.len() - 1, old(stack)@[old(stack)@.len() - num_swap - 1]),
            old(stack)@.len() < num_swap + 1 ==> r == Err::<OpCodeResult, EvmError>(
                EvmError::StackUnderflow { pc: self.index },
            ) && final(stack)@ == old(stack)@,
    {
        let num_swap = num_swap as usize;
        let len = stack.len();
        if len < num_swap + 1 {
            return Err(EvmError::StackUnderflow { pc: self.index });
        }
        stack.swap(len - num_swap - 1, len - 1);
        Ok(OpCodeResult::Continue)
    }

    /// Pushes the word the immediate bytes spell, big-endian, and advances
    /// the program counter past them.
    fn pushx(&self, num_push: usize, stack: &mut Stack, pc: &mut Hex) -> (r: Result<
        OpCodeResult,
        EvmError,
    >)
        requires
            self.wf(),
            self.args@.len() == num_push,
            1 <= num_push <= 32,
            old(pc).0 + 33 <= u128::MAX,
        ensures
            r matches Ok(OpCodeResult::Continue),
            final(pc).0 == old(pc).0 + num_push,
            final(stack)@ == old(stack)@.push(StackElement {
                value: Hex(args_word(self.args@) as u128),
                origin: self.index,
                size: num_push as usize,
            }),
    {
        *pc = Hex(pc.0 + num_push as u128);
        let mut value: u128 = 0;
        let mut i: usize = 0;
        while i < self.args.len()
            invariant
                i <= self.args@.len(),
                self.wf(),
                value == args_word_rec(self.args@, i as nat),
            decreases self.args@.len() - i,
        {
            let b = self.args[i];
            value = word_append_byte(value, b.0);
            i = i + 1;
        }
        stack.push(StackElement { value: Hex(value), origin: self.index, size: num_push });
        Ok(OpCodeResult::Continue)
    }

    /// Pushes a copy of the element at depth `num_dup - 1` from the top;
    /// underflows unless the stack holds at least `num_dup` elements.
    fn dupx(&self, num_dup: usize, stack: &mut Stack) -> (r: Result<OpCodeResult, EvmError>)
        requires
            1 <= num_dup <= 16,
        ensures
            old(stack)@.len() >= num_dup ==> (r matches Ok(OpCodeResult::Continue)) && final(stack)@
                == old(stack)@.push(old(stack)@[old(stack)@.len() - num_dup]),
            old(stack)@.len() < num_dup ==> r == Err::<OpCodeResult, EvmError>(
                EvmError::StackUnderflow { pc: self.index },
            ) && final(stack)@ == old(stack)@,
    {
        let len = stack.len();
        if len < num_dup {
            return Err(EvmError::StackUnderflow { pc: self.index });
        }
        let dup = match stack.get(len - num_dup) {
            Some(v) => *v,
            None => { return Err(EvmError::StackUnderflow { pc: self.index }); },
        };
        stack.push(dup);
        Ok(OpCodeResult::Continue)
    }

    /// Loads from the stubbed storage: any key reads as zero.
    fn sload(&self, stack: &mut Stack) -> (r: Result<OpCodeResult, EvmError>)
        ensures
            old(stack)@.len() >= 1 ==> (r matches Ok(OpCodeResult::Continue)) && final(stack)@
                == old(stack)@.drop_last().push(StackElement {
                    value: Hex(0),
                    origin: self.index,
                    size: 1usize,
                }),
            old(stack)@.len() == 0 ==> r == Err::<OpCodeResult, EvmError>(
                EvmError::StackUnderflow { pc: self.index },
            ) && final(stack)@ == old(stack)@,
    {
        let _key = match stack.pop() {
            Some(v) => v,
            None => { return Err(EvmError::StackUnderflow { pc: self.index }); },
        };
        stack.push(StackElement { value: Hex(0), origin: self.index, size: 1 });
        Ok(OpCodeResult::Continue)
    }

    /// A jump destination marker: no effect.
    fn jumpdest(&self) -> (r: Result<OpCodeResult, EvmError>)
        ensures
            r matches Ok(OpCodeResult::Continue),
    {
        Ok(OpCodeResult::Continue)
    }

    /// Pops the target, then the condition, and raises a conditional jump
    /// event carrying both.
    fn jumpi(&self, stack: &mut Stack) -> (r: Result<OpCodeResult, EvmError>)
        ensures
            old(stack)@.len() >= 2 ==> final(stack)@ == old(stack)@.drop_last().drop_last()
                && (r matches Ok(OpCodeResult::ConditionalJumpInstruction(ji)) && ji_matches(
                    ji,
                    *self,
                    JumpType::Conditional,
                    old(stack)@.last(),
                    Some(old(stack)@[old(stack)@.len() - 2]),
                    self.index,
                )),
            old(stack)@.len() < 2 ==> r == Err::<OpCodeResult, EvmError>(
                EvmError::StackUnderflow { pc: self.index },
            ) && final(stack)@ == Seq::<StackElement>::empty(),
    {
        let target = match stack.pop() {
            Some(v) => v,
            None => { return Err(EvmError::StackUnderflow { pc: self.index }); },
        };
        let condition = match stack.pop() {
            Some(v) => v,
            None => { return Err(EvmError::StackUnderflow { pc: self.index }); },
        };
        let jump_instruction = JumpInstruction {
            instruction: self.clone(),
            jump_type: JumpType::Conditional,
            target,
            condition: Some(condition),
            source: self.index,
        };
        Ok(OpCodeResult::ConditionalJumpInstruction(jump_instruction))
    }

    /// Pops the target and raises an unconditional jump event.
    fn jump(&self, stack: &mut Stack) -> (r: Result<OpCodeResult, EvmError>)
        ensures
            old(stack)@.len() >= 1 ==> final(stack)@ == old(stack)@.drop_last()
                && (r matches Ok(OpCodeResult::JumpInstruction(ji)) && ji_matches(
                    ji,
                    *self,
                    JumpType::Unconditional,
                    old(stack)@.last(),
                    None,
                    self.index,
                )),
            old(stack)@.len() == 0 ==> r == Err::<OpCodeResult, EvmError>(
                EvmError::StackUnderflow { pc: self.index },
            ) && final(stack)@ == old(stack)@,
    {
        let target = match stack.pop() {
            Some(v) => v,
            None => { return Err(EvmError::StackUnderflow { pc: self.index }); },
        };
        let jump_instruction = JumpInstruction {
            instruction: self.clone(),
            jump_type: JumpType::Unconditional,
            target,
            condition: None,
            source: self.index,
        };
        Ok(OpCodeResult::JumpInstruction(jump_instruction))
    }

    /// Pops the offset, then the value, and stores the value's 32-byte
    /// big-endian representation at the offset.
    fn mstore(&self, stack: &mut Stack, memory: &mut Memory) -> (r: Result<OpCodeResult, EvmError>)
        requires
            stack_wf(old(stack)@),
            old(memory).wf(),
        ensures
            final(memory).wf(),
            old(stack)@.len() >= 2 ==> ({
                let off = old(stack)@.last();
                let val = old(stack)@[old(stack)@.len() - 2];
                &&& final(stack)@ == old(stack)@.drop_last().drop_last()
                &&& (off.value.0 > usize::MAX - 64 ==> r == Err::<OpCodeResult, EvmError>(
                    EvmError::MemoryOutOfRange { pc: self.index },
                ) && final(memory)@ == old(memory)@)
                &&& (off.value.0 <= usize::MAX - 64 ==> (r matches Ok(OpCodeResult::Continue))
                    && final(memory)@ == mstore_spec(old(memory)@, val, off.value.0 as int, self.index))
            }),
            old(stack)@.len() < 2 ==> r == Err::<OpCodeResult, EvmError>(
                EvmError::StackUnderflow { pc: self.index },
            ) && final(stack)@ == Seq::<StackElement>::empty() && final(memory)@ == old(memory)@,
    {
        let offset = match stack.pop() {
            Some(v) => v,
            None => { return Err(EvmError::StackUnderflow { pc: self.index }); },
        };
        let value = match stack.pop() {
            Some(v) => v,
            None => { return Err(EvmError::StackUnderflow { pc: self.index }); },
        };
        if offset.value.0 > (usize::MAX - 64) as u128 {
            return Err(EvmError::MemoryOutOfRange { pc: self.index });
        }
        memory.mstore(value, offset.value, self.index);
        Ok(OpCodeResult::Continue)
    }

    /// Pops the offset and pushes the 32-byte big-endian word read there,
    /// owned by the last writer of the window, or by this instruction where
    /// the window was never written.
    fn mload(&self, stack: &mut Stack, memory: &mut Memory) -> (r: Result<OpCodeResult, EvmError>)
        requires
            old(memory).wf(),
        ensures
            final(memory).wf(),
            old(stack)@.len() >= 1 ==> ({
                let off = old(stack)@.last();
                &&& (off.value.0 > usize::MAX - 64 ==> r == Err::<OpCodeResult, EvmError>(
                    EvmError::MemoryOutOfRange { pc: self.index },
                ) && final(stack)@ == old(stack)@.drop_last() && final(memory)@ == old(memory)@)
                &&& (off.value.0 <= usize::MAX - 64 ==> ({
                    let g = grow_to_spec(old(memory)@, off.value.0 + 32);
                    let lo = load_origin(g, off.value.0 as int, 32);
                    &&& r matches Ok(OpCodeResult::Continue)
                    &&& final(memory)@ == g
                    &&& final(stack)@ == old(stack)@.drop_last().push(StackElement {
                        value: Hex(load_word(g, off.value.0 as int, 32) as u128),
                        origin: if lo is Some { lo->0 } else { self.index },
                        size: 32usize,
                    })
                }))
            }),
            old(stack)@.len() == 0 ==> r == Err::<OpCodeResult, EvmError>(
                EvmError::StackUnderflow { pc: self.index },
            ) && final(stack)@ == old(stack)@ && final(memory)@ == old(memory)@,
    {
        let offset = match stack.pop() {
            Some(v) => v,
            None => { return Err(EvmError::StackUnderflow { pc: self.index }); },
        };
        if offset.value.0 > (usize::MAX - 64) as u128 {
            return Err(EvmError::MemoryOutOfRange { pc: self.index });
        }
        let result = memory.mload(offset.value);
        let origin = match result.origin {
            Some(o) => o,
            None => self.index,
        };
        stack.push(StackElement { value: result.value, origin, size: 32 });
        Ok(OpCodeResult::Continue)
    }

    /// Pops the offset and pushes the 32-digit calldata window there; a
    /// machine without calldata reads a one-byte zero.
    fn calldataload(&self, stack: &mut Stack, env: &Environment) -> (r: Result<
        OpCodeResult,
        EvmError,
    >)
        ensures
            old(stack)@.len() >= 1 ==> ({
                let off = old(stack)@.last();
                match env.calldata {
                    Some(cd) => {
                        &&& (off.value.0 > usize::MAX ==> (r matches Ok(OpCodeResult::Continue))
                            && final(stack)@ == old(stack)@.drop_last().push(StackElement {
                                value: Hex(0),
                                origin: Hex(0),
                                size: 32usize,
                            }))
                        &&& (off.value.0 <= usize::MAX && window_ok(cd@, off.value.0 as int)
                            ==> (r matches Ok(OpCodeResult::Continue)) && final(stack)@
                                == old(stack)@.drop_last().push(StackElement {
                                    value: Hex(window_val(cd@, 2 * (off.value.0 as int), 64) as u128),
                                    origin: Hex(0),
                                    size: 32usize,
                                }))
                        &&& (off.value.0 <= usize::MAX && !window_ok(cd@, off.value.0 as int)
                            ==> r == Err::<OpCodeResult, EvmError>(EvmError::Input)
                                && final(stack)@ == old(stack)@.drop_last())
                    },
                    None => r matches Ok(OpCodeResult::Continue) && final(stack)@
                        == old(stack)@.drop_last().push(StackElement {
                            value: Hex(0),
                            origin: self.index,
                            size: 1usize,
                        }),
                }
            }),
            old(stack)@.len() == 0 ==> r == Err::<OpCodeResult, EvmError>(
                EvmError::StackUnderflow { pc: self.index },
            ) && final(stack)@ == old(stack)@,
    {
        let offset = match stack.pop() {
            Some(v) => v,
            None => { return Err(EvmError::StackUnderflow { pc: self.index }); },
        };
        if let Some(cd) = &env.calldata {
            if offset.value.0 > usize::MAX as u128 {
                stack.push(StackElement { value: Hex(0), origin: Hex(0), size: 32 });
            } else {
                match cd.get(offset.value.0 as usize) {
                    Ok(e) => {
                        stack.push(e);
                    },
                    Err(e) => {
                        return Err(e);
                    },
                }
            }
        } else {
            stack.push(StackElement { value: Hex(0), origin: self.index, size: 1 });
        }
        Ok(OpCodeResult::Continue)
    }

    /// Pushes the byte length of the calldata; a machine without calldata
    /// reads a one-byte zero.
    fn calldatasize(&self, stack: &mut Stack, env: &Environment) -> (r: Result<
        OpCodeResult,
        EvmError,
    >)
        ensures
            r matches Ok(OpCodeResult::Continue),
            final(stack)@ == old(stack)@.push(match env.calldata {
                Some(cd) => StackElement { value: Hex((cd@.len() / 2) as u128), origin: Hex(0), size: 1usize },
                None => StackElement { value: Hex(0), origin: self.index, size: 1usize },
            }),
    {
        if let Some(cd) = &env.calldata {
            let value = cd.size();
            stack.push(value);
        } else {
            stack.push(StackElement { value: Hex(0), origin: self.index, size: 1 });
        }
        Ok(OpCodeResult::Continue)
    }

    /// Pushes the configured call value, or a one-byte zero where none is
    /// configured.
    fn callvalue(&self, stack: &mut Stack, env: &Environment) -> (r: Result<
        OpCodeResult,
        EvmError,
    >)
        ensures
            r matches Ok(OpCodeResult::Continue),
            final(stack)@ == old(stack)@.push(match env.callvalue {
                Some(cv) => StackElement { value: cv.value, origin: self.index, size: cv.size },
                None => StackElement { value: Hex(0), origin: self.index, size: 1usize },
            }),
    {
        if let Some(cv) = &env.callvalue {
            stack.push(StackElement { value: cv.value, origin: self.index, size: cv.size });
        } else {
            stack.push(StackElement { value: Hex(0), origin: self.index, size: 1 });
        }
        Ok(OpCodeResult::Continue)
    }


    /// One interpreter step: applies this instruction's effect to the stack,
    /// memory and program counter, exactly as `spec_step` models it.
    pub fn parse(
        &self,
        stack: &mut Stack,
        pc: &mut Hex,
        memory: &mut Memory,
        env: &Environment,
    ) -> (r: Result<OpCodeResult, EvmError>)
        requires
            self.wf(),
            stack_wf(old(stack)@),
            old(memory).wf(),
            env_wf(*env),
            old(pc).0 + 33 <= u128::MAX,
        ensures
            stack_wf(final(stack)@),
            final(memory).wf(),
            ({
                let m = spec_step(*self, old(stack)@, old(pc).0, old(memory)@, *env);
                &&& final(stack)@ == m.stack
                &&& final(pc).0 == m.pc
                &&& final(memory)@ == m.mem
                &&& step_result_matches(r, m.kind, *self)
            }),
    {
        match self.opcode.code {
            OpCodes::ADD => self.add(stack),
            OpCodes::SUB => self.sub(stack),
            OpCodes::MUL => self.mul(stack),
            OpCodes::LT => self.lt(stack),
            OpCodes::SLT => self.slt(stack),
            OpCodes::EQ => self.eq(stack),
            OpCodes::SHL => self.shl(stack),
            OpCodes::SHR => self.shr(stack),
            OpCodes::ISZERO => self.is_zero(stack),
            OpCodes::POP => self.pop(stack),
            OpCodes::JUMPDEST => self.jumpdest(),
            OpCodes::JUMP => self.jump(stack),
            OpCodes::JUMPI => self.jumpi(stack),
            OpCodes::STOP => self.stop(stack),
            OpCodes::RETURN => self.stop(stack),
            OpCodes::REVERT => self.stop(stack),
            OpCodes::INVALID => self.stop(stack),
            OpCodes::SELFDESTRUCT => self.stop(stack),
            OpCodes::SLOAD => self.sload(stack),
            OpCodes::MSTORE => self.mstore(stack, memory),
            OpCodes::MLOAD => self.mload(stack, memory),
            OpCodes::CALLDATALOAD => self.calldataload(stack, env),
            OpCodes::CALLDATASIZE => self.calldatasize(stack, env),
            OpCodes::CALLVALUE => self.callvalue(stack, env),
            OpCodes::PUSH1 => self.pushx(1, stack, pc),
            OpCodes::PUSH2 => self.pushx(2, stack, pc),
            OpCodes::PUSH3 => self.pushx(3, stack, pc),
            OpCodes::PUSH4 => self.pushx(4, stack, pc),
            OpCodes::PUSH5 => self.pushx(5, stack, pc),
            OpCodes::PUSH6 => self.pushx(6, stack, pc),
            OpCodes::PUSH7 => self.pushx(7, stack, pc),
            OpCodes::PUSH8 => self.pushx(8, stack, pc),
            OpCodes::PUSH9 => self.pushx(9, stack, pc),
            OpCodes::PUSH10 => self.pushx(10, stack, pc),
            OpCodes::PUSH11 => self.pushx(11, stack, pc),
            OpCodes::PUSH12 => self.pushx(12, stack, pc),
            OpCodes::PUSH13 => self.pushx(13, stack, pc),
            OpCodes::PUSH14 => self.pushx(14, stack, pc),
            OpCodes::PUSH15 => self.pushx(15, stack, pc),
            OpCodes::PUSH16 => self.pushx(16, stack, pc),
            OpCodes::PUSH17 => self.pushx(17, stack, pc),
            OpCodes::PUSH18 => self.pushx(18, stack, pc),
            OpCodes::PUSH19 => self.pushx(19, stack, pc),
            OpCodes::PUSH20 => self.pushx(20, stack, pc),
            OpCodes::PUSH21 => self.pushx(21, stack, pc),
            OpCodes::PUSH22 => self.pushx(22, stack, pc),
            OpCodes::PUSH23 => self.pushx(23, stack, pc),
            OpCodes::PUSH24 => self.pushx(24, stack, pc),
            OpCodes::PUSH25 => self.pushx(25, stack, pc),
            OpCodes::PUSH26 => self.pushx(26, stack, pc),
            OpCodes::PUSH27 => self.pushx(27, stack, pc),
            OpCodes::PUSH28 => self.pushx(28, stack, pc),
            OpCodes::PUSH29 => self.pushx(29, stack, pc),
            OpCodes::PUSH30 => self.pushx(30, stack, pc),
            OpCodes::PUSH31 => self.pushx(31, stack, pc),
            OpCodes::PUSH32 => self.pushx(32, stack, pc),
            OpCodes::DUP1 => self.dupx(1, stack),
            OpCodes::DUP2 => self.dupx(2, stack),
            OpCodes::DUP3 => self.dupx(3, stack),
            OpCodes::DUP4 => self.dupx(4, stack),
            OpCodes::DUP5 => self.dupx(5, stack),
            OpCodes::DUP6 => self.dupx(6, stack),
            OpCodes::DUP7 => self.dupx(7, stack),
            OpCodes::DUP8 => self.dupx(8, stack),
            OpCodes::DUP9 => self.dupx(9, stack),
            OpCodes::DUP10 => self.dupx(10, stack),
            OpCodes::DUP11 => self.dupx(11, stack),
            OpCodes::DUP12 => self.dupx(12, stack),
            OpCodes::DUP13 => self.dupx(13, stack),
            OpCodes::DUP14 => self.dupx(14, stack),
            OpCodes::DUP15 => self.dupx(15, stack),
            OpCodes::DUP16 => self.dupx(16, stack),
            OpCodes::SWAP1 => self.swapx(1, stack),
            OpCodes::SWAP2 => self.swapx(2, stack),
            OpCodes::SWAP3 => self.swapx(3, stack),
            OpCodes::SWAP4 => self.swapx(4, stack),
            OpCodes::SWAP5 => self.swapx(5, stack),
            OpCodes::SWAP6 => self.swapx(6, stack),
            OpCodes::SWAP7 => self.swapx(7, stack),
            OpCodes::SWAP8 => self.swapx(8, stack),
            OpCodes::SWAP9 => self.swapx(9, stack),
            OpCodes::SWAP10 => self.swapx(10, stack),
            OpCodes::SWAP11 => self.swapx(11, stack),
            OpCodes::SWAP12 => self.swapx(12, stack),
            OpCodes::SWAP13 => self.swapx(13, stack),
            OpCodes::SWAP14 => self.swapx(14, stack),
            OpCodes::SWAP15 => self.swapx(15, stack),
            OpCodes::SWAP16 => self.swapx(16, stack),
            _ => Err(EvmError::Unsupported { pc: self.index, opcode: self.opcode.code }),
        }
    }
}

} // verus!

