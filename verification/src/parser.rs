//! Decoding bytecode into an indexed instruction map, scanning the map into
//! pre-symbolic basic blocks, and running one block symbolically.

use vstd::prelude::*;
use crate::calldata::Environment;
use crate::errors::EvmError;
use crate::flow::{ParsedInstructionSet, SetModel, JumpModel};
use crate::hex::{Hex, hex_digit, hex_digit_val, is_hex_digit};
use crate::instruction::{
    Instruction, InstructionSet, JumpType, pc_bound, stack_wf, env_wf, spec_step, StepKind,
};
use crate::memory::{Memory, MemoryElement, mem_wf};
use crate::opcode::{
    OpCodes, OpCodeResult, opcode_for, spec_opcode_of_byte, spec_imm_count, spec_is_terminator,
    is_terminator,
};
use crate::stack::{Stack, StackElement};
use crate::utils::find_sequence;
use vstd::std_specs::cmp::PartialEqSpec;

verus! {

/// The byte offset one past the last decoded instruction: where the next
/// instruction would begin.
pub open spec fn map_end(s: Seq<Instruction>) -> int {
    if s.len() == 0 {
        0
    } else {
        s.last().index.0 + 1 + s.last().args@.len()
    }
}

/// A well-formed instruction map: every instruction is well formed, the
/// first sits at offset zero, and each next one begins right after the
/// previous instruction's immediate bytes.
pub open spec fn map_wf(s: Seq<Instruction>) -> bool {
    &&& forall|i: int| 0 <= i < s.len() ==> (#[trigger] s[i]).wf()
    &&& s.len() > 0 ==> s[0].index.0 == 0
    &&& forall|i: int| 0 <= i < s.len() - 1 ==> (#[trigger] s[i + 1].index.0) == s[i].index.0 + 1
        + s[i].args@.len()
}

/// Offsets strictly increase along a well-formed map.
pub proof fn lemma_map_monotone(s: Seq<Instruction>, i: int, j: int)
    requires
        map_wf(s),
        0 <= i < j < s.len(),
    ensures
        s[i].index.0 + 1 + s[i].args@.len() <= s[j].index.0,
        s[i].index.0 < s[j].index.0,
    decreases j - i,
{
    if j == i + 1 {
        assert(s[i + 1].index.0 == s[i].index.0 + 1 + s[i].args@.len());
    } else {
        lemma_map_monotone(s, i, j - 1);
        assert(s[(j - 1) + 1].index.0 == s[j - 1].index.0 + 1 + s[j - 1].args@.len());
    }
}

/// Every offset of a well-formed map lies below its end.
pub proof fn lemma_map_index_below_end(s: Seq<Instruction>, i: int)
    requires
        map_wf(s),
        0 <= i < s.len(),
    ensures
        s[i].index.0 + 1 + s[i].args@.len() <= map_end(s),
{
    if i < s.len() - 1 {
        lemma_map_monotone(s, i, s.len() - 1);
        assert(s[s.len() - 1].index.0 + 1 + s[s.len() - 1].args@.len() == map_end(s));
    }
}

/// The position of the instruction at byte offset `pcv`, or the map's length
/// where no instruction sits there.
pub open spec fn spec_pos_of(s: Seq<Instruction>, pcv: u128) -> int {
    if exists|i: int| 0 <= i < s.len() && (#[trigger] s[i].index.0) == pcv {
        choose|i: int| 0 <= i < s.len() && (#[trigger] s[i].index.0) == pcv
    } else {
        s.len() as int
    }
}

/// In a well-formed map the position of an offset is unique.
pub proof fn lemma_pos_of_unique(s: Seq<Instruction>, i: int)
    requires
        map_wf(s),
        0 <= i < s.len(),
    ensures
        spec_pos_of(s, s[i].index.0) == i,
{
    let pcv = s[i].index.0;
    assert(exists|k: int| 0 <= k < s.len() && (#[trigger] s[k].index.0) == pcv);
    let k = choose|k: int| 0 <= k < s.len() && (#[trigger] s[k].index.0) == pcv;
    if k < i {
        lemma_map_monotone(s, k, i);
    } else if k > i {
        lemma_map_monotone(s, i, k);
    }
}

/// The decoded instruction map: instructions keyed by the byte offset of
/// their opcode byte, held in offset order.
#[derive(Debug)]
pub struct InstructionMap {
    items: Vec<Instruction>,
}

impl View for InstructionMap {
    type V = Seq<Instruction>;

    closed spec fn view(&self) -> Seq<Instruction> {
        self.items@
    }
}

impl InstructionMap {
    /// The map is well formed.
    pub open spec fn wf(&self) -> bool {
        map_wf(self@)
    }

    /// How many instructions the map holds.
    pub fn len(&self) -> (r: usize)
        ensures
            r == self@.len(),
    {
        self.items.len()
    }

    /// The position of the instruction at byte offset `pc`, where one sits
    /// there.
    pub fn get_index(&self, pc: Hex) -> (r: Option<usize>)
        ensures
            r matches Some(i) ==> i < self@.len() && self@[i as int].index.0 == pc.0,
            r is None ==> forall|i: int| 0 <= i < self@.len() ==> (#[trigger] self@[i].index.0)
                != pc.0,
    {
        let mut i: usize = 0;
        while i < self.items.len()
            invariant
                i <= self.items@.len(),
                forall|k: int| 0 <= k < i ==> (#[trigger] self.items@[k].index.0) != pc.0,
            decreases self.items@.len() - i,
        {
            if self.items[i].index.0 == pc.0 {
                return Some(i);
            }
            i = i + 1;
        }
        None
    }

    /// The instruction at byte offset `pc`, where one sits there.
    pub fn get(&self, pc: Hex) -> (r: Option<&Instruction>)
        ensures
            r matches Some(ins) ==> exists|i: int| 0 <= i < self@.len() && self@[i] == *ins
                && (#[trigger] self@[i].index.0) == pc.0,
            r is None ==> forall|i: int| 0 <= i < self@.len() ==> (#[trigger] self@[i].index.0)
                != pc.0,
    {
        match self.get_index(pc) {
            Some(i) => Some(&self.items[i]),
            None => None,
        }
    }

    /// The instruction at position `i` of the map.
    pub fn at_position(&self, i: usize) -> (r: &Instruction)
        requires
            i < self@.len(),
        ensures
            *r == self@[i as int],
    {
        &self.items[i]
    }
}

/// Whether the byte stream decodes from position `pos` on: every opcode byte
/// is known, and every immediate byte exists and is a byte.
pub open spec fn decodable_from(bytes: Seq<u32>, pos: int) -> bool
    decreases bytes.len() - pos,
{
    if pos >= bytes.len() {
        true
    } else {
        match spec_opcode_of_byte(bytes[pos]) {
            Some(c) => {
                &&& pos + 1 + spec_imm_count(c) <= bytes.len()
                &&& (forall|j: int| 0 <= j < spec_imm_count(c) ==> (#[trigger] bytes[pos + 1 + j])
                    < 256)
                &&& decodable_from(bytes, pos + 1 + spec_imm_count(c))
            },
            None => false,
        }
    }
}

/// The position of the first offending opcode byte of a stream that does not
/// decode from `pos`.
pub open spec fn decode_fail_pos(bytes: Seq<u32>, pos: int) -> int
    decreases bytes.len() - pos,
{
    if pos >= bytes.len() {
        pos
    } else {
        match spec_opcode_of_byte(bytes[pos]) {
            Some(c) => {
                if pos + 1 + spec_imm_count(c) <= bytes.len() && (forall|j: int|
                    0 <= j < spec_imm_count(c) ==> (#[trigger] bytes[pos + 1 + j]) < 256) {
                    decode_fail_pos(bytes, pos + 1 + spec_imm_count(c))
                } else {
                    pos
                }
            },
            None => pos,
        }
    }
}

/// Whether `s` is the decoding of `bytes`: a well-formed map that covers the
/// stream exactly, each instruction standing for its opcode byte and
/// carrying precisely the immediate bytes that follow it.
pub open spec fn decodes(bytes: Seq<u32>, s: Seq<Instruction>) -> bool {
    &&& map_wf(s)
    &&& map_end(s) == bytes.len()
    &&& forall|k: int| 0 <= k < s.len() ==> ({
        let ins = #[trigger] s[k];
        &&& spec_opcode_of_byte(bytes[ins.index.0 as int]) == Some(ins.opcode.code)
        &&& forall|j: int| 0 <= j < ins.args@.len() ==> (#[trigger] ins.args@[j]).0 == bytes[
            ins.index.0 + 1 + j
        ]
    })
}

/// Decodes a byte stream into an instruction map by a linear scan: each
/// opcode byte is looked up in the opcode table and its immediate bytes are
/// attached to it. Fails at the first unknown opcode byte, at a PUSH whose
/// immediates run past the end of the input, and at an immediate that is no
/// byte.
pub fn bytecode_to_instructions(raw_bytecode: &Vec<u32>) -> (r: Result<InstructionMap, EvmError>)
    requires
        raw_bytecode@.len() + 40 < pc_bound(),
        raw_bytecode@.len() + 40 <= usize::MAX,
    ensures
        r matches Ok(m) ==> m.wf() && decodes(raw_bytecode@, m@),
        (r is Ok) <==> decodable_from(raw_bytecode@, 0),
        r matches Err(e) ==> e == (EvmError::Decode {
            pc: Hex(decode_fail_pos(raw_bytecode@, 0) as u128),
        }),
{
    let n = raw_bytecode.len();
    let mut items: Vec<Instruction> = Vec::new();
    let mut pos: usize = 0;
    while pos < n
        invariant
            pos <= n,
            n == raw_bytecode@.len(),
            n + 40 < pc_bound(),
            n + 40 <= usize::MAX,
            map_wf(items@),
            map_end(items@) == pos,
            decodable_from(raw_bytecode@, 0) <==> decodable_from(raw_bytecode@, pos as int),
            !decodable_from(raw_bytecode@, pos as int) ==> decode_fail_pos(raw_bytecode@, 0)
                == decode_fail_pos(raw_bytecode@, pos as int),
            forall|k: int| 0 <= k < items@.len() ==> ({
                let ins = #[trigger] items@[k];
                &&& spec_opcode_of_byte(raw_bytecode@[ins.index.0 as int]) == Some(ins.opcode.code)
                &&& forall|j: int| 0 <= j < ins.args@.len() ==> (#[trigger] ins.args@[j]).0
                    == raw_bytecode@[ins.index.0 + 1 + j]
            }),
        decreases n - pos,
    {
        let b = raw_bytecode[pos];
        let code = match OpCodes::from_byte(b) {
            Some(c) => c,
            None => {
                proof {
                    assert(!decodable_from(raw_bytecode@, pos as int));
                    assert(decode_fail_pos(raw_bytecode@, pos as int) == pos);
                }
                return Err(EvmError::Decode { pc: Hex(pos as u128) });
            },
        };
        let meta = opcode_for(code);
        let imm = meta.input_arguments as usize;
        if pos + 1 + imm > n {
            proof {
                assert(!decodable_from(raw_bytecode@, pos as int));
                assert(decode_fail_pos(raw_bytecode@, pos as int) == pos);
            }
            return Err(EvmError::Decode { pc: Hex(pos as u128) });
        }
        let mut args: Vec<Hex> = Vec::new();
        let mut j: usize = 0;
        while j < imm
            invariant
                j <= imm,
                pos + 1 + imm <= n,
                n == raw_bytecode@.len(),
                pos < n,
                imm == spec_imm_count(code),
                spec_opcode_of_byte(raw_bytecode@[pos as int]) == Some(code),
                decodable_from(raw_bytecode@, 0) <==> decodable_from(raw_bytecode@, pos as int),
                !decodable_from(raw_bytecode@, pos as int) ==> decode_fail_pos(raw_bytecode@, 0)
                    == decode_fail_pos(raw_bytecode@, pos as int),
                args@.len() == j,
                forall|k: int| 0 <= k < j ==> (#[trigger] args@[k]).0 == raw_bytecode@[
                    pos + 1 + k
                ] && args@[k].0 < 256,
            decreases imm - j,
        {
            let byte = raw_bytecode[pos + 1 + j];
            if byte > 0xff {
                proof {
                    assert(raw_bytecode@[pos + 1 + j] >= 256);
                    assert(!(forall|jj: int| 0 <= jj < spec_imm_count(code) ==> (#[trigger]
                    raw_bytecode@[pos as int + 1 + jj]) < 256)) by {
                        assert(0 <= j < spec_imm_count(code));
                    }
                    assert(!decodable_from(raw_bytecode@, pos as int));
                    assert(decode_fail_pos(raw_bytecode@, pos as int) == pos);
                }
                return Err(EvmError::Decode { pc: Hex(pos as u128) });
            }
            args.push(Hex(byte as u128));
            j = j + 1;
        }
        proof {
            assert forall|jj: int| 0 <= jj < spec_imm_count(code) implies (#[trigger]
            raw_bytecode@[pos as int + 1 + jj]) < 256 by {
                assert(args@[jj].0 == raw_bytecode@[pos as int + 1 + jj]);
                assert(args@[jj].0 < 256);
            }
            assert(decodable_from(raw_bytecode@, pos as int) <==> decodable_from(
                raw_bytecode@,
                pos as int + 1 + imm,
            ));
            assert(!decodable_from(raw_bytecode@, pos as int) ==> decode_fail_pos(
                raw_bytecode@,
                pos as int,
            ) == decode_fail_pos(raw_bytecode@, pos as int + 1 + imm));
        }
        let ghost items0 = items@;
        let ins = Instruction { args, opcode: meta, index: Hex(pos as u128) };
        proof {
            assert(ins.wf());
        }
        items.push(ins);
        proof {
            assert(items@.last().index.0 == pos);
            assert(map_end(items@) == pos + 1 + imm);
            assert forall|i: int| 0 <= i < items@.len() - 1 implies (#[trigger] items@[i
                + 1].index.0) == items@[i].index.0 + 1 + items@[i].args@.len() by {
                if i < items0.len() - 1 {
                    assert(items@[i] == items0[i]);
                    assert(items@[i + 1] == items0[i + 1]);
                } else {
                    assert(items@[i] == items0.last());
                }
            }
        }
        pos = pos + 1 + imm;
    }
    Ok(InstructionMap { items })
}

/// The six-byte marker that begins Solidity's CBOR metadata trailer.
pub open spec fn cbor_marker() -> Seq<u32> {
    seq![0xa2u32, 0x64u32, 0x69u32, 0x70u32, 0x66u32, 0x73u32]
}

/// Whether the CBOR marker stands in `bytes` at position `k`.
pub open spec fn cbor_at(bytes: Seq<u32>, k: int) -> bool {
    &&& 0 <= k
    &&& k + 6 <= bytes.len()
    &&& forall|j: int| 0 <= j < 6 ==> bytes[k + j] == (#[trigger] cbor_marker()[j])
}

/// The position where the CBOR trailer begins, scanning from `k`: the first
/// occurrence of the marker, or the end of the stream where there is none.
pub open spec fn cbor_cut_from(bytes: Seq<u32>, k: int) -> int
    decreases bytes.len() + 6 - k,
{
    if k + 6 > bytes.len() {
        bytes.len() as int
    } else if cbor_at(bytes, k) {
        k
    } else {
        cbor_cut_from(bytes, k + 1)
    }
}

/// The position where the CBOR trailer begins, or the end of the stream.
pub open spec fn cbor_cut(bytes: Seq<u32>) -> int {
    cbor_cut_from(bytes, 0)
}

/// The scan finds the first occurrence: where the marker stands at `i` and
/// nowhere earlier, the cut is `i`.
proof fn lemma_cbor_cut_first(bytes: Seq<u32>, k: int, i: int)
    requires
        0 <= k <= i,
        cbor_at(bytes, i),
        forall|j: int| k <= j < i ==> !cbor_at(bytes, j),
    ensures
        cbor_cut_from(bytes, k) == i,
    decreases i - k,
{
    if k < i {
        lemma_cbor_cut_first(bytes, k + 1, i);
    }
}

/// Where the marker stands nowhere at or after `k`, the cut is the end.
proof fn lemma_cbor_cut_none(bytes: Seq<u32>, k: int)
    requires
        0 <= k,
        forall|j: int| k <= j ==> !cbor_at(bytes, j),
    ensures
        cbor_cut_from(bytes, k) == bytes.len(),
    decreases bytes.len() + 6 - k,
{
    if k + 6 <= bytes.len() {
        lemma_cbor_cut_none(bytes, k + 1);
    }
}

/// The pre-symbolic blocks of the map, scanning positions from `i` with the
/// current block begun at position `start`: a block closes at each
/// terminator opcode; a leading terminator halts the scan; running off the
/// map closes a final block at the map's end.
pub open spec fn blocks_from(s: Seq<Instruction>, i: int, start: int) -> Seq<(Hex, Hex)>
    decreases s.len() - i,
{
    if i < 0 || start < 0 || start > i {
        Seq::empty()
    } else if i >= s.len() {
        if i > start && start < s.len() {
            seq![(s[start].index, Hex(map_end(s) as u128))]
        } else {
            Seq::empty()
        }
    } else if spec_is_terminator(s[i].opcode.code) {
        if i == start {
            Seq::empty()
        } else {
            seq![(s[start].index, s[i].index)] + blocks_from(s, i + 1, i + 1)
        }
    } else {
        blocks_from(s, i + 1, start)
    }
}

/// Scans the whole instruction map into pre-symbolic blocks: each block runs
/// from the instruction after the previous terminator to the next
/// terminator. The blocks carry no jump and an empty stack; a symbolic run
/// fills those in later.
pub fn parse_instruction_sets(instructions: &InstructionMap) -> (r: Vec<InstructionSet>)
    requires
        instructions.wf(),
    ensures
        r@.len() == blocks_from(instructions@, 0, 0).len(),
        forall|k: int| 0 <= k < r@.len() ==> ({
            let b = #[trigger] r@[k];
            &&& b.start == blocks_from(instructions@, 0, 0)[k].0
            &&& b.end == blocks_from(instructions@, 0, 0)[k].1
            &&& b.jump is None
            &&& b.stack@ == Seq::<StackElement>::empty()
        }),
{
    let ghost m = instructions@;
    let ghost whole = blocks_from(m, 0, 0);
    let mut sets: Vec<InstructionSet> = Vec::new();
    let n = instructions.len();
    let mut pos: usize = 0;
    while pos < n
        invariant
            pos <= n,
            n == m.len(),
            m == instructions@,
            instructions.wf(),
            whole == blocks_from(m, 0, 0),
            whole =~= sets@.map_values(|b: InstructionSet| (b.start, b.end)) + blocks_from(
                m,
                pos as int,
                pos as int,
            ),
            forall|k: int| 0 <= k < sets@.len() ==> ({
                let b = #[trigger] sets@[k];
                &&& b.start == whole[k].0
                &&& b.end == whole[k].1
                &&& b.jump is None
                &&& b.stack@ == Seq::<StackElement>::empty()
            }),
        decreases n - pos,
    {
        let ins = instructions.at_position(pos);
        if is_terminator(ins.opcode.code) {
            proof {
                assert(blocks_from(m, pos as int, pos as int) =~= Seq::<(Hex, Hex)>::empty());
                assert(whole =~= sets@.map_values(|b: InstructionSet| (b.start, b.end)));
            }
            return sets;
        }
        let start_pos = pos;
        let mut j: usize = pos + 1;
        while j < n && !is_terminator(instructions.at_position(j).opcode.code)
            invariant
                start_pos < j <= n,
                n == m.len(),
                m == instructions@,
                instructions.wf(),
                blocks_from(m, j as int, start_pos as int) == blocks_from(
                    m,
                    start_pos as int,
                    start_pos as int,
                ),
            decreases n - j,
        {
            j = j + 1;
        }
        if j < n {
            // the block closes at the terminator at position j
            let set = InstructionSet {
                start: instructions.at_position(start_pos).index,
                end: instructions.at_position(j).index,
                jump: None,
                stack: Stack::new(),
            };
            proof {
                assert(blocks_from(m, j as int, start_pos as int) =~= seq![
                    (m[start_pos as int].index, m[j as int].index),
                ] + blocks_from(m, j as int + 1, j as int + 1));
            }
            sets.push(set);
            proof {
                assert(whole =~= sets@.map_values(|b: InstructionSet| (b.start, b.end))
                    + blocks_from(m, j as int + 1, j as int + 1));
                assert(sets@.last().start == whole[sets@.len() - 1].0);
                assert(sets@.last().end == whole[sets@.len() - 1].1);
            }
            pos = j + 1;
        } else {
            // the scan ran off the map: the final block closes at its end
            let ghost e = map_end(m);
            proof {
                lemma_map_index_below_end(m, m.len() - 1);
                assert(m[m.len() - 1].wf());
                assert(e < pc_bound());
            }
            let last = instructions.at_position(n - 1);
            let endv: u128 = last.index.0 + 1 + (last.args.len() as u128);
            let set = InstructionSet {
                start: instructions.at_position(start_pos).index,
                end: Hex(endv),
                jump: None,
                stack: Stack::new(),
            };
            proof {
                assert(endv == map_end(m));
                assert(blocks_from(m, j as int, start_pos as int) =~= seq![
                    (m[start_pos as int].index, Hex(map_end(m) as u128)),
                ]);
            }
            sets.push(set);
            proof {
                assert(whole =~= sets@.map_values(|b: InstructionSet| (b.start, b.end)));
                assert(sets@.last().start == whole[sets@.len() - 1].0);
                assert(sets@.last().end == whole[sets@.len() - 1].1);
            }
            return sets;
        }
    }
    proof {
        assert(blocks_from(m, pos as int, pos as int) =~= Seq::<(Hex, Hex)>::empty());
        assert(whole =~= sets@.map_values(|b: InstructionSet| (b.start, b.end)));
    }
    sets
}

/// The byte offset where the block scan beginning at position `i` closes:
/// the offset of the next terminator opcode, or the map's end where the
/// scan runs off the map.
pub open spec fn section_end_from(s: Seq<Instruction>, i: int) -> int
    decreases s.len() - i,
{
    if i < 0 || i >= s.len() {
        map_end(s)
    } else if spec_is_terminator(s[i].opcode.code) {
        s[i].index.0 as int
    } else {
        section_end_from(s, i + 1)
    }
}

/// Scans one pre-symbolic block beginning at byte offset `stack_pointer`:
/// `None` where no instruction sits there or where a terminator sits there;
/// otherwise the block up to the next terminator, with no jump and an empty
/// stack.
pub fn create_instruction_set(stack_pointer: Hex, instructions: &InstructionMap) -> (r: Option<
    InstructionSet,
>)
    requires
        instructions.wf(),
    ensures
        (r is Some) <==> (exists|i: int| 0 <= i < instructions@.len()
            && (#[trigger] instructions@[i].index.0) == stack_pointer.0
            && !spec_is_terminator(instructions@[i].opcode.code)),
        r matches Some(s) ==> ({
            let i = spec_pos_of(instructions@, stack_pointer.0);
            &&& s.start.0 == stack_pointer.0
            &&& s.end.0 == section_end_from(instructions@, i)
            &&& s.jump is None
            &&& s.stack@ == Seq::<StackElement>::empty()
        }),
{
    let ghost m = instructions@;
    let i = match instructions.get_index(stack_pointer) {
        Some(i) => i,
        None => {
            return None;
        },
    };
    proof {
        lemma_pos_of_unique(m, i as int);
    }
    let ins = instructions.at_position(i);
    if is_terminator(ins.opcode.code) {
        proof {
            assert forall|k: int| 0 <= k < m.len() && (#[trigger] m[k].index.0)
                == stack_pointer.0 implies spec_is_terminator(m[k].opcode.code) by {
                lemma_pos_of_unique(m, k);
            }
        }
        return None;
    }
    let n = instructions.len();
    let mut j: usize = i + 1;
    while j < n && !is_terminator(instructions.at_position(j).opcode.code)
        invariant
            i < j <= n,
            n == m.len(),
            m == instructions@,
            instructions.wf(),
            section_end_from(m, j as int) == section_end_from(m, i as int),
        decreases n - j,
    {
        j = j + 1;
    }
    let endv: u128;
    if j < n {
        endv = instructions.at_position(j).index.0;
    } else {
        proof {
            lemma_map_index_below_end(m, m.len() - 1);
            assert(m[m.len() - 1].wf());
        }
        let last = instructions.at_position(n - 1);
        endv = last.index.0 + 1 + (last.args.len() as u128);
        proof {
            assert(endv == map_end(m));
        }
    }
    Some(InstructionSet { start: stack_pointer, end: Hex(endv), jump: None, stack: Stack::new() })
}

/// One symbolic block run, modeled: beginning at position `i` of the map
/// with the given stack and memory, instructions take effect one after the
/// other as `spec_step` says. A conditional jump emits a block record and
/// the run continues into the fallthrough; an unconditional jump or a halt
/// emits a final block record; running off the map, and passing `end_at`,
/// end the run without a record; a failing step fails the run.
pub open spec fn run_block(
    m: Seq<Instruction>,
    i: int,
    start_pc: Hex,
    stack: Seq<StackElement>,
    mem: Seq<MemoryElement>,
    end_at: Option<Hex>,
    env: Environment,
) -> Result<Seq<SetModel>, EvmError>
    decreases m.len() - i,
{
    if i < 0 || i >= m.len() {
        Ok(Seq::empty())
    } else if end_at matches Some(e) && m[i].index.0 > e.0 {
        Ok(Seq::empty())
    } else {
        let ins = m[i];
        let st = spec_step(ins, stack, ins.index.0, mem, env);
        match st.kind {
            StepKind::Continue => run_block(m, i + 1, start_pc, st.stack, st.mem, end_at, env),
            StepKind::Jump { target, source } => Ok(
                seq![
                    SetModel {
                        start: start_pc,
                        end: ins.index,
                        target: Some(target),
                        jump: Some(
                            JumpModel {
                                jump_type: JumpType::Unconditional,
                                target,
                                source: ins.index,
                                condition: None,
                            },
                        ),
                        stack: st.stack,
                        mem: st.mem,
                    },
                ],
            ),
            StepKind::JumpI { target, condition, source } => match run_block(
                m,
                i + 1,
                start_pc,
                st.stack,
                st.mem,
                end_at,
                env,
            ) {
                Ok(rest) => Ok(
                    seq![
                        SetModel {
                            start: start_pc,
                            end: ins.index,
                            target: Some(target),
                            jump: Some(
                                JumpModel {
                                    jump_type: JumpType::Conditional,
                                    target,
                                    source: ins.index,
                                    condition: Some(condition),
                                },
                            ),
                            stack: st.stack,
                            mem: st.mem,
                        },
                    ] + rest,
                ),
                Err(e) => Err(e),
            },
            StepKind::End => Ok(
                seq![
                    SetModel {
                        start: start_pc,
                        end: ins.index,
                        target: None,
                        jump: None,
                        stack: st.stack,
                        mem: st.mem,
                    },
                ],
            ),
            StepKind::Fail { error } => Err(error),
        }
    }
}

/// The block records of one symbolic run as mathematical values.
pub open spec fn section_models(v: Seq<ParsedInstructionSet>) -> Seq<SetModel> {
    v.map_values(|p: ParsedInstructionSet| p.model())
}

/// Runs one block symbolically from byte offset `stack_pointer`, seeding the
/// machine with the given stack and memory: exactly the run that
/// `run_block` models, from the position of that offset. Each conditional
/// jump contributes a block record and the run continues past it; the run
/// ends at an unconditional jump or a halt (with a final record), past
/// `end_at`, or off the map; it fails where a step fails.
#[verifier::rlimit(80)]
pub fn parse_instruction_set(
    stack_pointer: Hex,
    instructions: &InstructionMap,
    input_stack: Option<Stack>,
    memory: Memory,
    end_at: Option<Hex>,
    env: &Environment,
) -> (r: Result<Vec<ParsedInstructionSet>, EvmError>)
    requires
        instructions.wf(),
        (input_stack matches Some(s) ==> stack_wf(s@)),
        memory.wf(),
        env_wf(*env),
    ensures
        ({
            let stk0 = match input_stack {
                Some(s) => s@,
                None => Seq::<StackElement>::empty(),
            };
            let rr = run_block(
                instructions@,
                spec_pos_of(instructions@, stack_pointer.0),
                stack_pointer,
                stk0,
                memory@,
                end_at,
                *env,
            );
            match r {
                Ok(v) => rr matches Ok(ss) && section_models(v@) == ss,
                Err(e) => rr == Err::<Seq<SetModel>, EvmError>(e),
            }
        }),
        r matches Ok(v) ==> forall|k: int| 0 <= k < v@.len() ==> stack_wf(
            (#[trigger] v@[k]).model().stack,
        ) && mem_wf(v@[k].model().mem),
{
    let ghost m = instructions@;
    let mut stack = match input_stack {
        Some(s) => s,
        None => Stack::new(),
    };
    let ghost stk0 = stack@;
    let mut mem = memory;
    let ghost mem0 = mem@;
    let ghost rr0 = run_block(
        m,
        spec_pos_of(m, stack_pointer.0),
        stack_pointer,
        stk0,
        mem0,
        end_at,
        *env,
    );
    let mut sections: Vec<ParsedInstructionSet> = Vec::new();
    let mut pc = stack_pointer;
    let n = instructions.len();
    let i0 = match instructions.get_index(stack_pointer) {
        Some(i) => i,
        None => {
            proof {
                assert(spec_pos_of(m, stack_pointer.0) == m.len()) by {
                    if exists|k: int| 0 <= k < m.len() && (#[trigger] m[k].index.0)
                        == stack_pointer.0 {
                        let k = choose|k: int| 0 <= k < m.len() && (#[trigger] m[k].index.0)
                            == stack_pointer.0;
                        assert(false);
                    }
                }
                assert(rr0 == Ok::<Seq<SetModel>, EvmError>(Seq::empty()));
                assert(section_models(sections@) =~= Seq::<SetModel>::empty());
            }
            return Ok(sections);
        },
    };
    proof {
        lemma_pos_of_unique(m, i0 as int);
        assert(Seq::<SetModel>::empty() + match rr0 {
            Ok(ss) => ss,
            Err(_) => Seq::empty(),
        } =~= match rr0 {
            Ok(ss) => ss,
            Err(_) => Seq::empty(),
        });
    }
    let mut i: usize = i0;
    while i < n
        invariant
            i <= n,
            n == m.len(),
            m == instructions@,
            instructions.wf(),
            env_wf(*env),
            stack_wf(stack@),
            mem.wf(),
            i < n ==> pc.0 == m[i as int].index.0,
            stk0 == (match input_stack {
                Some(s) => s@,
                None => Seq::<StackElement>::empty(),
            }),
            mem0 == memory@,
            rr0 == run_block(m, spec_pos_of(m, stack_pointer.0), stack_pointer, stk0, mem0, end_at, *env),
            (run_block(m, i as int, stack_pointer, stack@, mem@, end_at, *env) matches Ok(ss)
                ==> (rr0 matches Ok(f) && f == section_models(sections@) + ss)),
            (run_block(m, i as int, stack_pointer, stack@, mem@, end_at, *env) matches Err(e)
                ==> rr0 == Err::<Seq<SetModel>, EvmError>(e)),
            forall|k: int| 0 <= k < sections@.len() ==> stack_wf(
                (#[trigger] sections@[k]).model().stack,
            ) && mem_wf(sections@[k].model().mem),
        decreases n - i,
    {
        let ghost suffix = run_block(m, i as int, stack_pointer, stack@, mem@, end_at, *env);
        if let Some(e) = &end_at {
            if pc.0 > e.0 {
                proof {
                    assert(suffix == Ok::<Seq<SetModel>, EvmError>(Seq::<SetModel>::empty()));
                    assert(section_models(sections@) + Seq::<SetModel>::empty()
                        =~= section_models(sections@));
                }
                return Ok(sections);
            }
        }
        let ins = instructions.at_position(i);
        proof {
            assert(ins.wf());
            assert(pc.0 + 33 <= u128::MAX);
        }
        let ghost st = spec_step(m[i as int], stack@, pc.0, mem@, *env);
        let result = ins.parse(&mut stack, &mut pc, &mut mem, env);
        match result {
            Err(e) => {
                proof {
                    assert(suffix == Err::<Seq<SetModel>, EvmError>(e));
                }
                return Err(e);
            },
            Ok(OpCodeResult::Continue) => {
                proof {
                    assert(st.kind is Continue);
                    assert(suffix == run_block(m, i as int + 1, stack_pointer, st.stack, st.mem, end_at, *env));
                    assert(stack@ == st.stack);
                    assert(mem@ == st.mem);
                    if i + 1 < n {
                        assert(m[i as int + 1].index.0 == m[i as int].index.0 + 1
                            + m[i as int].args@.len());
                    }
                }
                pc = Hex(pc.0 + 1);
                i = i + 1;
            },
            Ok(OpCodeResult::ConditionalJumpInstruction(ji)) => {
                let target = ji.target;
                let set = ParsedInstructionSet {
                    start: stack_pointer,
                    end: pc,
                    target: Some(target),
                    jump: Some(ji),
                    stack: stack.clone(),
                    memory: mem.clone(),
                };
                proof {
                    assert(st.kind matches StepKind::JumpI { target: t, condition: c, source } && set.model()
                        == (SetModel {
                        start: stack_pointer,
                        end: m[i as int].index,
                        target: Some(t),
                        jump: Some(
                            JumpModel {
                                jump_type: JumpType::Conditional,
                                target: t,
                                source: m[i as int].index,
                                condition: Some(c),
                            },
                        ),
                        stack: st.stack,
                        mem: st.mem,
                    }));
                }
                let ghost sections0 = sections@;
                sections.push(set);
                proof {
                    assert(section_models(sections@) =~= section_models(sections0).push(
                        set.model(),
                    ));
                    let next = run_block(m, i as int + 1, stack_pointer, st.stack, st.mem, end_at, *env);
                    if next is Ok {
                        let rest = next->Ok_0;
                        assert(suffix matches Ok(ss) && ss == seq![set.model()] + rest);
                        assert(rr0 matches Ok(f) && f == section_models(sections0) + (seq![
                            set.model(),
                        ] + rest));
                        assert(section_models(sections0) + (seq![set.model()] + rest)
                            =~= section_models(sections@) + rest);
                    }
                    if i + 1 < n {
                        assert(m[i as int + 1].index.0 == m[i as int].index.0 + 1
                            + m[i as int].args@.len());
                    }
                }
                pc = Hex(pc.0 + 1);
                i = i + 1;
            },
            Ok(OpCodeResult::JumpInstruction(ji)) => {
                let target = ji.target;
                let set = ParsedInstructionSet {
                    start: stack_pointer,
                    end: pc,
                    target: Some(target),
                    jump: Some(ji),
                    stack: stack.clone(),
                    memory: mem.clone(),
                };
                let ghost sections0 = sections@;
                sections.push(set);
                proof {
                    assert(suffix matches Ok(ss) && ss == seq![set.model()]);
                    assert(section_models(sections@) =~= section_models(sections0).push(
                        set.model(),
                    ));
                    assert(section_models(sections0) + seq![set.model()]
                        =~= section_models(sections@));
                }
                return Ok(sections);
            },
            Ok(OpCodeResult::End) => {
                let set = ParsedInstructionSet {
                    start: stack_pointer,
                    end: pc,
                    target: None,
                    jump: None,
                    stack: stack.clone(),
                    memory: mem.clone(),
                };
                let ghost sections0 = sections@;
                sections.push(set);
                proof {
                    assert(suffix matches Ok(ss) && ss == seq![set.model()]);
                    assert(section_models(sections@) =~= section_models(sections0).push(
                        set.model(),
                    ));
                    assert(section_models(sections0) + seq![set.model()]
                        =~= section_models(sections@));
                }
                return Ok(sections);
            },
        }
    }
    proof {
        assert(run_block(m, i as int, stack_pointer, stack@, mem@, end_at, *env) == Ok::<
            Seq<SetModel>,
            EvmError,
        >(Seq::empty()));
        assert(section_models(sections@) + Seq::<SetModel>::empty() =~= section_models(
            sections@,
        ));
    }
    Ok(sections)
}

/// Whether the character sequence is a valid hex input: non-empty, of even
/// length, hex digits throughout.
pub open spec fn valid_hex_input(s: Seq<char>) -> bool {
    &&& s.len() > 0
    &&& s.len() % 2 == 0
    &&& forall|i: int| 0 <= i < s.len() ==> is_hex_digit(#[trigger] s[i])
}

/// The byte spelled by the digit pair at position `2k`.
pub open spec fn spec_byte_at(s: Seq<char>, k: int) -> u32 {
    (16 * hex_digit_val(s[2 * k]) + hex_digit_val(s[2 * k + 1])) as u32
}

/// Reads a hex string into bytes, two digits a byte: `None` on an empty
/// string, an odd number of digits, or a character that is no hex digit.
pub fn read_bytecode(input: String) -> (r: Option<Vec<u32>>)
    ensures
        (r is Some) <==> valid_hex_input(input@),
        r matches Some(v) ==> v@.len() == input@.len() / 2 && (forall|k: int| 0 <= k < v@.len()
            ==> (#[trigger] v@[k]) == spec_byte_at(input@, k)) && (forall|k: int|
            0 <= k < v@.len() ==> (#[trigger] v@[k]) < 256),
{
    let s = input.as_str();
    let n = s.unicode_len();
    if n == 0 {
        return None;
    }
    if n % 2 != 0 {
        return None;
    }
    let half = n / 2;
    let mut out: Vec<u32> = Vec::new();
    let mut k: usize = 0;
    while k < half
        invariant
            k <= half,
            half == n / 2,
            n == input@.len(),
            n % 2 == 0,
            input@ == s@,
            out@.len() == k,
            forall|p: int| 0 <= p < 2 * k ==> is_hex_digit(#[trigger] input@[p]),
            forall|j: int| 0 <= j < k ==> (#[trigger] out@[j]) == spec_byte_at(input@, j)
                && out@[j] < 256,
        decreases half - k,
    {
        let c0 = s.get_char(2 * k);
        let c1 = s.get_char(2 * k + 1);
        let d0 = match hex_digit(c0) {
            Some(d) => d,
            None => {
                return None;
            },
        };
        let d1 = match hex_digit(c1) {
            Some(d) => d,
            None => {
                return None;
            },
        };
        out.push(16 * d0 + d1);
        k = k + 1;
    }
    Some(out)
}

/// The decoded program: the bytecode before the CBOR trailer, the trailer
/// itself, the instruction map, and the pre-symbolic blocks of the map.
pub struct Parser {
    bytecode: Vec<u32>,
    cbor_part: Vec<u32>,
    instructions: InstructionMap,
    instruction_sets: Vec<InstructionSet>,
}

impl Parser {
    /// The bytecode that was decoded: the input up to the CBOR trailer.
    pub closed spec fn code(&self) -> Seq<u32> {
        self.bytecode@
    }

    /// The CBOR trailer that was split off, possibly empty.
    pub closed spec fn cbor(&self) -> Seq<u32> {
        self.cbor_part@
    }

    /// The decoded instructions.
    pub closed spec fn instructions_view(&self) -> Seq<Instruction> {
        self.instructions@
    }

    /// The pre-symbolic blocks.
    pub closed spec fn sets_view(&self) -> Seq<InstructionSet> {
        self.instruction_sets@
    }

    /// Decodes raw bytecode: the input is truncated at the first occurrence
    /// of the CBOR marker, the remainder is decoded into the instruction
    /// map, and the map is scanned into pre-symbolic blocks. Fails exactly
    /// where the truncated input does not decode.
    pub fn new(raw_bytecode: Vec<u32>) -> (r: Result<Parser, EvmError>)
        requires
            raw_bytecode@.len() + 40 < pc_bound(),
            raw_bytecode@.len() + 40 <= usize::MAX,
        ensures
            (r is Ok) <==> decodable_from(
                raw_bytecode@.subrange(0, cbor_cut(raw_bytecode@)),
                0,
            ),
            r matches Ok(p) ==> ({
                let cut = cbor_cut(raw_bytecode@);
                &&& p.code() == raw_bytecode@.subrange(0, cut)
                &&& p.cbor() == raw_bytecode@.subrange(cut, raw_bytecode@.len() as int)
                &&& decodes(p.code(), p.instructions_view())
                &&& map_wf(p.instructions_view())
                &&& p.sets_view().len() == blocks_from(p.instructions_view(), 0, 0).len()
                &&& forall|k: int| 0 <= k < p.sets_view().len() ==> ({
                    let b = #[trigger] p.sets_view()[k];
                    &&& b.start == blocks_from(p.instructions_view(), 0, 0)[k].0
                    &&& b.end == blocks_from(p.instructions_view(), 0, 0)[k].1
                    &&& b.jump is None
                    &&& b.stack@ == Seq::<StackElement>::empty()
                })
            }),
            r matches Err(e) ==> e == (EvmError::Decode {
                pc: Hex(
                    decode_fail_pos(raw_bytecode@.subrange(0, cbor_cut(raw_bytecode@)), 0) as u128,
                ),
            }),
    {
        let ghost raw = raw_bytecode@;
        let marker: Vec<u32> = vec![0xa2, 0x64, 0x69, 0x70, 0x66, 0x73];
        proof {
            assert(marker@ =~= cbor_marker());
        }
        let found = find_sequence(raw_bytecode.as_slice(), marker.as_slice());
        let cut: usize = match found {
            Some(i) => {
                proof {
                    lemma_matches_is_cbor(raw, i as int);
                    assert forall|k: int| 0 <= k < i implies !cbor_at(raw, k) by {
                        if cbor_at(raw, k) {
                            lemma_cbor_is_matches(raw, k);
                        }
                    }
                    lemma_cbor_cut_first(raw, 0, i as int);
                }
                i
            },
            None => {
                proof {
                    assert forall|k: int| 0 <= k implies !cbor_at(raw, k) by {
                        if cbor_at(raw, k) {
                            lemma_cbor_is_matches(raw, k);
                        }
                    }
                    lemma_cbor_cut_none(raw, 0);
                }
                raw_bytecode.len()
            },
        };
        let mut input: Vec<u32> = Vec::new();
        let mut cbor_part: Vec<u32> = Vec::new();
        let mut i: usize = 0;
        while i < cut
            invariant
                i <= cut <= raw.len(),
                raw == raw_bytecode@,
                input@ =~= raw.subrange(0, i as int),
            decreases cut - i,
        {
            input.push(raw_bytecode[i]);
            proof {
                assert(input@ =~= raw.subrange(0, i + 1));
            }
            i = i + 1;
        }
        let mut j: usize = cut;
        while j < raw_bytecode.len()
            invariant
                cut <= j <= raw.len(),
                raw == raw_bytecode@,
                cbor_part@ =~= raw.subrange(cut as int, j as int),
            decreases raw.len() - j,
        {
            cbor_part.push(raw_bytecode[j]);
            proof {
                assert(cbor_part@ =~= raw.subrange(cut as int, j + 1));
            }
            j = j + 1;
        }
        let instructions = match bytecode_to_instructions(&input) {
            Ok(m) => m,
            Err(e) => {
                return Err(e);
            },
        };
        let instruction_sets = parse_instruction_sets(&instructions);
        Ok(Parser { bytecode: input, cbor_part, instructions, instruction_sets })
    }

    /// The pre-symbolic blocks of the decoded program.
    pub fn get_instruction_sets(&self) -> (r: &Vec<InstructionSet>)
        ensures
            r@ == self.sets_view(),
    {
        &self.instruction_sets
    }

    /// The decoded instruction map.
    pub fn get_instructions(&self) -> (r: &InstructionMap)
        ensures
            r@ == self.instructions_view(),
            map_wf(r@) <==> map_wf(self.instructions_view()),
    {
        &self.instructions
    }
}

/// Where the subsequence search under `u32` equality matches, the CBOR
/// marker stands there.
proof fn lemma_matches_is_cbor(bytes: Seq<u32>, k: int)
    requires
        0 <= k,
        k + 6 <= bytes.len(),
        crate::utils::matches_at(bytes, cbor_marker(), k),
    ensures
        cbor_at(bytes, k),
{
    assert forall|j: int| 0 <= j < 6 implies bytes[k + j] == (#[trigger] cbor_marker()[j]) by {
        assert(bytes[k + j].eq_spec(&cbor_marker()[j]));
    }
}

/// And the other way round.
proof fn lemma_cbor_is_matches(bytes: Seq<u32>, k: int)
    requires
        cbor_at(bytes, k),
    ensures
        crate::utils::matches_at(bytes, cbor_marker(), k),
{
    assert forall|j: int| 0 <= j < cbor_marker().len() implies (#[trigger] bytes[k + j]).eq_spec(
        &cbor_marker()[j],
    ) by {
        assert(bytes[k + j] == cbor_marker()[j]);
    }
}

/// Decoding yields exactly one instruction per opcode byte: offsets are
/// unique, and no instruction sits at the offset of another's immediate
/// bytes.
pub proof fn lemma_one_instruction_per_opcode_byte(bytes: Seq<u32>, s: Seq<Instruction>)
    requires
        decodes(bytes, s),
    ensures
        forall|i: int, j: int| 0 <= i < s.len() && 0 <= j < s.len() && i != j
            ==> (#[trigger] s[i].index.0) != (#[trigger] s[j].index.0),
        forall|i: int, j: int| 0 <= i < s.len() && 0 <= j < s.len() && i != j
            ==> !((#[trigger] s[i].index.0) < (#[trigger] s[j].index.0) && s[j].index.0
                < s[i].index.0 + 1 + s[i].args@.len()),
{
    assert forall|i: int, j: int| 0 <= i < s.len() && 0 <= j < s.len() && i != j implies (
    #[trigger] s[i].index.0) != (#[trigger] s[j].index.0) by {
        if i < j {
            lemma_map_monotone(s, i, j);
        } else {
            lemma_map_monotone(s, j, i);
        }
    }
    assert forall|i: int, j: int| 0 <= i < s.len() && 0 <= j < s.len() && i != j implies !((
    #[trigger] s[i].index.0) < (#[trigger] s[j].index.0) && s[j].index.0 < s[i].index.0 + 1
        + s[i].args@.len()) by {
        if i < j {
            lemma_map_monotone(s, i, j);
        } else {
            lemma_map_monotone(s, j, i);
        }
    }
}

/// Nothing at or beyond the CBOR trailer is decoded: every instruction of a
/// map that decodes the bytecode before the cut lies wholly before the cut.
pub proof fn lemma_cbor_trailer_excluded(bytes: Seq<u32>, s: Seq<Instruction>, cut: int)
    requires
        0 <= cut <= bytes.len(),
        decodes(bytes.subrange(0, cut), s),
    ensures
        forall|i: int| 0 <= i < s.len() ==> (#[trigger] s[i].index.0) + 1 + s[i].args@.len()
            <= cut,
        forall|i: int| 0 <= i < s.len() ==> (#[trigger] s[i].index.0) < cut,
{
    assert forall|i: int| 0 <= i < s.len() implies (#[trigger] s[i].index.0) + 1
        + s[i].args@.len() <= cut && s[i].index.0 < cut by {
        lemma_map_index_below_end(s, i);
        assert(map_end(s) == bytes.subrange(0, cut).len());
    }
}

/// Every block a run emits begins at the run's start offset.
pub proof fn lemma_run_block_starts(
    m: Seq<Instruction>,
    i: int,
    start_pc: Hex,
    stack: Seq<StackElement>,
    mem: Seq<MemoryElement>,
    end_at: Option<Hex>,
    env: Environment,
)
    requires
        run_block(m, i, start_pc, stack, mem, end_at, env) is Ok,
    ensures
        forall|k: int| 0 <= k < run_block(m, i, start_pc, stack, mem, end_at, env)->Ok_0.len()
            ==> (#[trigger] run_block(m, i, start_pc, stack, mem, end_at, env)->Ok_0[k].start)
                == start_pc,
    decreases m.len() - i,
{
    if i < 0 || i >= m.len() {
    } else if end_at matches Some(e) && m[i].index.0 > e.0 {
    } else {
        let ins = m[i];
        let st = spec_step(ins, stack, ins.index.0, mem, env);
        match st.kind {
            StepKind::Continue => {
                lemma_run_block_starts(m, i + 1, start_pc, st.stack, st.mem, end_at, env);
            },
            StepKind::JumpI { target, condition, source } => {
                lemma_run_block_starts(m, i + 1, start_pc, st.stack, st.mem, end_at, env);
            },
            _ => {},
        }
    }
}

/// Each PUSH carries its immediate bytes with it: a decoded instruction
/// holds exactly the bytes that followed its opcode byte, as many as its
/// opcode asks for.
pub proof fn lemma_immediates_attached(bytes: Seq<u32>, s: Seq<Instruction>)
    requires
        decodes(bytes, s),
    ensures
        forall|k: int| 0 <= k < s.len() ==> (#[trigger] s[k]).args@.len() == spec_imm_count(
            s[k].opcode.code,
        ),
        forall|k: int, j: int| 0 <= k < s.len() && 0 <= j < s[k].args@.len()
            ==> (#[trigger] s[k].args@[j]).0 == bytes[s[k].index.0 + 1 + j],
{
    assert forall|k: int| 0 <= k < s.len() implies (#[trigger] s[k]).args@.len()
        == spec_imm_count(s[k].opcode.code) by {
        assert(s[k].wf());
    }
}

} // verus!
