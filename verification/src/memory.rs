//! The symbolic memory: a byte-addressed, zero-extending vector of cells that
//! remember which instruction wrote them.

use vstd::prelude::*;
use vstd::arithmetic::power::{pow, lemma_pow_adds, lemma_pow_positive, lemma_pow0};
use vstd::arithmetic::div_mod::{
    lemma_truncate_middle, lemma_div_denominator, lemma_fundamental_div_mod, lemma_small_mod,
    lemma_add_mod_noop, lemma_basic_div, lemma_mod_bound,
};
use crate::hex::{Hex, word_mod};
use crate::stack::StackElement;

verus! {

/// One byte of memory: its value (below 256) and, when an instruction wrote
/// it, the program counter of that instruction.
#[derive(Clone, Copy, PartialEq, Eq, Debug)]
pub struct MemoryElement {
    pub value: Hex,
    pub origin: Option<Hex>,
}

/// The symbolic memory.
#[derive(Debug)]
pub struct Memory {
    elements: Vec<MemoryElement>,
}

/// A fresh, never-written memory cell.
pub open spec fn zero_cell() -> MemoryElement {
    MemoryElement { value: Hex(0), origin: None }
}

/// Every cell of a well-formed memory holds a single byte.
pub open spec fn mem_wf(s: Seq<MemoryElement>) -> bool {
    forall|i: int| 0 <= i < s.len() ==> (#[trigger] s[i]).value.0 < 256
}

/// The length the store operation grows a memory of length `len` to: whole
/// 32-cell strides are appended until `target` is covered.
pub open spec fn grown_len(len: int, target: int) -> int
    decreases target - len + 32,
{
    if len >= target {
        len
    } else {
        grown_len(len + 32, target)
    }
}

/// The memory after padding with fresh cells up to exactly `target` (the load
/// operation grows this way).
pub open spec fn grow_to_spec(s: Seq<MemoryElement>, target: int) -> Seq<MemoryElement> {
    if s.len() >= target {
        s
    } else {
        s + Seq::new((target - s.len()) as nat, |i: int| zero_cell())
    }
}

/// The memory after padding with fresh cells in 32-cell strides until
/// `target` is covered (the store operation grows this way).
pub open spec fn grow_strides_spec(s: Seq<MemoryElement>, target: int) -> Seq<MemoryElement> {
    s + Seq::new((grown_len(s.len() as int, target) - s.len()) as nat, |i: int| zero_cell())
}

/// The byte of `v` at power `j`: digit `j` of the base-256 representation,
/// counted from the least significant end.
pub open spec fn nth_byte(v: u128, j: nat) -> u128 {
    (((v as nat) / pow(256, j) as nat) % 256) as u128
}

/// The cell at position `k` (from 0 to 31) of the 32-byte big-endian slot a
/// store of `e` writes: the leading `32 - e.size` cells are zero and
/// originate at the storing instruction `idx`, the trailing `e.size` cells
/// hold the bytes of the value and originate at the value's own origin.
pub open spec fn stored_cell(e: StackElement, idx: Hex, k: int) -> MemoryElement {
    if k < 32 - e.size {
        MemoryElement { value: Hex(0), origin: Some(idx) }
    } else {
        MemoryElement { value: Hex(nth_byte(e.value.0, (31 - k) as nat)), origin: Some(e.origin) }
    }
}

/// The whole memory after storing `e` at `off` from the instruction at `idx`:
/// grown in strides to cover `off + 32`, with the 32-cell slot at `off`
/// rewritten and every other cell kept.
pub open spec fn mstore_spec(s: Seq<MemoryElement>, e: StackElement, off: int, idx: Hex) -> Seq<
    MemoryElement,
> {
    let g = grow_strides_spec(s, off + 32);
    Seq::new(g.len(), |i: int| if off <= i < off + 32 { stored_cell(e, idx, i - off) } else { g[i] })
}

/// The word read big-endian from the `n` cells at `off`, wrapping at the word
/// width as the accumulator of the load operation does.
pub open spec fn load_word(s: Seq<MemoryElement>, off: int, n: nat) -> int
    decreases n,
{
    if n == 0 {
        0
    } else {
        (load_word(s, off, (n - 1) as nat) * 256 + s[off + n - 1].value.0) % word_mod()
    }
}

/// The origin a load reports: the origin of the last written cell among the
/// `n` cells at `off`, or `None` when none was ever written.
pub open spec fn load_origin(s: Seq<MemoryElement>, off: int, n: nat) -> Option<Hex>
    decreases n,
{
    if n == 0 {
        None
    } else if s[off + n - 1].origin is Some {
        s[off + n - 1].origin
    } else {
        load_origin(s, off, (n - 1) as nat)
    }
}

impl View for Memory {
    type V = Seq<MemoryElement>;

    closed spec fn view(&self) -> Seq<MemoryElement> {
        self.elements@
    }
}

impl Clone for Memory {
    fn clone(&self) -> (r: Memory)
        ensures
            r@ == self@,
    {
        Memory { elements: self.elements.clone() }
    }
}

impl Memory {
    /// Every cell of the memory holds a single byte.
    pub open spec fn wf(&self) -> bool {
        mem_wf(self@)
    }

    /// An empty memory.
    pub fn new() -> (r: Memory)
        ensures
            r@ == Seq::<MemoryElement>::empty(),
            r.wf(),
    {
        Memory { elements: Vec::new() }
    }

    /// The raw cells, for inspection.
    pub fn get_contents(&self) -> (r: &Vec<MemoryElement>)
        ensures
            r@ == self@,
    {
        &self.elements
    }

    /// Reads the 32-byte big-endian word at `offset`, growing the memory with
    /// fresh cells first where it is shorter than `offset + 32`. The reported
    /// origin is the one of the last written cell of the window, or `None`
    /// when the window was never written.
    pub fn mload(&mut self, offset: Hex) -> (r: MemoryElement)
        requires
            old(self).wf(),
            offset.0 + 32 <= usize::MAX,
        ensures
            final(self).wf(),
            final(self)@ == grow_to_spec(old(self)@, offset.0 + 32),
            final(self)@.len() >= offset.0 + 32,
            r.value.0 == load_word(final(self)@, offset.0 as int, 32),
            r.origin == load_origin(final(self)@, offset.0 as int, 32),
    {
        let offset: usize = offset.0 as usize;
        let ghost s0 = self.elements@;
        while self.elements.len() < offset + 32
            invariant
                offset + 32 <= usize::MAX,
                self.elements@.len() >= s0.len(),
                s0.len() < offset + 32 ==> self.elements@.len() <= offset + 32,
                s0.len() >= offset + 32 ==> self.elements@.len() == s0.len(),
                self.elements@ == s0 + Seq::new((self.elements@.len() - s0.len()) as nat, |i: int| zero_cell()),
            decreases offset + 32 - self.elements@.len(),
        {
            self.elements.push(MemoryElement { value: Hex(0), origin: None });
            proof {
                assert(self.elements@ =~= s0 + Seq::new(
                    (self.elements@.len() - s0.len()) as nat,
                    |i: int| zero_cell(),
                ));
            }
        }
        proof {
            assert(self.elements@ =~= grow_to_spec(s0, offset + 32));
            assert(mem_wf(self.elements@));
        }
        let mut value: u128 = 0;
        let mut origin: Option<Hex> = None;
        let mut i: usize = 0;
        while i < 32
            invariant
                i <= 32,
                self.elements@.len() >= offset + 32,
                mem_wf(self.elements@),
                offset + 32 <= usize::MAX,
                value == load_word(self.elements@, offset as int, i as nat),
                origin == load_origin(self.elements@, offset as int, i as nat),
                0 <= value < word_mod(),
            decreases 32 - i,
        {
            let cell = self.elements[offset + i];
            proof {
                let m = word_mod();
                let q = m / 256;
                lemma_truncate_middle(value as int, 256, q);
                assert(256 * q == m);
                assert((256 * (value as int)) % m == 256 * ((value as int) % q));
                lemma_mod_bound(value as int, q);
                assert(256 * ((value as int) % q) <= 256 * (q - 1)) by {
                    vstd::arithmetic::mul::lemma_mul_inequality((value as int) % q, q - 1, 256);
                    vstd::arithmetic::mul::lemma_mul_is_commutative(256, (value as int) % q);
                    vstd::arithmetic::mul::lemma_mul_is_commutative(256, q - 1);
                }
                assert((value * 256) % m + cell.value.0 < m) by {
                    vstd::arithmetic::mul::lemma_mul_is_commutative(value as int, 256);
                }
                let w = (value * 256) % m;
                lemma_small_mod((w + cell.value.0) as nat, m as nat);
                lemma_add_mod_noop(value * 256, cell.value.0 as int, m);
                lemma_mod_bound(value * 256, m);
                assert(w + cell.value.0 == (value * 256 + cell.value.0) % m);
            }
            value = value.wrapping_mul(256) + cell.value.0;
            if cell.origin.is_some() {
                origin = cell.origin;
            }
            i = i + 1;
        }
        MemoryElement { value: Hex(value), origin }
    }

    /// Writes the 32-byte big-endian representation of `element` at `offset`:
    /// the memory first grows in 32-cell strides until `offset + 32` is
    /// covered, then the slot's leading `32 - size` cells become zero cells
    /// owned by the storing instruction `index`, and its trailing `size`
    /// cells take the bytes of the value, owned by the value's origin.
    pub fn mstore(&mut self, element: StackElement, offset: Hex, index: Hex)
        requires
            old(self).wf(),
            element.wf(),
            offset.0 + 64 <= usize::MAX,
        ensures
            final(self).wf(),
            final(self)@ == mstore_spec(old(self)@, element, offset.0 as int, index),
            final(self)@.len() >= offset.0 + 32,
    {
        let offset: usize = offset.0 as usize;
        let ghost s0 = self.elements@;
        let ghost target = offset + 32;
        while self.elements.len() < offset + 32
            invariant
                old(self).wf(),
                offset + 64 <= usize::MAX,
                target == offset + 32,
                self.elements@.len() >= s0.len(),
                self.elements@ == s0 + Seq::new((self.elements@.len() - s0.len()) as nat, |i: int| zero_cell()),
                grown_len(s0.len() as int, target) == grown_len(self.elements@.len() as int, target),
                self.elements@.len() < target ==> self.elements@.len() + 32 <= usize::MAX,
            decreases target + 32 - self.elements@.len(),
        {
            let ghost len_before = self.elements@.len() as int;
            let mut k: usize = 0;
            while k < 32
                invariant
                    k <= 32,
                    self.elements@.len() == len_before + k,
                    len_before + 32 <= usize::MAX,
                    self.elements@ == s0 + Seq::new(
                        (self.elements@.len() - s0.len()) as nat,
                        |i: int| zero_cell(),
                    ),
                    self.elements@.len() >= s0.len(),
                decreases 32 - k,
            {
                self.elements.push(MemoryElement { value: Hex(0), origin: None });
                proof {
                    assert(self.elements@ =~= s0 + Seq::new(
                        (self.elements@.len() - s0.len()) as nat,
                        |i: int| zero_cell(),
                    ));
                }
                k = k + 1;
            }
            proof {
                assert(len_before < target);
                assert(grown_len(len_before, target) == grown_len(len_before + 32, target));
            }
        }
        proof {
            assert(grown_len(self.elements@.len() as int, target) == self.elements@.len());
            assert(self.elements@ =~= grow_strides_spec(s0, target));
        }
        let ghost grown = self.elements@;
        // zero the leading cells of the slot
        let mut i: usize = offset;
        while i < offset + 32 - element.size
            invariant
                offset + 64 <= usize::MAX,
                offset <= i <= offset + 32 - element.size,
                element.wf(),
                self.elements@.len() == grown.len() >= offset + 32,
                forall|p: int| 0 <= p < grown.len() && !(offset <= p < i) ==> self.elements@[p] == grown[p],
                forall|p: int| offset <= p < i ==> self.elements@[p] == (MemoryElement {
                    value: Hex(0),
                    origin: Some(index),
                }),
            decreases offset + 32 - element.size - i,
        {
            self.elements[i] = MemoryElement { value: Hex(0), origin: Some(index) };
            i = i + 1;
        }
        // write the value bytes, low byte at the high end of the slot
        let ghost v = element.value.0;
        proof {
            lemma_pow0(256);
            assert((v as nat) / 1nat == v as nat);
        }
        let mut value: u128 = element.value.0;
        let mut j: usize = 0;
        while j < element.size
            invariant
                0 <= j <= element.size,
                element.wf(),
                self.elements@.len() == grown.len() >= offset + 32,
                offset + 64 <= usize::MAX,
                v == element.value.0,
                value == (v as nat) / pow(256, j as nat) as nat,
                forall|p: int| 0 <= p < grown.len() && !(offset <= p < offset + 32) ==> self.elements@[p]
                    == grown[p],
                forall|p: int| offset <= p < offset + 32 - element.size ==> self.elements@[p]
                    == (MemoryElement { value: Hex(0), origin: Some(index) }),
                forall|p: int| offset + 32 - j <= p < offset + 32 ==> self.elements@[p]
                    == stored_cell(element, index, p - offset),
                forall|p: int| offset + 32 - element.size <= p < offset + 32 - j
                    ==> self.elements@[p] == grown[p],
            decreases element.size - j,
        {
            let pos = offset + 31 - j;
            proof {
                lemma_pow_positive(256, j as nat);
                assert(value % 256 == nth_byte(v, j as nat));
                assert(31 - pos + offset == j);
                assert(pos - offset >= 32 - element.size);
            }
            self.elements[pos] = MemoryElement {
                value: Hex(value % 256),
                origin: Some(element.origin),
            };
            proof {
                let ghost kk = pos - offset;
                assert(kk == 31 - j);
                assert(!(kk < 32 - element.size));
                assert(self.elements@[pos as int].origin == Some(element.origin));
                assert(value % 256 == nth_byte(v, j as nat));
                assert(stored_cell(element, index, kk).value == Hex(nth_byte(v, (31 - kk) as nat)));
                assert((31 - kk) as nat == j as nat);
                assert(self.elements@[pos as int] == stored_cell(element, index, pos - offset));
                assert forall|p: int| offset + 32 - (j + 1) <= p < offset + 32 implies self.elements@[p]
                    == stored_cell(element, index, p - offset) by {
                }
            }
            proof {
                let jn = j as nat;
                lemma_pow_positive(256, jn);
                lemma_div_denominator(v as int, pow(256, jn) as int, 256);
                lemma_pow_adds(256, jn, 1);
                assert(pow(256, 1) == 256) by {
                    vstd::arithmetic::power::lemma_pow1(256);
                }
                assert((v as nat) / pow(256, (jn + 1) as nat) as nat == value / 256);
            }
            value = value / 256;
            j = j + 1;
        }
        proof {
            assert(final(self)@ =~= mstore_spec(s0, element, offset as int, index));
            assert forall|p: int| 0 <= p < self.elements@.len() implies (#[trigger] self.elements@[p]).value.0
                < 256 by {
                assert(mem_wf(grown));
            }
        }
    }
}

/// Storing extends the memory to at least `off + 32` and pads every fresh
/// cell, outside the written slot, with an unwritten zero cell.
pub proof fn lemma_mstore_extends(s: Seq<MemoryElement>, e: StackElement, off: int, idx: Hex)
    requires
        off >= 0,
    ensures
        mstore_spec(s, e, off, idx).len() >= off + 32,
        mstore_spec(s, e, off, idx).len() >= s.len(),
        forall|p: int| s.len() <= p < mstore_spec(s, e, off, idx).len() && !(off <= p < off + 32)
            ==> mstore_spec(s, e, off, idx)[p] == zero_cell(),
{
    lemma_grown_len_covers(s.len() as int, off + 32);
}

/// The stride growth covers its target and never shrinks.
pub proof fn lemma_grown_len_covers(len: int, target: int)
    requires
        len >= 0,
    ensures
        grown_len(len, target) >= target || grown_len(len, target) == len,
        grown_len(len, target) >= len,
        grown_len(len, target) >= target || len >= target,
    decreases target - len + 32,
{
    if len >= target {
    } else {
        lemma_grown_len_covers(len + 32, target);
    }
}

/// Reading the first `n` cells of the slot just stored: the zero prefix
/// contributes nothing, and each value byte shifts the accumulator into the
/// next base-256 digit of the stored value. At `n = 32` the accumulator is
/// the stored value itself, zero-extended.
proof fn lemma_load_stored_prefix(s: Seq<MemoryElement>, e: StackElement, off: int, idx: Hex, n: nat)
    requires
        off >= 0,
        e.wf(),
        e.value.0 < pow(256, e.size as nat),
        n <= 32,
    ensures
        load_word(mstore_spec(s, e, off, idx), off, n) == if n <= 32 - e.size {
            0int
        } else {
            ((e.value.0 as nat) / pow(256, (32 - n) as nat) as nat) as int
        },
    decreases n,
{
    let m = mstore_spec(s, e, off, idx);
    lemma_mstore_extends(s, e, off, idx);
    vstd::arithmetic::power::lemma_pow_positive(256, (32 - n) as nat);
    if n == 0 {
    } else {
        lemma_load_stored_prefix(s, e, off, idx, (n - 1) as nat);
        let prev = load_word(m, off, (n - 1) as nat);
        let cell = m[off + n - 1];
        assert(cell == stored_cell(e, idx, n - 1));
        if n <= 32 - e.size {
            assert(prev == 0);
            assert(cell.value.0 == 0);
            lemma_small_mod(0nat, word_mod() as nat);
        } else {
            let j = (32 - n) as nat;
            lemma_pow_positive(256, j);
            lemma_pow_positive(256, j + 1);
            let a = (e.value.0 as nat) / pow(256, (j + 1) as nat) as nat;
            let b = (e.value.0 as nat) / pow(256, j) as nat;
            if n - 1 <= 32 - e.size {
                // first value byte: the previous accumulator is zero and
                // the quotient by pow(256, j + 1) is zero as well
                assert(prev == 0);
                if n - 1 == 32 - e.size {
                    assert(j + 1 == e.size);
                    lemma_basic_div(e.value.0 as int, pow(256, (j + 1) as nat) as int);
                    assert(a == 0);
                } else {
                    assert(n <= 32 - e.size + 1);
                    assert(false);
                }
            } else {
                assert(prev == a);
            }
            // b == 256 * a + nth_byte(v, j)
            lemma_div_denominator(e.value.0 as int, pow(256, j) as int, 256);
            lemma_pow_adds(256, j, 1);
            assert(pow(256, 1) == 256) by {
                vstd::arithmetic::power::lemma_pow1(256);
            }
            assert(b / 256 == a);
            lemma_fundamental_div_mod(b as int, 256);
            assert(cell.value.0 == nth_byte(e.value.0, j));
            assert(nth_byte(e.value.0, j) == b % 256);
            assert(prev * 256 + cell.value.0 == b);
            assert(b <= e.value.0) by {
                vstd::arithmetic::div_mod::lemma_div_is_ordered_by_denominator(
                    e.value.0 as int,
                    1,
                    pow(256, j) as int,
                );
                vstd::arithmetic::div_mod::lemma_div_by_self(1);
            }
            lemma_small_mod(b, word_mod() as nat);
        }
    }
}

/// Storing an element and loading the same offset back yields the stored
/// value zero-extended to the full slot, owned by the value's origin.
pub proof fn lemma_mstore_then_mload(s: Seq<MemoryElement>, e: StackElement, off: int, idx: Hex)
    requires
        off >= 0,
        e.wf(),
        e.value.0 < pow(256, e.size as nat),
    ensures
        load_word(mstore_spec(s, e, off, idx), off, 32) == e.value.0,
        load_origin(mstore_spec(s, e, off, idx), off, 32) == Some(e.origin),
        grow_to_spec(mstore_spec(s, e, off, idx), off + 32) == mstore_spec(s, e, off, idx),
{
    lemma_load_stored_prefix(s, e, off, idx, 32);
    assert(pow(256, 0) == 1) by {
        lemma_pow0(256);
    }
    assert((e.value.0 as nat) / 1nat == e.value.0 as nat);
    let m = mstore_spec(s, e, off, idx);
    lemma_mstore_extends(s, e, off, idx);
    assert(m[off + 31] == stored_cell(e, idx, 31));
    assert(m[off + 31].origin == Some(e.origin));
}

} // verus!
