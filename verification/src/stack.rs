//! The symbolic runtime stack: a LIFO of elements that carry, beside their
//! value, the program counter of the instruction that produced them.

use vstd::prelude::*;
use crate::hex::Hex;

verus! {

/// One symbolic stack slot: a word, the program counter of the instruction
/// that produced it, and the byte width the value occupied when pushed.
#[derive(Clone, Copy, PartialEq, Eq, Structural, Debug)]
pub struct StackElement {
    pub value: Hex,
    pub origin: Hex,
    pub size: usize,
}

impl StackElement {
    /// The width of a pushed value lies between one byte and a full slot.
    pub open spec fn wf(self) -> bool {
        1 <= self.size <= 32
    }
}

/// The symbolic stack itself.
#[derive(Debug)]
pub struct Stack {
    elements: Vec<StackElement>,
}

impl View for Stack {
    type V = Seq<StackElement>;

    closed spec fn view(&self) -> Seq<StackElement> {
        self.elements@
    }
}

impl Clone for Stack {
    fn clone(&self) -> (r: Stack)
        ensures
            r@ == self@,
    {
        Stack { elements: self.elements.clone() }
    }
}

impl Stack {
    /// An empty stack.
    pub fn new() -> (r: Stack)
        ensures
            r@ == Seq::<StackElement>::empty(),
    {
        Stack { elements: Vec::new() }
    }

    /// Removes and returns the top element; `None` when the stack is empty.
    pub fn pop(&mut self) -> (r: Option<StackElement>)
        ensures
            old(self)@.len() == 0 ==> r is None && final(self)@ == old(self)@,
            old(self)@.len() > 0 ==> r == Some(old(self)@.last())
                && final(self)@ == old(self)@.drop_last(),
    {
        self.elements.pop()
    }

    /// Pushes an element on top.
    pub fn push(&mut self, element: StackElement)
        ensures
            final(self)@ == old(self)@.push(element),
    {
        self.elements.push(element);
    }

    /// Appends the elements of another stack on top, bottom of `elements`
    /// first.
    pub fn extend(&mut self, elements: Stack)
        ensures
            final(self)@ == old(self)@ + elements@,
    {
        let mut other = elements;
        let n = other.elements.len();
        let mut i: usize = 0;
        while i < n
            invariant
                i <= n,
                n == other.elements@.len(),
                self.elements@ == old(self).elements@ + other.elements@.take(i as int),
            decreases n - i,
        {
            let e = other.elements[i];
            self.elements.push(e);
            proof {
                assert(other.elements@.take(i + 1) == other.elements@.take(i as int).push(e));
            }
            i = i + 1;
        }
        proof {
            assert(other.elements@.take(n as int) == other.elements@);
        }
    }

    /// The element at position `index` counted from the bottom.
    pub fn get(&self, index: usize) -> (r: Option<&StackElement>)
        ensures
            index < self@.len() ==> r == Some(&self@[index as int]),
            index >= self@.len() ==> r is None,
    {
        if index < self.elements.len() {
            Some(&self.elements[index])
        } else {
            None
        }
    }

    /// Exchanges the elements at positions `a` and `b` (from the bottom).
    pub fn swap(&mut self, a: usize, b: usize)
        requires
            a < old(self)@.len(),
            b < old(self)@.len(),
        ensures
            final(self)@ == old(self)@.update(a as int, old(self)@[b as int])
                .update(b as int, old(self)@[a as int]),
    {
        let x = self.elements[a];
        let y = self.elements[b];
        self.elements[a] = y;
        self.elements[b] = x;
    }

    /// The number of elements held.
    pub fn len(&self) -> (r: usize)
        ensures
            r == self@.len(),
    {
        self.elements.len()
    }
}

/// Exchanging two positions and then exchanging them again restores every
/// element: the double swap is the identity on the stack's contents.
pub proof fn lemma_swap_twice_identity(s: Seq<StackElement>, a: int, b: int)
    requires
        0 <= a < s.len(),
        0 <= b < s.len(),
    ensures
        ({
            let t = s.update(a, s[b]).update(b, s[a]);
            t.update(a, t[b]).update(b, t[a]) == s
        }),
{
    let t = s.update(a, s[b]).update(b, s[a]);
    let u = t.update(a, t[b]).update(b, t[a]);
    assert(u =~= s);
}

} // verus!
