//! The machine word of the analyzer: an unsigned 128-bit integer with
//! wrapping arithmetic, as EVM stack values are modeled here.

use vstd::prelude::*;
use vstd::arithmetic::power2::{pow2, lemma_pow2_strictly_increases, lemma_pow2_adds, lemma_pow2_pos};

verus! {

/// The modulus of the word type: 2^128.
pub open spec fn word_mod() -> int {
    0x100000000000000000000000000000000int
}

/// An EVM word: an unsigned integer with wrapping semantics at 128 bits.
#[derive(Clone, Copy, PartialEq, Eq, Structural, Hash, Debug)]
pub struct Hex(pub u128);

impl Hex {
    /// Addition modulo 2^128.
    pub fn wrapping_add(self, rhs: Hex) -> (r: Hex)
        ensures
            r.0 == (self.0 + rhs.0) % word_mod(),
    {
        Hex(self.0.wrapping_add(rhs.0))
    }

    /// Subtraction modulo 2^128.
    pub fn wrapping_sub(self, rhs: Hex) -> (r: Hex)
        ensures
            r.0 == (self.0 - rhs.0) % word_mod(),
    {
        Hex(self.0.wrapping_sub(rhs.0))
    }

    /// Multiplication modulo 2^128.
    pub fn wrapping_mul(self, rhs: Hex) -> (r: Hex)
        ensures
            r.0 == (self.0 * rhs.0) % word_mod(),
    {
        Hex(self.0.wrapping_mul(rhs.0))
    }

    /// Remainder; a zero divisor yields zero, as EVM's MOD does.
    pub fn modulo(self, rhs: Hex) -> (r: Hex)
        ensures
            r.0 == if rhs.0 == 0 { 0int } else { (self.0 % rhs.0) as int },
    {
        if rhs.0 == 0 {
            Hex(0)
        } else {
            Hex(self.0 % rhs.0)
        }
    }

    /// Bitwise and.
    pub fn bitand(self, rhs: Hex) -> (r: Hex)
        ensures
            r.0 == self.0 & rhs.0,
    {
        Hex(self.0 & rhs.0)
    }

    /// Logical shift left; a shift of the word width or more yields zero.
    pub fn shl(self, shift: Hex) -> (r: Hex)
        ensures
            r.0 == if shift.0 >= 128 { 0int } else { (self.0 * pow2(shift.0 as nat)) % word_mod() },
    {
        if shift.0 >= 128 {
            Hex(0)
        } else {
            let p = pow2_u128(shift.0 as u32);
            Hex(self.0.wrapping_mul(p))
        }
    }

    /// Logical shift right; a shift of the word width or more yields zero.
    pub fn shr(self, shift: Hex) -> (r: Hex)
        ensures
            r.0 == if shift.0 >= 128 { 0int } else { self.0 as int / pow2(shift.0 as nat) as int },
    {
        if shift.0 >= 128 {
            Hex(0)
        } else {
            let p = pow2_u128(shift.0 as u32);
            proof {
                lemma_pow2_pos(shift.0 as nat);
            }
            Hex(self.0 / p)
        }
    }

    /// The word holding a `usize` value.
    pub fn from_usize(v: usize) -> (r: Hex)
        ensures
            r.0 == v,
    {
        Hex(v as u128)
    }
}

/// Shifts a word accumulator one byte left, wrapping at the word width, and
/// brings the byte `b` in at the low end.
pub fn word_append_byte(v: u128, b: u128) -> (r: u128)
    requires
        b < 256,
    ensures
        r == (v * 256 + b) % word_mod(),
{
    proof {
        let m = word_mod();
        let q = m / 256;
        vstd::arithmetic::div_mod::lemma_truncate_middle(v as int, 256, q);
        assert((256 * (v as int)) % m == 256 * ((v as int) % q));
        vstd::arithmetic::div_mod::lemma_mod_bound(v as int, q);
        assert(256 * ((v as int) % q) <= 256 * (q - 1)) by {
            vstd::arithmetic::mul::lemma_mul_inequality((v as int) % q, q - 1, 256);
        }
        assert((v * 256) % m + b < m) by {
            vstd::arithmetic::mul::lemma_mul_is_commutative(v as int, 256);
        }
        let w = (v * 256) % m;
        vstd::arithmetic::div_mod::lemma_small_mod((w + b) as nat, m as nat);
        vstd::arithmetic::div_mod::lemma_add_mod_noop(v * 256, b as int, m);
        vstd::arithmetic::div_mod::lemma_mod_bound(v * 256, m);
        assert(w + b == (v * 256 + b) % m);
    }
    v.wrapping_mul(256) + b
}

/// Shifts a word accumulator one hex digit left, wrapping at the word
/// width, and brings the digit `d` in at the low end.
pub fn word_append_digit(v: u128, d: u128) -> (r: u128)
    requires
        d < 16,
    ensures
        r == (v * 16 + d) % word_mod(),
{
    proof {
        let m = word_mod();
        let q = m / 16;
        vstd::arithmetic::div_mod::lemma_truncate_middle(v as int, 16, q);
        assert((16 * (v as int)) % m == 16 * ((v as int) % q));
        vstd::arithmetic::div_mod::lemma_mod_bound(v as int, q);
        assert(16 * ((v as int) % q) <= 16 * (q - 1)) by {
            vstd::arithmetic::mul::lemma_mul_inequality((v as int) % q, q - 1, 16);
        }
        assert((v * 16) % m + d < m) by {
            vstd::arithmetic::mul::lemma_mul_is_commutative(v as int, 16);
        }
        let w = (v * 16) % m;
        vstd::arithmetic::div_mod::lemma_small_mod((w + d) as nat, m as nat);
        vstd::arithmetic::div_mod::lemma_add_mod_noop(v * 16, d as int, m);
        vstd::arithmetic::div_mod::lemma_mod_bound(v * 16, m);
        assert(w + d == (v * 16 + d) % m);
    }
    v.wrapping_mul(16) + d
}

/// The value of a hexadecimal digit character, or -1 where the character is
/// no such digit.
pub open spec fn hex_digit_val(c: char) -> int {
    let u = c as u32;
    if 48 <= u <= 57 {
        u - 48
    } else if 97 <= u <= 102 {
        u - 87
    } else if 65 <= u <= 70 {
        u - 55
    } else {
        -1
    }
}

/// Whether the character is a hexadecimal digit.
pub open spec fn is_hex_digit(c: char) -> bool {
    hex_digit_val(c) >= 0
}

/// The value of a decimal digit character, or -1 where the character is no
/// such digit.
pub open spec fn dec_digit_val(c: char) -> int {
    let u = c as u32;
    if 48 <= u <= 57 {
        u - 48
    } else {
        -1
    }
}

/// The value of a hexadecimal digit character.
pub fn hex_digit(c: char) -> (r: Option<u32>)
    ensures
        r is Some <==> is_hex_digit(c),
        r is Some ==> r->0 == hex_digit_val(c) && r->0 < 16,
{
    let u = c as u32;
    if 48 <= u && u <= 57 {
        Some(u - 48)
    } else if 97 <= u && u <= 102 {
        Some(u - 87)
    } else if 65 <= u && u <= 70 {
        Some(u - 55)
    } else {
        None
    }
}

/// The value of a decimal digit character.
pub fn dec_digit(c: char) -> (r: Option<u32>)
    ensures
        r is Some <==> dec_digit_val(c) >= 0,
        r is Some ==> r->0 == dec_digit_val(c) && r->0 < 10,
{
    let u = c as u32;
    if 48 <= u && u <= 57 {
        Some(u - 48)
    } else {
        None
    }
}

/// The character of one hexadecimal digit value.
pub open spec fn hex_char_of(d: int) -> char {
    if d == 0 { '0' } else if d == 1 { '1' } else if d == 2 { '2' } else if d == 3 { '3' }
    else if d == 4 { '4' } else if d == 5 { '5' } else if d == 6 { '6' } else if d == 7 { '7' }
    else if d == 8 { '8' } else if d == 9 { '9' } else if d == 10 { 'a' } else if d == 11 { 'b' }
    else if d == 12 { 'c' } else if d == 13 { 'd' } else if d == 14 { 'e' } else { 'f' }
}

/// The hexadecimal digit characters of a value, most significant first; zero
/// reads as a single digit.
pub open spec fn hex_digits(v: nat) -> Seq<char>
    decreases v,
{
    if v < 16 {
        seq![hex_char_of(v as int)]
    } else {
        hex_digits(v / 16).push(hex_char_of((v % 16) as int))
    }
}

/// One hexadecimal digit as a string slice.
fn digit_str(d: u128) -> (r: &'static str)
    requires
        d < 16,
    ensures
        r@ == seq![hex_char_of(d as int)],
{
    proof {
        reveal_strlit("0"); reveal_strlit("1"); reveal_strlit("2"); reveal_strlit("3");
        reveal_strlit("4"); reveal_strlit("5"); reveal_strlit("6"); reveal_strlit("7");
        reveal_strlit("8"); reveal_strlit("9"); reveal_strlit("a"); reveal_strlit("b");
        reveal_strlit("c"); reveal_strlit("d"); reveal_strlit("e"); reveal_strlit("f");
    }
    let r = match d {
        0 => "0", 1 => "1", 2 => "2", 3 => "3", 4 => "4", 5 => "5", 6 => "6", 7 => "7",
        8 => "8", 9 => "9", 10 => "a", 11 => "b", 12 => "c", 13 => "d", 14 => "e", _ => "f",
    };
    proof {
        assert(r@ =~= seq![hex_char_of(d as int)]);
    }
    r
}

/// The word's value as lower-case hexadecimal digits.
fn hex_string_rec(v: u128) -> (r: String)
    ensures
        r@ == hex_digits(v as nat),
    decreases v,
{
    if v < 16 {
        let mut s = String::new();
        s.append(digit_str(v));
        proof {
            assert(s@ =~= hex_digits(v as nat));
        }
        s
    } else {
        let mut s = hex_string_rec(v / 16);
        s.append(digit_str(v % 16));
        proof {
            assert(s@ =~= hex_digits(v as nat));
        }
        s
    }
}

/// Renders a word as lower-case hexadecimal digits, without a prefix.
pub fn hex_string(h: Hex) -> (r: String)
    ensures
        r@ == hex_digits(h.0 as nat),
{
    hex_string_rec(h.0)
}

impl Default for Hex {
    /// The zero word.
    fn default() -> (r: Hex)
        ensures
            r.0 == 0,
    {
        Hex(0)
    }
}

/// 2^e as a word, for exponents below the word width.
fn pow2_u128(e: u32) -> (r: u128)
    requires
        e < 128,
    ensures
        r == pow2(e as nat),
{
    let mut i: u32 = 0;
    let mut p: u128 = 1;
    proof {
        assert(pow2(0) == 1) by {
            vstd::arithmetic::power2::lemma2_to64();
        }
    }
    while i < e
        invariant
            i <= e,
            e < 128,
            p == pow2(i as nat),
        decreases e - i,
    {
        proof {
            lemma_pow2_adds(i as nat, 1);
            vstd::arithmetic::power2::lemma2_to64();
            lemma_pow2_strictly_increases(i as nat + 1, 128);
            lemma_pow2_adds(64, 64);
            assert(pow2(128) == 0x100000000000000000000000000000000int);
            assert(p * 2 == pow2(i as nat + 1));
        }
        p = p * 2;
        i = i + 1;
    }
    p
}

} // verus!
