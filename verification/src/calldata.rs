//! The call environment: hex-encoded calldata, the configured call value,
//! and the parsing of a call value from the command line.

use vstd::prelude::*;
use vstd::arithmetic::power2::{pow2, lemma_pow2_adds, lemma2_to64};
use crate::errors::EvmError;
use crate::hex::{Hex, word_mod, hex_digit, hex_digit_val, is_hex_digit, dec_digit, dec_digit_val, word_append_digit};
use crate::stack::StackElement;

verus! {

/// The calldata of the analyzed call, as the hex string it was configured
/// with: two hex digits stand for one byte.
pub struct CallData {
    value: String,
}

/// Whether the 32-byte window at byte offset `off` can be read: every
/// configured hex digit among digit positions `2*off .. 2*off + 64` is a
/// hex digit (positions past the end of the string are free: they read as
/// zero).
pub open spec fn window_ok(s: Seq<char>, off: int) -> bool {
    forall|i: int| 2 * off <= i < 2 * off + 64 && 0 <= i < s.len()
        ==> is_hex_digit(#[trigger] s[i])
}

/// The big-endian value of `n` hex digits beginning at digit position `d0`,
/// wrapping at the word width as a load does; positions outside the string,
/// and characters that are no hex digits, read as zero.
pub open spec fn window_val(s: Seq<char>, d0: int, n: nat) -> int
    decreases n,
{
    if n == 0 {
        0
    } else {
        let p = d0 + n - 1;
        let d = if 0 <= p < s.len() && is_hex_digit(s[p]) {
            hex_digit_val(s[p])
        } else {
            0
        };
        (window_val(s, d0, (n - 1) as nat) * 16 + d) % word_mod()
    }
}

/// A window that begins past the end of the string reads as zero.
pub proof fn lemma_window_val_past_end(s: Seq<char>, d0: int, n: nat)
    requires
        d0 >= s.len(),
    ensures
        window_val(s, d0, n) == 0,
    decreases n,
{
    if n > 0 {
        lemma_window_val_past_end(s, d0, (n - 1) as nat);
    }
}

impl View for CallData {
    type V = Seq<char>;

    closed spec fn view(&self) -> Seq<char> {
        self.value@
    }
}

impl CallData {
    /// Wraps the configured hex string.
    pub fn new(value: String) -> (r: CallData)
        ensures
            r@ == value@,
    {
        CallData { value }
    }

    /// Reads the 32-byte window at byte offset `offset`: sixty-four hex
    /// digits beginning at digit `2 * offset`, big-endian, zero-extended
    /// past the end of the calldata, wrapping at the word width. Fails when
    /// a configured character of the window is no hex digit.
    pub fn get(&self, offset: usize) -> (r: Result<StackElement, EvmError>)
        ensures
            r is Ok <==> window_ok(self@, offset as int),
            r matches Ok(e) ==> e == (StackElement {
                value: Hex(window_val(self@, 2 * (offset as int), 64) as u128),
                origin: Hex(0),
                size: 32usize,
            }),
            r is Err ==> r == Err::<StackElement, EvmError>(EvmError::Input),
    {
        let n = self.value.as_str().unicode_len();
        let mut val: u128 = 0;
        let mut i: usize = 0;
        while i < 64
            invariant
                i <= 64,
                n == self@.len(),
                val == window_val(self@, 2 * (offset as int), i as nat),
                forall|p: int| 2 * (offset as int) <= p < 2 * (offset as int) + i
                    && 0 <= p < self@.len() ==> is_hex_digit(#[trigger] self@[p]),
            decreases 64 - i,
        {
            let dpos: u128 = 2 * (offset as u128) + (i as u128);
            if dpos < n as u128 {
                let pos: usize = 2 * offset + i;
                let c = self.value.as_str().get_char(pos);
                match hex_digit(c) {
                    Some(d) => {
                        val = word_append_digit(val, d as u128);
                    },
                    None => {
                        return Err(EvmError::Input);
                    },
                }
            } else {
                val = word_append_digit(val, 0);
            }
            i = i + 1;
        }
        Ok(StackElement { value: Hex(val), origin: Hex(0), size: 32 })
    }

    /// The byte length of the calldata: half its digit count, as a stack
    /// element owed to no instruction.
    pub fn size(&self) -> (r: StackElement)
        ensures
            r == (StackElement { value: Hex((self@.len() / 2) as u128), origin: Hex(0), size: 1usize }),
    {
        let size = self.value.as_str().unicode_len() / 2;
        StackElement { value: Hex(size as u128), origin: Hex(0), size: 1 }
    }
}

/// The read-only environment of one analysis: calldata and call value are
/// configured once and consulted by the interpreter.
pub struct Environment {
    pub calldata: Option<CallData>,
    pub callvalue: Option<StackElement>,
}

impl Environment {
    /// An environment with neither calldata nor call value configured.
    pub fn new() -> (r: Environment)
        ensures
            r.calldata is None,
            r.callvalue is None,
    {
        Environment { calldata: None, callvalue: None }
    }
}

/// The value of the first `n` characters of `s` read as a decimal number;
/// characters that are no digits read as zero.
pub open spec fn dec_word(s: Seq<char>, n: nat) -> int
    decreases n,
{
    if n == 0 {
        0
    } else {
        let d = if dec_digit_val(s[n - 1]) >= 0 {
            dec_digit_val(s[n - 1])
        } else {
            0
        };
        dec_word(s, (n - 1) as nat) * 10 + d
    }
}

/// A decimal reading only grows as more digits are taken.
pub proof fn lemma_dec_word_monotone(s: Seq<char>, m: nat, n: nat)
    requires
        m <= n,
    ensures
        0 <= dec_word(s, m) <= dec_word(s, n),
    decreases n,
{
    if n > 0 {
        if m == n {
            lemma_dec_word_monotone(s, (n - 1) as nat, (n - 1) as nat);
            assert(dec_word(s, (n - 1) as nat) * 10 >= dec_word(s, (n - 1) as nat))
                by (nonlinear_arith)
                requires dec_word(s, (n - 1) as nat) >= 0,
            ;
        } else {
            lemma_dec_word_monotone(s, m, (n - 1) as nat);
            assert(dec_word(s, (n - 1) as nat) * 10 >= dec_word(s, (n - 1) as nat))
                by (nonlinear_arith)
                requires dec_word(s, (n - 1) as nat) >= 0,
            ;
        }
    }
}

/// How many bytes a value occupies: one for values below 256, one more for
/// each further power.
pub open spec fn byte_len(v: nat) -> nat
    decreases v,
{
    if v < 256 {
        1
    } else {
        1 + byte_len(v / 256)
    }
}

/// Parses a decimal call value into a stack element owed to no instruction,
/// sized to the bytes the value occupies. Fails on an empty string, a
/// character that is no digit, or a value that does not fit the word.
pub fn parse_callvalue(value: &str) -> (r: Result<StackElement, EvmError>)
    ensures
        r is Ok <==> value@.len() > 0 && (forall|i: int| 0 <= i < value@.len()
            ==> dec_digit_val(#[trigger] value@[i]) >= 0) && dec_word(value@, value@.len())
            < word_mod(),
        r matches Ok(e) ==> e == (StackElement {
            value: Hex(dec_word(value@, value@.len()) as u128),
            origin: Hex(0),
            size: byte_len(dec_word(value@, value@.len()) as nat) as usize,
        }),
        r is Err ==> r == Err::<StackElement, EvmError>(EvmError::Input),
{
    let n = value.unicode_len();
    if n == 0 {
        return Err(EvmError::Input);
    }
    let mut val: u128 = 0;
    let mut i: usize = 0;
    while i < n
        invariant
            i <= n,
            n == value@.len(),
            val == dec_word(value@, i as nat),
            forall|p: int| 0 <= p < i ==> dec_digit_val(#[trigger] value@[p]) >= 0,
        decreases n - i,
    {
        let c = value.get_char(i);
        let d = match dec_digit(c) {
            Some(d) => d,
            None => {
                return Err(EvmError::Input);
            },
        };
        if val > (u128::MAX - d as u128) / 10 {
            proof {
                assert(val * 10 + d > u128::MAX) by (nonlinear_arith)
                    requires
                        val > (u128::MAX - d as u128) / 10,
                        0 <= d < 10,
                ;
                assert(dec_word(value@, (i + 1) as nat) == val * 10 + d);
                lemma_dec_word_monotone(value@, (i + 1) as nat, n as nat);
                assert(dec_word(value@, n as nat) >= word_mod());
            }
            return Err(EvmError::Input);
        }
        proof {
            assert(val * 10 + d <= u128::MAX) by (nonlinear_arith)
                requires
                    val <= (u128::MAX - d as u128) / 10,
                    0 <= d < 10,
            ;
        }
        val = val * 10 + d as u128;
        i = i + 1;
    }
    // the byte width of the value
    let ghost full = val;
    proof {
        lemma_byte_len_small(full as nat);
    }
    let mut size: usize = 1;
    let mut w: u128 = val;
    while w >= 256
        invariant
            size >= 1,
            byte_len(full as nat) <= 16,
            byte_len(full as nat) == size - 1 + byte_len(w as nat),
            w <= full,
            full == val,
            size <= 16,
        decreases w,
    {
        proof {
            assert(byte_len((w / 256) as nat) >= 1);
        }
        w = w / 256;
        size = size + 1;
    }
    Ok(StackElement { value: Hex(val), origin: Hex(0), size })
}

/// A word's byte width never exceeds sixteen.
pub proof fn lemma_byte_len_small(v: nat)
    requires
        v <= u128::MAX,
    ensures
        1 <= byte_len(v) <= 16,
    decreases v,
{
    if v >= 256 {
        lemma_byte_len_small(v / 256);
        if byte_len(v / 256) >= 16 {
            lemma_byte_len_pow(v as int, 16);
            assert(vstd::arithmetic::power::pow(256, 16) > u128::MAX) by {
                vstd::arithmetic::power::lemma_pow_multiplies(2, 8, 16);
                vstd::arithmetic::power2::lemma_pow2(8);
                vstd::arithmetic::power2::lemma_pow2(128);
                vstd::arithmetic::power2::lemma2_to64();
                vstd::arithmetic::power2::lemma_pow2_adds(64, 64);
                assert(vstd::arithmetic::power2::pow2(128) == 0x100000000000000000000000000000000int);
            }
        }
    }
}

/// A value whose byte width exceeds `k` is at least 256^k.
proof fn lemma_byte_len_pow(v: int, k: nat)
    requires
        v >= 0,
        byte_len(v as nat) >= k + 1,
        k >= 1,
    ensures
        v >= vstd::arithmetic::power::pow(256, k),
    decreases k,
{
    vstd::arithmetic::power::lemma_pow_positive(256, (k - 1) as nat);
    if k == 1 {
        assert(vstd::arithmetic::power::pow(256, 1) == 256) by {
            vstd::arithmetic::power::lemma_pow1(256);
        }
        assert(v >= 256);
    } else {
        assert(v >= 256);
        lemma_byte_len_pow(v / 256, (k - 1) as nat);
        assert(v / 256 >= vstd::arithmetic::power::pow(256, (k - 1) as nat));
        assert(v >= 256 * (v / 256)) by {
            vstd::arithmetic::div_mod::lemma_fundamental_div_mod(v, 256);
        }
        assert(256 * (v / 256) >= 256 * vstd::arithmetic::power::pow(256, (k - 1) as nat)) by (nonlinear_arith)
            requires v / 256 >= vstd::arithmetic::power::pow(256, (k - 1) as nat),
        ;
        assert(256 * vstd::arithmetic::power::pow(256, (k - 1) as nat) == vstd::arithmetic::power::pow(256, k)) by {
            vstd::arithmetic::power::lemma_pow_adds(256, 1, (k - 1) as nat);
            vstd::arithmetic::power::lemma_pow1(256);
        }
    }
}

} // verus!
