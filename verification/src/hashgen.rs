//! The order-sensitive accumulating hash of a DC schema.
//!
//! Every structural element of a schema feeds its properties into one
//! `DCHashGenerator` in strict declaration order; the resulting 32-bit value
//! is exchanged by peers during the protocol handshake as a wire-compatibility
//! check. The accumulator therefore has to be a pure function of the sequence
//! of `add_int` / `add_string` calls: same calls, same value, on every
//! platform and in every process run. The mixing below folds each byte into
//! the running state with the 32-bit FNV-1a step; an `i32` contributes its
//! four little-endian two's-complement bytes, a string contributes its
//! character count followed by each character's code point.

use vstd::prelude::*;

verus! {

/// Initial state of the accumulator (the 32-bit FNV offset basis).
pub const HASH_SEED: u32 = 0x811c9dc5;

/// Multiplier of the per-byte mixing step (the 32-bit FNV prime).
pub const HASH_PRIME: u32 = 0x01000193;

/// One mixing step: fold byte `b` into state `h`.
pub open spec fn mix32(h: u32, b: u8) -> u32 {
    ((((h ^ (b as u32)) as int) * (HASH_PRIME as int)) % 0x1_0000_0000) as u32
}

/// Fold the four little-endian bytes of `w` into state `h`.
pub open spec fn word_hash(h: u32, w: u32) -> u32 {
    let b0 = (w % 256) as u8;
    let b1 = ((w / 256) % 256) as u8;
    let b2 = ((w / 65536) % 256) as u8;
    let b3 = (w / 16777216) as u8;
    mix32(mix32(mix32(mix32(h, b0), b1), b2), b3)
}

/// The two's-complement bit pattern of an `i32`, as a `u32`.
pub open spec fn i32_bits(i: i32) -> u32 {
    if i >= 0 {
        i as u32
    } else {
        ((i as int) + 0x1_0000_0000) as u32
    }
}

/// State after an `add_int(i)` call on state `h`.
pub open spec fn int_hash(h: u32, i: i32) -> u32 {
    word_hash(h, i32_bits(i))
}

/// State after feeding every character of `s`, in order, into state `h`.
pub open spec fn chars_hash(h: u32, s: Seq<char>) -> u32
    decreases s.len(),
{
    if s.len() == 0 {
        h
    } else {
        word_hash(chars_hash(h, s.drop_last()), s.last() as u32)
    }
}

/// The character count of `s`, truncated to 32 bits.
pub open spec fn len32(s: Seq<char>) -> u32 {
    (s.len() % 0x1_0000_0000) as u32
}

/// State after an `add_string(s)` call on state `h`: the length first,
/// then every character.
pub open spec fn str_hash(h: u32, s: Seq<char>) -> u32 {
    chars_hash(word_hash(h, len32(s)), s)
}

/// The accumulating schema hash. Its abstract value is the current 32-bit
/// state; every operation pins the new state down exactly, so the final
/// value is a pure function of the call sequence.
pub struct DCHashGenerator {
    pub hash: u32,
}

impl View for DCHashGenerator {
    type V = u32;

    open spec fn view(&self) -> u32 {
        self.hash
    }
}

impl DCHashGenerator {
    /// A fresh accumulator, in the seed state.
    pub fn new() -> (r: Self)
        ensures
            r@ == HASH_SEED,
    {
        DCHashGenerator { hash: HASH_SEED }
    }

    /// Fold one byte into the state.
    fn add_byte(&mut self, b: u8)
        ensures
            final(self)@ == mix32(old(self)@, b),
    {
        let x: u32 = self.hash ^ (b as u32);
        proof {
            assert((x as int) * (HASH_PRIME as int) <= 0xffff_ffff * (HASH_PRIME as int))
                by (nonlinear_arith)
                requires
                    x <= 0xffff_ffffu32,
            ;
        }
        let wide: u64 = (x as u64) * (HASH_PRIME as u64);
        self.hash = (wide % 0x1_0000_0000u64) as u32;
    }

    /// Fold the four little-endian bytes of `w` into the state.
    fn add_word(&mut self, w: u32)
        ensures
            final(self)@ == word_hash(old(self)@, w),
    {
        self.add_byte((w % 256) as u8);
        self.add_byte(((w / 256) % 256) as u8);
        self.add_byte(((w / 65536) % 256) as u8);
        self.add_byte((w / 16777216) as u8);
    }

    /// Feed one 32-bit signed integer into the hash.
    pub fn add_int(&mut self, i: i32)
        ensures
            final(self)@ == int_hash(old(self)@, i),
    {
        let w: u32 = if i >= 0 {
            i as u32
        } else {
            let v: i64 = (i as i64) + 0x1_0000_0000i64;
            v as u32
        };
        assert(w == i32_bits(i));
        self.add_word(w);
    }

    /// Feed one string into the hash: its character count, then each
    /// character's code point, in order.
    pub fn add_string(&mut self, s: &str)
        ensures
            final(self)@ == str_hash(old(self)@, s@),
    {
        let n: usize = s.unicode_len();
        let w: u32 = ((n as u64) % 0x1_0000_0000u64) as u32;
        assert(w == len32(s@));
        self.add_word(w);
        let ghost h1: u32 = self.hash;
        let mut i: usize = 0;
        while i < n
            invariant
                i <= n,
                n == s@.len(),
                self@ == chars_hash(h1, s@.take(i as int)),
            decreases n - i,
        {
            let c: char = s.get_char(i);
            self.add_word(c as u32);
            proof {
                assert(s@.take(i + 1 as int).drop_last() =~= s@.take(i as int));
                assert(s@.take(i + 1 as int).last() == s@[i as int]);
            }
            i = i + 1;
        }
        proof {
            assert(s@.take(n as int) =~= s@);
        }
    }

    /// The current 32-bit state.
    pub fn get_hash(&self) -> (r: u32)
        ensures
            r == self@,
    {
        self.hash
    }
}

} // verus!
