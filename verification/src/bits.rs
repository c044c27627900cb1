//! The bit accumulator: fields narrower than a byte, most significant bit
//! first, across byte boundaries.

use vstd::prelude::*;
use vstd::arithmetic::div_mod::{lemma_mod_bound, lemma_small_mod};
use vstd::arithmetic::power2::{lemma2_to64, lemma_pow2_adds, lemma_pow2_pos, pow2};
use vstd::slice::slice_subrange;
use crate::decoder::DecoderState;
use crate::encoder::EncoderState;
use crate::error::Error;
use crate::wire::{lemma_div_bound, lemma_pow2_bound, pow2_small};

verus! {

/// A 32-bit register with a count of the bits it holds: what is left of a
/// byte when a field ends inside it. It never holds a whole byte between two
/// operations.
#[derive(Clone, Copy, Debug)]
pub struct BitContainer {
    bits: u32,
    valid_bits: u8,
}

impl BitContainer {
    #[verifier::type_invariant]
    spec fn inv(self) -> bool {
        self.valid_bits < 8 && self.bits < pow2(self.valid_bits as nat)
    }

    /// The bits held, as a number.
    pub closed spec fn held(&self) -> nat {
        (self.bits as nat) % pow2(self.count())
    }

    /// How many bits are held.
    pub closed spec fn count(&self) -> nat {
        (self.valid_bits % 8) as nat
    }

    /// Fewer than eight bits are held, and as a number they stay below two
    /// to the power of their count.
    pub proof fn lemma_bound(&self)
        ensures
            self.count() < 8,
            self.held() < pow2(self.count()),
    {
        lemma_pow2_pos(self.count());
        lemma_mod_bound(self.bits as int, pow2(self.count()) as int);
    }

    proof fn lemma_plain(self)
        requires
            self.valid_bits < 8,
            self.bits < pow2(self.valid_bits as nat),
        ensures
            self.count() == self.valid_bits,
            self.held() == self.bits,
    {
        lemma_small_mod(self.bits as nat, pow2(self.valid_bits as nat));
    }

    /// The decoder state with these bits buffered in front of `bytes`.
    pub open spec fn before(&self, bytes: Seq<u8>) -> DecoderState {
        DecoderState { bytes, bits: self.held(), valid_bits: self.count() }
    }

    /// The encoder state with these bits waiting behind `bytes`.
    pub open spec fn behind(&self, bytes: Seq<u8>) -> EncoderState {
        EncoderState { bytes, bits: self.held(), valid_bits: self.count() }
    }

    /// An empty register.
    pub fn new() -> (c: BitContainer)
        ensures
            c.held() == 0,
            c.count() == 0,
    {
        proof {
            lemma2_to64();
        }
        let c = BitContainer { bits: 0, valid_bits: 0 };
        proof {
            c.lemma_plain();
        }
        c
    }

    pub fn bits(&self) -> (b: u32)
        ensures
            b == self.held(),
            self.held() < pow2(self.count()),
    {
        proof {
            use_type_invariant(self);
            self.lemma_plain();
        }
        self.bits
    }

    pub fn valid_bits(&self) -> (n: u8)
        ensures
            n == self.count(),
            n < 8,
    {
        proof {
            use_type_invariant(self);
            self.lemma_plain();
        }
        self.valid_bits
    }

    /// Reads `num_bits` bits, most significant first: whole bytes are taken
    /// from `data` while fewer bits are held, then the high bits are handed
    /// out. Gives the bits as a number and the bytes not taken. On failure the
    /// register is unchanged.
    pub fn read_bits<'a>(&mut self, data: &'a [u8], num_bits: u8) -> (r: Result<
        (u32, &'a [u8]),
        Error,
    >)
        requires
            1 <= num_bits <= 15,
        ensures
            match old(self).before(data@).read_bits(num_bits as nat) {
                Ok((x, s)) => r is Ok && r->Ok_0.0 == x && x < pow2(num_bits as nat)
                    && final(self).before(r->Ok_0.1@) == s,
                Err(e) => r == Err::<(u32, &[u8]), Error>(e) && *final(self) == *old(self),
            },
    {
        proof {
            use_type_invariant(&*self);
            self.lemma_plain();
        }
        let mut bytes = data;
        let mut bits: u32 = self.bits;
        let mut valid: u8 = self.valid_bits;
        while valid < num_bits
            invariant
                1 <= num_bits <= 15,
                valid < num_bits + 8,
                bits < pow2(valid as nat),
                *self == *old(self),
                old(self).before(data@).fill(num_bits as nat) == (DecoderState {
                    bytes: bytes@,
                    bits: bits as nat,
                    valid_bits: valid as nat,
                }).fill(num_bits as nat),
            decreases num_bits + 8 - valid,
        {
            if bytes.len() == 0 {
                return Err(Error::InsufficientData { needed: 1, remaining: 0 });
            }
            let b = bytes[0];
            proof {
                lemma2_to64();
                lemma_pow2_bound(valid as nat, 14);
                lemma_pow2_adds(valid as nat, 8);
                assert(bytes@.skip(1) =~= bytes@.subrange(1, bytes@.len() as int));
            }
            bits = bits * 256 + (b as u32);
            valid = valid + 8;
            bytes = slice_subrange(bytes, 1, bytes.len());
        }
        let offset: u8 = valid - num_bits;
        let unit = pow2_small(offset);
        proof {
            lemma_pow2_adds(num_bits as nat, offset as nat);
            lemma_div_bound(bits as nat, pow2(offset as nat), pow2(num_bits as nat));
        }
        let out = bits / unit;
        let rest = bits % unit;
        let next = BitContainer { bits: rest, valid_bits: offset };
        proof {
            next.lemma_plain();
        }
        *self = next;
        Ok((out, bytes))
    }

    /// Appends the `num_bits` low bits of `value` behind the bits held, and
    /// moves every byte that has filled up to the end of `buffer`, high bits
    /// first.
    pub fn write_bits(&mut self, buffer: &mut Vec<u8>, value: u32, num_bits: u8)
        requires
            1 <= num_bits <= 15,
        ensures
            final(self).behind(final(buffer)@) == old(self).behind(old(buffer)@).write_bits(
                value as nat,
                num_bits as nat,
            ),
    {
        proof {
            use_type_invariant(&*self);
            self.lemma_plain();
            lemma2_to64();
            lemma_pow2_bound(self.valid_bits as nat, 7);
        }
        let unit = pow2_small(num_bits);
        let low: u32 = value % unit;
        proof {
            lemma_pow2_adds(self.valid_bits as nat, num_bits as nat);
            assert(self.bits * unit + low < pow2(self.valid_bits as nat) * unit) by (
                nonlinear_arith)
                requires
                    low < unit,
                    self.bits < pow2(self.valid_bits as nat),
            ;
            assert(self.bits * unit <= 127 * 0x8000) by (nonlinear_arith)
                requires
                    self.bits <= 127,
                    unit <= 0x8000,
            ;
        }
        let mut acc: u32 = self.bits * unit + low;
        let mut valid: u8 = self.valid_bits + num_bits;
        while valid >= 8
            invariant
                valid < 23,
                acc < pow2(valid as nat),
                old(self).behind(old(buffer)@).write_bits(value as nat, num_bits as nat) == (
                EncoderState { bytes: buffer@, bits: acc as nat, valid_bits: valid as nat }).flush(),
            decreases valid,
        {
            let rest: u8 = valid - 8;
            let unit = pow2_small(rest);
            proof {
                lemma2_to64();
                lemma_pow2_adds(8, rest as nat);
                lemma_div_bound(acc as nat, pow2(rest as nat), 256);
            }
            buffer.push((acc / unit) as u8);
            acc = acc % unit;
            valid = rest;
        }
        let next = BitContainer { bits: acc, valid_bits: valid };
        proof {
            next.lemma_plain();
        }
        *self = next;
    }
}

impl Default for BitContainer {
    fn default() -> (c: BitContainer)
        ensures
            c.held() == 0,
            c.count() == 0,
    {
        BitContainer::new()
    }
}

} // verus!
