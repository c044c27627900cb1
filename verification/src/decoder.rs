//! The decoder: a cursor over bytes with a bit accumulator, parameter
//! headers, and the scopes of TLV parameters.

use vstd::prelude::*;
use vstd::arithmetic::power2::pow2;
use vstd::slice::slice_subrange;
use crate::bits::BitContainer;
use crate::error::Error;
use crate::wire::{
    be_bytes, be_uint, lemma_be_bytes_len, lemma_be_uint_2, lemma_be_uint_bound,
    lemma_be_uint_of_be_bytes, lemma_be_uint_push, lemma_pow256_values, pow256,
};

verus! {

/// The type number found in a parameter header, with the framing it came in.
#[derive(Debug, Clone, Copy, PartialEq, Eq, Structural)]
pub enum ParameterType {
    /// One header byte, high bit set, seven bits of type.
    Tv(u8),
    /// Two header bytes, six reserved bits and ten bits of type, then a length.
    Tlv(u16),
}

impl ParameterType {
    /// The type number, whatever the framing.
    pub open spec fn number(self) -> u16 {
        match self {
            ParameterType::Tv(id) => id as u16,
            ParameterType::Tlv(id) => id,
        }
    }

    pub fn as_u16(&self) -> (n: u16)
        ensures
            n == self.number(),
    {
        match *self {
            ParameterType::Tv(id) => id as u16,
            ParameterType::Tlv(id) => id,
        }
    }
}

/// What a decoder has yet to read: the bytes ahead, and the bits taken from
/// the last byte consumed that no field has claimed yet.
pub struct DecoderState {
    pub bytes: Seq<u8>,
    /// The unclaimed bits, as a number below `2^valid_bits`.
    pub bits: nat,
    pub valid_bits: nat,
}

impl DecoderState {
    /// The state at the start of `bytes`.
    pub open spec fn start(bytes: Seq<u8>) -> DecoderState {
        DecoderState { bytes, bits: 0, valid_bits: 0 }
    }

    /// Less than a byte is buffered, and `bits` holds no more than that.
    pub open spec fn wf(self) -> bool {
        self.valid_bits < 8 && self.bits < pow2(self.valid_bits)
    }

    /// No bit is buffered: the next field starts on a byte boundary.
    pub open spec fn aligned(self) -> bool {
        self.valid_bits == 0 && self.bits == 0
    }

    /// The same accumulator over other bytes.
    pub open spec fn with_bytes(self, bytes: Seq<u8>) -> DecoderState {
        DecoderState { bytes, ..self }
    }

    /// Splits off the next `n` bytes.
    pub open spec fn take(self, n: usize) -> Result<(Seq<u8>, DecoderState), Error> {
        if self.bytes.len() < n {
            Err(Error::InsufficientData { needed: n, remaining: self.bytes.len() as usize })
        } else {
            Ok((self.bytes.take(n as int), self.with_bytes(self.bytes.skip(n as int))))
        }
    }

    /// Reads an `n`-byte big-endian unsigned number.
    pub open spec fn uint(self, n: usize) -> Result<(nat, DecoderState), Error> {
        match self.take(n) {
            Err(e) => Err(e),
            Ok((b, s)) => Ok((be_uint(b), s)),
        }
    }

    /// The header that the next bytes begin with, without consuming it.
    pub open spec fn peek(self) -> Result<ParameterType, Error> {
        if self.bytes.len() == 0 {
            Err(Error::InsufficientData { needed: 2, remaining: 0 })
        } else if self.bytes[0] >= 128 {
            Ok(ParameterType::Tv((self.bytes[0] - 128) as u8))
        } else if self.bytes.len() < 2 {
            Err(Error::InsufficientData { needed: 2, remaining: 1 })
        } else {
            Ok(ParameterType::Tlv(((self.bytes[0] % 4) * 256 + self.bytes[1]) as u16))
        }
    }

    /// The type number of the next header.
    pub open spec fn peek_number(self) -> Result<u16, Error> {
        match self.peek() {
            Err(e) => Err(e),
            Ok(ty) => Ok(ty.number()),
        }
    }

    /// Consumes the next header if it carries the number `type_id`: one byte
    /// of a TV header, the two type bytes of a TLV header.
    pub open spec fn header(self, type_id: u16) -> Result<DecoderState, Error> {
        match self.peek() {
            Err(e) => Err(e),
            Ok(ty) => if ty.number() != type_id {
                Err(Error::InvalidType(ty.number()))
            } else if ty is Tv {
                Ok(self.with_bytes(self.bytes.skip(1)))
            } else {
                Ok(self.with_bytes(self.bytes.skip(2)))
            },
        }
    }

    /// Consumes the next header if it is the TV header with id `tv_id`. Any
    /// other header is refused with the type number that it carries.
    pub open spec fn tv_header(self, tv_id: u8) -> Result<DecoderState, Error> {
        match self.peek() {
            Err(e) => Err(e),
            Ok(ty) => if ty == ParameterType::Tv(tv_id) {
                Ok(self.with_bytes(self.bytes.skip(1)))
            } else {
                Err(Error::InvalidType(ty.number()))
            },
        }
    }

    /// Moves whole bytes into the accumulator until it holds `n` bits.
    pub open spec fn fill(self, n: nat) -> Result<DecoderState, Error>
        decreases n + 8 - self.valid_bits,
    {
        if self.valid_bits >= n {
            Ok(self)
        } else if self.bytes.len() == 0 {
            Err(Error::InsufficientData { needed: 1, remaining: 0 })
        } else {
            DecoderState {
                bytes: self.bytes.skip(1),
                bits: self.bits * 256 + self.bytes[0] as nat,
                valid_bits: self.valid_bits + 8,
            }.fill(n)
        }
    }

    /// Reads `n` bits, most significant first: the accumulator is filled,
    /// then its `n` high bits are taken.
    pub open spec fn read_bits(self, n: nat) -> Result<(nat, DecoderState), Error> {
        match self.fill(n) {
            Err(e) => Err(e),
            Ok(f) => {
                let rest = (f.valid_bits - n) as nat;
                Ok(
                    (
                        f.bits / pow2(rest),
                        DecoderState { bytes: f.bytes, bits: f.bits % pow2(rest), valid_bits: rest },
                    ),
                )
            },
        }
    }

    /// Whether everything has been consumed, bytes first.
    pub open spec fn consumed(self) -> Result<(), Error> {
        if self.bytes.len() > 0 {
            Err(Error::TrailingBytes(self.bytes.len() as usize))
        } else if self.valid_bits > 0 {
            Err(Error::TrailingBits(self.valid_bits as usize))
        } else {
            Ok(())
        }
    }

    /// Opens the TLV parameter `tlv_id`: checks its header and length, and
    /// gives the state scoped to its body.
    pub open spec fn tlv_open(self, tlv_id: u16) -> Result<DecoderState, Error> {
        match self.peek() {
            Err(e) => Err(e),
            Ok(ty) => if ty != ParameterType::Tlv(tlv_id) {
                Err(Error::InvalidType(ty.number()))
            } else if self.bytes.len() < 4 {
                Err(Error::InsufficientData { needed: 2, remaining: (self.bytes.len() - 2) as usize })
            } else {
                let len = self.tlv_len();
                if len < 4 || len > self.bytes.len() {
                    Err(Error::TlvLengthInvalid(len as u16))
                } else {
                    Ok(self.with_bytes(self.bytes.subrange(4, len as int)))
                }
            },
        }
    }

    /// The length field of the TLV header at the front.
    pub open spec fn tlv_len(self) -> nat {
        be_uint(self.bytes.subrange(2, 4))
    }

    /// Closes a TLV parameter whose body decoder ended in `body`: the body
    /// must be used up, bytes and bits, and the outer state goes on behind
    /// the parameter, on a byte boundary.
    pub open spec fn tlv_close(self, body: DecoderState) -> Result<DecoderState, Error> {
        match body.consumed() {
            Err(e) => Err(e),
            Ok(_) => Ok(DecoderState::start(self.bytes.skip(self.tlv_len() as int))),
        }
    }

    /// Closes a TLV parameter in relaxed mode: bytes that the fields left in
    /// the body are passed over; bits left in the accumulator are not.
    pub open spec fn tlv_close_relaxed(self, body: DecoderState) -> Result<DecoderState, Error> {
        if body.valid_bits > 0 {
            Err(Error::TrailingBits(body.valid_bits as usize))
        } else {
            Ok(DecoderState::start(self.bytes.skip(self.tlv_len() as int)))
        }
    }
}

/// How a TLV parameter ends, given how its body decoder ended: with the
/// body's error, with a trailing-data error, or with the body's value and the
/// outer state past the parameter.
pub open spec fn tlv_outcome<T>(
    outer: DecoderState,
    body_result: Result<T, Error>,
    body_end: DecoderState,
    r: Result<T, Error>,
    end: DecoderState,
) -> bool {
    match body_result {
        Err(e) => r == Err::<T, Error>(e),
        Ok(v) => match outer.tlv_close(body_end) {
            Err(e) => r == Err::<T, Error>(e),
            Ok(s) => r == Ok::<T, Error>(v) && end == s,
        },
    }
}

/// How a TLV parameter ends in relaxed mode, given how its body decoder ended.
pub open spec fn tlv_outcome_relaxed<T>(
    outer: DecoderState,
    body_result: Result<T, Error>,
    body_end: DecoderState,
    r: Result<T, Error>,
    end: DecoderState,
) -> bool {
    match body_result {
        Err(e) => r == Err::<T, Error>(e),
        Ok(v) => match outer.tlv_close_relaxed(body_end) {
            Err(e) => r == Err::<T, Error>(e),
            Ok(s) => r == Ok::<T, Error>(v) && end == s,
        },
    }
}

/// A cursor over a byte slice with an accumulator for fields narrower than a byte.
#[derive(Clone, Copy)]
pub struct Decoder<'a> {
    bytes: &'a [u8],
    acc: BitContainer,
}

impl<'a> View for Decoder<'a> {
    type V = DecoderState;

    closed spec fn view(&self) -> DecoderState {
        self.acc.before(self.bytes@)
    }
}

impl<'a> Decoder<'a> {
    /// What a decoder has yet to read is always well formed: it holds less
    /// than a byte of bits.
    pub proof fn lemma_wf(&self)
        ensures
            self@.wf(),
    {
        self.acc.lemma_bound();
    }

    pub fn new(bytes: &'a [u8]) -> (d: Decoder<'a>)
        ensures
            d@ == DecoderState::start(bytes@),
    {
        Decoder { bytes, acc: BitContainer::new() }
    }

    /// The number of bytes not yet read.
    pub fn remaining(&self) -> (n: usize)
        ensures
            n == self@.bytes.len(),
    {
        self.bytes.len()
    }

    pub fn is_empty(&self) -> (b: bool)
        ensures
            b == (self@.bytes.len() == 0),
    {
        self.bytes.len() == 0
    }

    /// The bytes not yet read.
    pub fn rest(&self) -> (b: &'a [u8])
        ensures
            b@ == self@.bytes,
    {
        self.bytes
    }

    pub fn read_bytes(&mut self, num_bytes: usize) -> (r: Result<&'a [u8], Error>)
        ensures
            match old(self)@.take(num_bytes) {
                Ok((b, s)) => r is Ok && r->Ok_0@ == b && final(self)@ == s,
                Err(e) => r == Err::<&[u8], Error>(e) && final(self)@ == old(self)@,
            },
    {
        if self.bytes.len() < num_bytes {
            return Err(Error::InsufficientData { needed: num_bytes, remaining: self.bytes.len() });
        }
        let result = slice_subrange(self.bytes, 0, num_bytes);
        let rest = slice_subrange(self.bytes, num_bytes, self.bytes.len());
        self.bytes = rest;
        Ok(result)
    }

    /// Fails unless every byte and every buffered bit has been consumed.
    pub fn validate_consumed(&self) -> (r: Result<(), Error>)
        ensures
            r == self@.consumed(),
    {
        if self.bytes.len() > 0 {
            return Err(Error::TrailingBytes(self.bytes.len()));
        }
        if self.acc.valid_bits() > 0 {
            return Err(Error::TrailingBits(self.acc.valid_bits() as usize));
        }
        Ok(())
    }

    pub fn peek_param_type(&self) -> (r: Result<ParameterType, Error>)
        ensures
            r == self@.peek(),
    {
        if self.bytes.len() == 0 {
            return Err(Error::InsufficientData { needed: 2, remaining: 0 });
        }
        let b0 = self.bytes[0];
        if b0 & 0b1000_0000 != 0 {
            assert(b0 & 0b1000_0000 != 0 ==> b0 >= 128 && b0 & 0b0111_1111 == (b0 - 128) as u8)
                by (bit_vector);
            return Ok(ParameterType::Tv(b0 & 0b0111_1111));
        }
        assert(b0 & 0b1000_0000 == 0 ==> b0 < 128) by (bit_vector);
        if self.bytes.len() < 2 {
            return Err(Error::InsufficientData { needed: 2, remaining: 1 });
        }
        let b1 = self.bytes[1];
        let raw: u16 = ((b0 as u16) << 8) | (b1 as u16);
        assert((((b0 as u16) << 8) | (b1 as u16)) & 0b11_1111_1111 == ((b0 % 4) as u16) * 256 + (
        b1 as u16)) by (bit_vector);
        Ok(ParameterType::Tlv(raw & 0b11_1111_1111))
    }

    pub fn get_message_type(&self) -> (r: Result<u16, Error>)
        ensures
            r == self@.peek_number(),
    {
        match self.peek_param_type() {
            Err(e) => Err(e),
            Ok(ty) => Ok(ty.as_u16()),
        }
    }

    /// Consumes the next header if its type number is `type_id`.
    pub fn check_param_type(&mut self, type_id: u16) -> (r: Result<(), Error>)
        ensures
            match old(self)@.header(type_id) {
                Ok(s) => r is Ok && final(self)@ == s,
                Err(e) => r == Err::<(), Error>(e) && final(self)@ == old(self)@,
            },
    {
        match self.peek_param_type() {
            Err(e) => Err(e),
            Ok(ty) => {
                if ty.as_u16() != type_id {
                    return Err(Error::InvalidType(ty.as_u16()));
                }
                let skip: usize = match ty {
                    ParameterType::Tv(_) => 1,
                    ParameterType::Tlv(_) => 2,
                };
                let rest = slice_subrange(self.bytes, skip, self.bytes.len());
                self.bytes = rest;
                Ok(())
            },
        }
    }

    /// Consumes the next header if it is the TV header with id `tv_id`.
    pub fn check_tv_type(&mut self, tv_id: u8) -> (r: Result<(), Error>)
        ensures
            match old(self)@.tv_header(tv_id) {
                Ok(s) => r is Ok && final(self)@ == s,
                Err(e) => r == Err::<(), Error>(e) && final(self)@ == old(self)@,
            },
    {
        match self.peek_param_type() {
            Err(e) => Err(e),
            Ok(ParameterType::Tlv(id)) => Err(Error::InvalidType(id)),
            Ok(ParameterType::Tv(id)) => {
                if id != tv_id {
                    return Err(Error::InvalidType(id as u16));
                }
                let rest = slice_subrange(self.bytes, 1, self.bytes.len());
                self.bytes = rest;
                Ok(())
            },
        }
    }

    /// Reads a big-endian unsigned number of `num_bytes` bytes, at most eight.
    pub fn read_uint(&mut self, num_bytes: usize) -> (r: Result<u64, Error>)
        requires
            num_bytes <= 8,
        ensures
            match old(self)@.uint(num_bytes) {
                Ok((x, s)) => r == Ok::<u64, Error>(x as u64) && x < pow256(num_bytes as nat)
                    && final(self)@ == s,
                Err(e) => r == Err::<u64, Error>(e) && final(self)@ == old(self)@,
            },
    {
        let bytes = self.read_bytes(num_bytes)?;
        let mut acc: u64 = 0;
        let mut i: usize = 0;
        proof {
            lemma_pow256_values();
        }
        while i < num_bytes
            invariant
                i <= num_bytes <= 8,
                bytes@.len() == num_bytes,
                acc == be_uint(bytes@.take(i as int)),
                acc < pow256(i as nat),
            decreases num_bytes - i,
        {
            proof {
                lemma_pow256_values();
                lemma_be_uint_push(bytes@.take(i as int), bytes@[i as int]);
                assert(bytes@.take(i as int).push(bytes@[i as int]) =~= bytes@.take(i + 1));
                lemma_be_uint_bound(bytes@.take(i + 1));
            }
            acc = acc * 256 + bytes[i] as u64;
            i += 1;
        }
        assert(bytes@.take(num_bytes as int) =~= bytes@);
        Ok(acc)
    }

    /// Reads `num_bits` bits, most significant first, as a number.
    pub fn read_raw_bits(&mut self, num_bits: u8) -> (r: Result<u32, Error>)
        requires
            1 <= num_bits <= 15,
        ensures
            match old(self)@.read_bits(num_bits as nat) {
                Ok((x, s)) => r == Ok::<u32, Error>(x as u32) && x < pow2(num_bits as nat)
                    && final(self)@ == s,
                Err(e) => r == Err::<u32, Error>(e) && final(self)@ == old(self)@,
            },
    {
        match self.acc.read_bits(self.bytes, num_bits) {
            Err(e) => Err(e),
            Ok((out, rest)) => {
                self.bytes = rest;
                Ok(out)
            },
        }
    }

    /// Checks the header and length of the TLV parameter `tlv_id` at the
    /// cursor and gives a decoder clipped to its body. The cursor stays.
    pub fn tlv_enter(&self, tlv_id: u16) -> (r: Result<Decoder<'a>, Error>)
        ensures
            match self@.tlv_open(tlv_id) {
                Ok(body) => r is Ok && r->Ok_0@ == body,
                Err(e) => r == Err::<Decoder, Error>(e),
            },
    {
        match self.peek_param_type() {
            Err(e) => {
                return Err(e);
            },
            Ok(ParameterType::Tv(id)) => {
                return Err(Error::InvalidType(id as u16));
            },
            Ok(ParameterType::Tlv(id)) => {
                if id != tlv_id {
                    return Err(Error::InvalidType(id));
                }
            },
        }
        let len = self.bytes.len();
        if len < 4 {
            return Err(Error::InsufficientData { needed: 2, remaining: len - 2 });
        }
        proof {
            lemma_be_uint_2(self.bytes@.subrange(2, 4));
        }
        let param_len: usize = (self.bytes[2] as usize) * 256 + (self.bytes[3] as usize);
        if param_len < 4 || param_len > len {
            return Err(Error::TlvLengthInvalid(param_len as u16));
        }
        Ok(Decoder { bytes: slice_subrange(self.bytes, 4, param_len), acc: self.acc })
    }

    /// Leaves the TLV parameter at the cursor, whose body decoder has come
    /// to `body`: the body must be used up, and the cursor moves behind the
    /// parameter.
    pub fn tlv_leave(&mut self, body: &Decoder<'a>) -> (r: Result<(), Error>)
        requires
            old(self)@.bytes.len() >= 4,
            old(self)@.tlv_len() <= old(self)@.bytes.len(),
        ensures
            match old(self)@.tlv_close(body@) {
                Ok(s) => r is Ok && final(self)@ == s,
                Err(e) => r == Err::<(), Error>(e) && final(self)@ == old(self)@,
            },
    {
        match body.validate_consumed() {
            Err(e) => Err(e),
            Ok(_) => {
                proof {
                    lemma_be_uint_2(self.bytes@.subrange(2, 4));
                }
                let param_len: usize = (self.bytes[2] as usize) * 256 + (self.bytes[3] as usize);
                self.bytes = slice_subrange(self.bytes, param_len, self.bytes.len());
                self.acc = BitContainer::new();
                Ok(())
            },
        }
    }

    /// Leaves the TLV parameter at the cursor in relaxed mode: bytes that
    /// are left in the body are passed over.
    pub fn tlv_leave_relaxed(&mut self, body: &Decoder<'a>) -> (r: Result<(), Error>)
        requires
            old(self)@.bytes.len() >= 4,
            old(self)@.tlv_len() <= old(self)@.bytes.len(),
        ensures
            match old(self)@.tlv_close_relaxed(body@) {
                Ok(s) => r is Ok && final(self)@ == s,
                Err(e) => r == Err::<(), Error>(e) && final(self)@ == old(self)@,
            },
    {
        if body.acc.valid_bits() > 0 {
            return Err(Error::TrailingBits(body.acc.valid_bits() as usize));
        }
        proof {
            lemma_be_uint_2(self.bytes@.subrange(2, 4));
        }
        let param_len: usize = (self.bytes[2] as usize) * 256 + (self.bytes[3] as usize);
        self.bytes = slice_subrange(self.bytes, param_len, self.bytes.len());
        self.acc = BitContainer::new();
        Ok(())
    }

    /// Decodes the body of the TLV parameter `tlv_id` with `decode`, on a
    /// decoder clipped to the body. The body must be consumed entirely; the
    /// cursor then stands behind the parameter.
    pub fn tlv_param<T, F>(&mut self, tlv_id: u16, decode: F) -> (r: Result<T, Error>) where
        F: FnOnce(&mut Decoder<'a>) -> Result<T, Error>,

        requires
            forall|d: &mut Decoder<'a>|
                old(self)@.tlv_open(tlv_id) == Ok::<DecoderState, Error>((*d)@) ==> call_requires(
                    decode,
                    (d,),
                ),
        ensures
            match old(self)@.tlv_open(tlv_id) {
                Err(e) => r == Err::<T, Error>(e),
                Ok(body) => exists|d: &mut Decoder<'a>, br: Result<T, Error>|
                    (*d)@ == body && #[trigger] call_ensures(decode, (d,), br) && tlv_outcome(
                        old(self)@,
                        br,
                        (*final(d))@,
                        r,
                        final(self)@,
                    ),
            },
            r is Err ==> final(self)@ == old(self)@,
    {
        let mut body = self.tlv_enter(tlv_id)?;
        let v = decode(&mut body)?;
        self.tlv_leave(&body)?;
        Ok(v)
    }

    /// Decodes the body of the TLV parameter `tlv_id` in relaxed mode, for
    /// readers that pad their parameters: like `tlv_param`, but bytes that
    /// the fields leave in the body are passed over.
    pub fn tlv_param_relaxed<T, F>(&mut self, tlv_id: u16, decode: F) -> (r: Result<T, Error>) where
        F: FnOnce(&mut Decoder<'a>) -> Result<T, Error>,

        requires
            forall|d: &mut Decoder<'a>|
                old(self)@.tlv_open(tlv_id) == Ok::<DecoderState, Error>((*d)@) ==> call_requires(
                    decode,
                    (d,),
                ),
        ensures
            match old(self)@.tlv_open(tlv_id) {
                Err(e) => r == Err::<T, Error>(e),
                Ok(body) => exists|d: &mut Decoder<'a>, br: Result<T, Error>|
                    (*d)@ == body && #[trigger] call_ensures(decode, (d,), br)
                        && tlv_outcome_relaxed(old(self)@, br, (*final(d))@, r, final(self)@),
            },
            r is Err ==> final(self)@ == old(self)@,
    {
        let mut body = self.tlv_enter(tlv_id)?;
        let v = decode(&mut body)?;
        self.tlv_leave_relaxed(&body)?;
        Ok(v)
    }
}

/// The byte that carries a flag in its high bit and nothing else.
pub open spec fn flag_byte(flag: bool) -> u8 {
    if flag {
        128
    } else {
        0
    }
}

/// Bytes at the front of the data are taken as they are.
pub proof fn lemma_take_front(front: Seq<u8>, next: Seq<u8>)
    requires
        front.len() <= usize::MAX,
    ensures
        DecoderState::start(front + next).take(front.len() as usize) == Ok::<
            (Seq<u8>, DecoderState),
            Error,
        >((front, DecoderState::start(next))),
{
    assert((front + next).take(front.len() as int) =~= front);
    assert((front + next).skip(front.len() as int) =~= next);
}

/// A number written in `n` bytes is read back from the front of the data.
pub proof fn lemma_uint_front(x: nat, n: nat, next: Seq<u8>)
    requires
        x < pow256(n),
        n <= 8,
    ensures
        DecoderState::start(be_bytes(x, n) + next).uint(n as usize) == Ok::<
            (nat, DecoderState),
            Error,
        >((x, DecoderState::start(next))),
{
    lemma_be_bytes_len(x, n);
    lemma_be_uint_of_be_bytes(x, n);
    lemma_take_front(be_bytes(x, n), next);
}

/// A flag in the high bit of a byte is read back by one bit and seven
/// reserved bits, which leave the decoder on the byte boundary.
pub proof fn lemma_flag_front(flag: bool, next: Seq<u8>)
    ensures
        ({
            let s = DecoderState::start(seq![flag_byte(flag)] + next);
            &&& s.read_bits(1) is Ok
            &&& s.read_bits(1)->Ok_0.0 == (if flag {
                1nat
            } else {
                0nat
            })
            &&& s.read_bits(1)->Ok_0.1.read_bits(7) == Ok::<(nat, DecoderState), Error>(
                (0nat, DecoderState::start(next)),
            )
        }),
{
    vstd::arithmetic::power2::lemma2_to64();
    let s = DecoderState::start(seq![flag_byte(flag)] + next);
    let byte = flag_byte(flag) as nat;
    let filled = DecoderState { bytes: next, bits: byte, valid_bits: 8 };
    assert(s.bytes.skip(1) =~= next);
    assert(s.bytes[0] == flag_byte(flag));
    reveal_with_fuel(DecoderState::fill, 3);
    assert(s.fill(1) == Ok::<DecoderState, Error>(filled));
    assert(pow2(7) == 128);
    assert(pow2(0) == 1);
    let bit: nat = if flag {
        1
    } else {
        0
    };
    assert(byte / 128 == bit && byte % 128 == 0) by {
        if flag {
            assert(128nat / 128 == 1 && 128nat % 128 == 0);
        } else {
            assert(0nat / 128 == 0 && 0nat % 128 == 0);
        }
    }
    let mid = DecoderState { bytes: next, bits: 0, valid_bits: 7 };
    assert(s.read_bits(1) == Ok::<(nat, DecoderState), Error>((bit, mid)));
    assert(mid.fill(7) == Ok::<DecoderState, Error>(mid));
    assert(0nat / 1 == 0 && 0nat % 1 == 0);
    assert(mid.read_bits(7) == Ok::<(nat, DecoderState), Error>((0nat, DecoderState::start(next))));
}

} // verus!
