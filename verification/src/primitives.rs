//! The whole-byte numbers: big-endian, signed ones in two's complement.

use vstd::prelude::*;
use crate::decoder::{lemma_uint_front, Decoder, DecoderState, ParameterType};
use crate::encoder::{Encoder, EncoderState};
use crate::error::Error;
use crate::value::{behind_tv, tv_follow_ok, tv_wire, LLRPValue};
use crate::wire::{be_bytes, from_signed, lemma_pow256_values, to_signed};

verus! {

/// An unsigned 8-bit number: 1 byte, big-endian.
impl LLRPValue for u8 {
    open spec fn accepts(type_num: u16) -> bool {
        false
    }

    open spec fn parse(s: DecoderState) -> Result<(u8, DecoderState), Error> {
        match s.uint(1) {
            Err(e) => Err(e),
            Ok((x, s1)) => Ok((x as u8, s1)),
        }
    }

    open spec fn parse_tv(s: DecoderState, tv_id: u8) -> Result<(u8, DecoderState), Error> {
        behind_tv(s, tv_id, |s1: DecoderState| Self::parse(s1))
    }

    open spec fn emit(v: u8, s: EncoderState) -> EncoderState {
        s.write_uint(v as nat, 1)
    }

    open spec fn emit_tv(v: u8, s: EncoderState, tv_id: u8) -> EncoderState {
        Self::emit(v, s.write_param_type(ParameterType::Tv(tv_id)))
    }

    open spec fn wire(v: u8) -> Seq<u8> {
        be_bytes(v as nat, 1)
    }

    open spec fn canonical(v: u8) -> bool {
        true
    }

    open spec fn follow_ok(v: u8, next: Seq<u8>) -> bool {
        true
    }

    proof fn lemma_emit(v: u8, s: EncoderState) {
    }

    proof fn lemma_parse(v: u8, next: Seq<u8>) {
        lemma_pow256_values();
        lemma_uint_front(v as nat, 1, next);
    }

    open spec fn atomic() -> bool {
        true
    }

    proof fn lemma_progress(s: DecoderState) {
    }

    fn can_decode_type(type_num: u16) -> (b: bool) {
        false
    }

    fn decode(decoder: &mut Decoder) -> (r: Result<Self, Error>) {
        proof {
            lemma_pow256_values();
        }
        let x = decoder.read_uint(1)?;
        Ok(x as u8)
    }

    fn decode_tv(decoder: &mut Decoder, tv_id: u8) -> (r: Result<Self, Error>) {
        decoder.check_tv_type(tv_id)?;
        Self::decode(decoder)
    }

    fn encode(&self, encoder: &mut Encoder) {
        proof {
            lemma_pow256_values();
        }
        encoder.write_uint(*self as u64, 1);
    }

    fn encode_tv(&self, encoder: &mut Encoder, tv_id: u8) {
        encoder.write_param_type(ParameterType::Tv(tv_id));
        self.encode(encoder);
    }
}

/// A signed 8-bit number: 1 byte, big-endian, two's complement.
impl LLRPValue for i8 {
    open spec fn accepts(type_num: u16) -> bool {
        false
    }

    open spec fn parse(s: DecoderState) -> Result<(i8, DecoderState), Error> {
        match s.uint(1) {
            Err(e) => Err(e),
            Ok((x, s1)) => Ok((to_signed(x, 1) as i8, s1)),
        }
    }

    open spec fn parse_tv(s: DecoderState, tv_id: u8) -> Result<(i8, DecoderState), Error> {
        behind_tv(s, tv_id, |s1: DecoderState| Self::parse(s1))
    }

    open spec fn emit(v: i8, s: EncoderState) -> EncoderState {
        s.write_uint(from_signed(v as int, 1), 1)
    }

    open spec fn emit_tv(v: i8, s: EncoderState, tv_id: u8) -> EncoderState {
        Self::emit(v, s.write_param_type(ParameterType::Tv(tv_id)))
    }

    open spec fn wire(v: i8) -> Seq<u8> {
        be_bytes(from_signed(v as int, 1), 1)
    }

    open spec fn canonical(v: i8) -> bool {
        true
    }

    open spec fn follow_ok(v: i8, next: Seq<u8>) -> bool {
        true
    }

    proof fn lemma_emit(v: i8, s: EncoderState) {
    }

    proof fn lemma_parse(v: i8, next: Seq<u8>) {
        lemma_pow256_values();
        lemma_uint_front(from_signed(v as int, 1), 1, next);
    }

    open spec fn atomic() -> bool {
        true
    }

    proof fn lemma_progress(s: DecoderState) {
    }

    fn can_decode_type(type_num: u16) -> (b: bool) {
        false
    }

    fn decode(decoder: &mut Decoder) -> (r: Result<Self, Error>) {
        proof {
            lemma_pow256_values();
        }
        let x = decoder.read_uint(1)?;
        if x >= 0x80 {
            Ok(((x as i16) - 0x100) as i8)
        } else {
            Ok(x as i8)
        }
    }

    fn decode_tv(decoder: &mut Decoder, tv_id: u8) -> (r: Result<Self, Error>) {
        decoder.check_tv_type(tv_id)?;
        Self::decode(decoder)
    }

    fn encode(&self, encoder: &mut Encoder) {
        proof {
            lemma_pow256_values();
        }
        let x: u64 = if *self < 0 {
            ((*self as i16) + 0x100) as u64
        } else {
            *self as u64
        };
        encoder.write_uint(x, 1);
    }

    fn encode_tv(&self, encoder: &mut Encoder, tv_id: u8) {
        encoder.write_param_type(ParameterType::Tv(tv_id));
        self.encode(encoder);
    }
}

/// An unsigned 16-bit number: 2 bytes, big-endian.
impl LLRPValue for u16 {
    open spec fn accepts(type_num: u16) -> bool {
        false
    }

    open spec fn parse(s: DecoderState) -> Result<(u16, DecoderState), Error> {
        match s.uint(2) {
            Err(e) => Err(e),
            Ok((x, s1)) => Ok((x as u16, s1)),
        }
    }

    open spec fn parse_tv(s: DecoderState, tv_id: u8) -> Result<(u16, DecoderState), Error> {
        behind_tv(s, tv_id, |s1: DecoderState| Self::parse(s1))
    }

    open spec fn emit(v: u16, s: EncoderState) -> EncoderState {
        s.write_uint(v as nat, 2)
    }

    open spec fn emit_tv(v: u16, s: EncoderState, tv_id: u8) -> EncoderState {
        Self::emit(v, s.write_param_type(ParameterType::Tv(tv_id)))
    }

    open spec fn wire(v: u16) -> Seq<u8> {
        be_bytes(v as nat, 2)
    }

    open spec fn canonical(v: u16) -> bool {
        true
    }

    open spec fn follow_ok(v: u16, next: Seq<u8>) -> bool {
        true
    }

    proof fn lemma_emit(v: u16, s: EncoderState) {
    }

    proof fn lemma_parse(v: u16, next: Seq<u8>) {
        lemma_pow256_values();
        lemma_uint_front(v as nat, 2, next);
    }

    open spec fn atomic() -> bool {
        true
    }

    proof fn lemma_progress(s: DecoderState) {
    }

    fn can_decode_type(type_num: u16) -> (b: bool) {
        false
    }

    fn decode(decoder: &mut Decoder) -> (r: Result<Self, Error>) {
        proof {
            lemma_pow256_values();
        }
        let x = decoder.read_uint(2)?;
        Ok(x as u16)
    }

    fn decode_tv(decoder: &mut Decoder, tv_id: u8) -> (r: Result<Self, Error>) {
        decoder.check_tv_type(tv_id)?;
        Self::decode(decoder)
    }

    fn encode(&self, encoder: &mut Encoder) {
        proof {
            lemma_pow256_values();
        }
        encoder.write_uint(*self as u64, 2);
    }

    fn encode_tv(&self, encoder: &mut Encoder, tv_id: u8) {
        encoder.write_param_type(ParameterType::Tv(tv_id));
        self.encode(encoder);
    }
}

/// A signed 16-bit number: 2 bytes, big-endian, two's complement.
impl LLRPValue for i16 {
    open spec fn accepts(type_num: u16) -> bool {
        false
    }

    open spec fn parse(s: DecoderState) -> Result<(i16, DecoderState), Error> {
        match s.uint(2) {
            Err(e) => Err(e),
            Ok((x, s1)) => Ok((to_signed(x, 2) as i16, s1)),
        }
    }

    open spec fn parse_tv(s: DecoderState, tv_id: u8) -> Result<(i16, DecoderState), Error> {
        behind_tv(s, tv_id, |s1: DecoderState| Self::parse(s1))
    }

    open spec fn emit(v: i16, s: EncoderState) -> EncoderState {
        s.write_uint(from_signed(v as int, 2), 2)
    }

    open spec fn emit_tv(v: i16, s: EncoderState, tv_id: u8) -> EncoderState {
        Self::emit(v, s.write_param_type(ParameterType::Tv(tv_id)))
    }

    open spec fn wire(v: i16) -> Seq<u8> {
        be_bytes(from_signed(v as int, 2), 2)
    }

    open spec fn canonical(v: i16) -> bool {
        true
    }

    open spec fn follow_ok(v: i16, next: Seq<u8>) -> bool {
        true
    }

    proof fn lemma_emit(v: i16, s: EncoderState) {
    }

    proof fn lemma_parse(v: i16, next: Seq<u8>) {
        lemma_pow256_values();
        lemma_uint_front(from_signed(v as int, 2), 2, next);
    }

    open spec fn atomic() -> bool {
        true
    }

    proof fn lemma_progress(s: DecoderState) {
    }

    fn can_decode_type(type_num: u16) -> (b: bool) {
        false
    }

    fn decode(decoder: &mut Decoder) -> (r: Result<Self, Error>) {
        proof {
            lemma_pow256_values();
        }
        let x = decoder.read_uint(2)?;
        if x >= 0x8000 {
            Ok(((x as i32) - 0x1_0000) as i16)
        } else {
            Ok(x as i16)
        }
    }

    fn decode_tv(decoder: &mut Decoder, tv_id: u8) -> (r: Result<Self, Error>) {
        decoder.check_tv_type(tv_id)?;
        Self::decode(decoder)
    }

    fn encode(&self, encoder: &mut Encoder) {
        proof {
            lemma_pow256_values();
        }
        let x: u64 = if *self < 0 {
            ((*self as i32) + 0x1_0000) as u64
        } else {
            *self as u64
        };
        encoder.write_uint(x, 2);
    }

    fn encode_tv(&self, encoder: &mut Encoder, tv_id: u8) {
        encoder.write_param_type(ParameterType::Tv(tv_id));
        self.encode(encoder);
    }
}

/// An unsigned 32-bit number: 4 bytes, big-endian.
impl LLRPValue for u32 {
    open spec fn accepts(type_num: u16) -> bool {
        false
    }

    open spec fn parse(s: DecoderState) -> Result<(u32, DecoderState), Error> {
        match s.uint(4) {
            Err(e) => Err(e),
            Ok((x, s1)) => Ok((x as u32, s1)),
        }
    }

    open spec fn parse_tv(s: DecoderState, tv_id: u8) -> Result<(u32, DecoderState), Error> {
        behind_tv(s, tv_id, |s1: DecoderState| Self::parse(s1))
    }

    open spec fn emit(v: u32, s: EncoderState) -> EncoderState {
        s.write_uint(v as nat, 4)
    }

    open spec fn emit_tv(v: u32, s: EncoderState, tv_id: u8) -> EncoderState {
        Self::emit(v, s.write_param_type(ParameterType::Tv(tv_id)))
    }

    open spec fn wire(v: u32) -> Seq<u8> {
        be_bytes(v as nat, 4)
    }

    open spec fn canonical(v: u32) -> bool {
        true
    }

    open spec fn follow_ok(v: u32, next: Seq<u8>) -> bool {
        true
    }

    proof fn lemma_emit(v: u32, s: EncoderState) {
    }

    proof fn lemma_parse(v: u32, next: Seq<u8>) {
        lemma_pow256_values();
        lemma_uint_front(v as nat, 4, next);
    }

    open spec fn atomic() -> bool {
        true
    }

    proof fn lemma_progress(s: DecoderState) {
    }

    fn can_decode_type(type_num: u16) -> (b: bool) {
        false
    }

    fn decode(decoder: &mut Decoder) -> (r: Result<Self, Error>) {
        proof {
            lemma_pow256_values();
        }
        let x = decoder.read_uint(4)?;
        Ok(x as u32)
    }

    fn decode_tv(decoder: &mut Decoder, tv_id: u8) -> (r: Result<Self, Error>) {
        decoder.check_tv_type(tv_id)?;
        Self::decode(decoder)
    }

    fn encode(&self, encoder: &mut Encoder) {
        proof {
            lemma_pow256_values();
        }
        encoder.write_uint(*self as u64, 4);
    }

    fn encode_tv(&self, encoder: &mut Encoder, tv_id: u8) {
        encoder.write_param_type(ParameterType::Tv(tv_id));
        self.encode(encoder);
    }
}

/// A signed 32-bit number: 4 bytes, big-endian, two's complement.
impl LLRPValue for i32 {
    open spec fn accepts(type_num: u16) -> bool {
        false
    }

    open spec fn parse(s: DecoderState) -> Result<(i32, DecoderState), Error> {
        match s.uint(4) {
            Err(e) => Err(e),
            Ok((x, s1)) => Ok((to_signed(x, 4) as i32, s1)),
        }
    }

    open spec fn parse_tv(s: DecoderState, tv_id: u8) -> Result<(i32, DecoderState), Error> {
        behind_tv(s, tv_id, |s1: DecoderState| Self::parse(s1))
    }

    open spec fn emit(v: i32, s: EncoderState) -> EncoderState {
        s.write_uint(from_signed(v as int, 4), 4)
    }

    open spec fn emit_tv(v: i32, s: EncoderState, tv_id: u8) -> EncoderState {
        Self::emit(v, s.write_param_type(ParameterType::Tv(tv_id)))
    }

    open spec fn wire(v: i32) -> Seq<u8> {
        be_bytes(from_signed(v as int, 4), 4)
    }

    open spec fn canonical(v: i32) -> bool {
        true
    }

    open spec fn follow_ok(v: i32, next: Seq<u8>) -> bool {
        true
    }

    proof fn lemma_emit(v: i32, s: EncoderState) {
    }

    proof fn lemma_parse(v: i32, next: Seq<u8>) {
        lemma_pow256_values();
        lemma_uint_front(from_signed(v as int, 4), 4, next);
    }

    open spec fn atomic() -> bool {
        true
    }

    proof fn lemma_progress(s: DecoderState) {
    }

    fn can_decode_type(type_num: u16) -> (b: bool) {
        false
    }

    fn decode(decoder: &mut Decoder) -> (r: Result<Self, Error>) {
        proof {
            lemma_pow256_values();
        }
        let x = decoder.read_uint(4)?;
        if x >= 0x8000_0000 {
            Ok(((x as i64) - 0x1_0000_0000) as i32)
        } else {
            Ok(x as i32)
        }
    }

    fn decode_tv(decoder: &mut Decoder, tv_id: u8) -> (r: Result<Self, Error>) {
        decoder.check_tv_type(tv_id)?;
        Self::decode(decoder)
    }

    fn encode(&self, encoder: &mut Encoder) {
        proof {
            lemma_pow256_values();
        }
        let x: u64 = if *self < 0 {
            ((*self as i64) + 0x1_0000_0000) as u64
        } else {
            *self as u64
        };
        encoder.write_uint(x, 4);
    }

    fn encode_tv(&self, encoder: &mut Encoder, tv_id: u8) {
        encoder.write_param_type(ParameterType::Tv(tv_id));
        self.encode(encoder);
    }
}

/// An unsigned 64-bit number: 8 bytes, big-endian.
impl LLRPValue for u64 {
    open spec fn accepts(type_num: u16) -> bool {
        false
    }

    open spec fn parse(s: DecoderState) -> Result<(u64, DecoderState), Error> {
        match s.uint(8) {
            Err(e) => Err(e),
            Ok((x, s1)) => Ok((x as u64, s1)),
        }
    }

    open spec fn parse_tv(s: DecoderState, tv_id: u8) -> Result<(u64, DecoderState), Error> {
        behind_tv(s, tv_id, |s1: DecoderState| Self::parse(s1))
    }

    open spec fn emit(v: u64, s: EncoderState) -> EncoderState {
        s.write_uint(v as nat, 8)
    }

    open spec fn emit_tv(v: u64, s: EncoderState, tv_id: u8) -> EncoderState {
        Self::emit(v, s.write_param_type(ParameterType::Tv(tv_id)))
    }

    open spec fn wire(v: u64) -> Seq<u8> {
        be_bytes(v as nat, 8)
    }

    open spec fn canonical(v: u64) -> bool {
        true
    }

    open spec fn follow_ok(v: u64, next: Seq<u8>) -> bool {
        true
    }

    proof fn lemma_emit(v: u64, s: EncoderState) {
    }

    proof fn lemma_parse(v: u64, next: Seq<u8>) {
        lemma_pow256_values();
        lemma_uint_front(v as nat, 8, next);
    }

    open spec fn atomic() -> bool {
        true
    }

    proof fn lemma_progress(s: DecoderState) {
    }

    fn can_decode_type(type_num: u16) -> (b: bool) {
        false
    }

    fn decode(decoder: &mut Decoder) -> (r: Result<Self, Error>) {
        proof {
            lemma_pow256_values();
        }
        let x = decoder.read_uint(8)?;
        Ok(x)
    }

    fn decode_tv(decoder: &mut Decoder, tv_id: u8) -> (r: Result<Self, Error>) {
        decoder.check_tv_type(tv_id)?;
        Self::decode(decoder)
    }

    fn encode(&self, encoder: &mut Encoder) {
        proof {
            lemma_pow256_values();
        }
        encoder.write_uint(*self, 8);
    }

    fn encode_tv(&self, encoder: &mut Encoder, tv_id: u8) {
        encoder.write_param_type(ParameterType::Tv(tv_id));
        self.encode(encoder);
    }
}

/// A signed 64-bit number: 8 bytes, big-endian, two's complement.
impl LLRPValue for i64 {
    open spec fn accepts(type_num: u16) -> bool {
        false
    }

    open spec fn parse(s: DecoderState) -> Result<(i64, DecoderState), Error> {
        match s.uint(8) {
            Err(e) => Err(e),
            Ok((x, s1)) => Ok((to_signed(x, 8) as i64, s1)),
        }
    }

    open spec fn parse_tv(s: DecoderState, tv_id: u8) -> Result<(i64, DecoderState), Error> {
        behind_tv(s, tv_id, |s1: DecoderState| Self::parse(s1))
    }

    open spec fn emit(v: i64, s: EncoderState) -> EncoderState {
        s.write_uint(from_signed(v as int, 8), 8)
    }

    open spec fn emit_tv(v: i64, s: EncoderState, tv_id: u8) -> EncoderState {
        Self::emit(v, s.write_param_type(ParameterType::Tv(tv_id)))
    }

    open spec fn wire(v: i64) -> Seq<u8> {
        be_bytes(from_signed(v as int, 8), 8)
    }

    open spec fn canonical(v: i64) -> bool {
        true
    }

    open spec fn follow_ok(v: i64, next: Seq<u8>) -> bool {
        true
    }

    proof fn lemma_emit(v: i64, s: EncoderState) {
    }

    proof fn lemma_parse(v: i64, next: Seq<u8>) {
        lemma_pow256_values();
        lemma_uint_front(from_signed(v as int, 8), 8, next);
    }

    open spec fn atomic() -> bool {
        true
    }

    proof fn lemma_progress(s: DecoderState) {
    }

    fn can_decode_type(type_num: u16) -> (b: bool) {
        false
    }

    fn decode(decoder: &mut Decoder) -> (r: Result<Self, Error>) {
        proof {
            lemma_pow256_values();
        }
        let x = decoder.read_uint(8)?;
        if x >= 0x8000_0000_0000_0000 {
            Ok(((x - 0x8000_0000_0000_0000) as i64) + i64::MIN)
        } else {
            Ok(x as i64)
        }
    }

    fn decode_tv(decoder: &mut Decoder, tv_id: u8) -> (r: Result<Self, Error>) {
        decoder.check_tv_type(tv_id)?;
        Self::decode(decoder)
    }

    fn encode(&self, encoder: &mut Encoder) {
        proof {
            lemma_pow256_values();
        }
        let x: u64 = if *self < 0 {
            ((*self - i64::MIN) as u64) + 0x8000_0000_0000_0000
        } else {
            *self as u64
        };
        encoder.write_uint(x, 8);
    }

    fn encode_tv(&self, encoder: &mut Encoder, tv_id: u8) {
        encoder.write_param_type(ParameterType::Tv(tv_id));
        self.encode(encoder);
    }
}

/// Where no bit is waiting, an optional `u8` behind the TV header
/// `tv_id` is written as the header byte and the number, or as nothing.
pub proof fn lemma_tv_written_u8(v: Option<u8>, tv_id: u8, s: EncoderState)
    requires
        s.aligned(),
    ensures
        <Option<u8> as LLRPValue>::emit_tv(v, s, tv_id) == s.write_bytes(tv_wire::<u8>(v, tv_id)),
{
    match v {
        Some(x) => {
            let header = seq![(tv_id % 128 + 128) as u8];
            assert((s.bytes + header) + <u8 as LLRPValue>::wire(x) =~= s.bytes + (header + <
                u8 as LLRPValue
            >::wire(x)));
        },
        None => {
            assert(s.bytes + Seq::<u8>::empty() =~= s.bytes);
        },
    }
}

/// An optional `u8` behind the TV header `tv_id` is read back from its
/// bytes; where it is absent, the next header must be another one.
pub proof fn lemma_tv_front_u8(v: Option<u8>, tv_id: u8, next: Seq<u8>)
    requires
        tv_id < 128,
        tv_follow_ok(v is Some, tv_id, next),
    ensures
        <Option<u8> as LLRPValue>::parse_tv(
            DecoderState::start(tv_wire::<u8>(v, tv_id) + next),
            tv_id,
        ) == Ok::<(Option<u8>, DecoderState), Error>((v, DecoderState::start(next))),
{
    match v {
        Some(x) => {
            let header = seq![(tv_id % 128 + 128) as u8];
            let rest = <u8 as LLRPValue>::wire(x) + next;
            let s = DecoderState::start(tv_wire::<u8>(v, tv_id) + next);
            assert(s.bytes =~= header + rest);
            assert(s.bytes[0] == (tv_id + 128) as u8);
            assert(s.bytes.skip(1) =~= rest);
            <u8 as LLRPValue>::lemma_parse(x, next);
        },
        None => {
            assert(Seq::<u8>::empty() + next =~= next);
        },
    }
}

/// Where no bit is waiting, an optional `i8` behind the TV header
/// `tv_id` is written as the header byte and the number, or as nothing.
pub proof fn lemma_tv_written_i8(v: Option<i8>, tv_id: u8, s: EncoderState)
    requires
        s.aligned(),
    ensures
        <Option<i8> as LLRPValue>::emit_tv(v, s, tv_id) == s.write_bytes(tv_wire::<i8>(v, tv_id)),
{
    match v {
        Some(x) => {
            let header = seq![(tv_id % 128 + 128) as u8];
            assert((s.bytes + header) + <i8 as LLRPValue>::wire(x) =~= s.bytes + (header + <
                i8 as LLRPValue
            >::wire(x)));
        },
        None => {
            assert(s.bytes + Seq::<u8>::empty() =~= s.bytes);
        },
    }
}

/// An optional `i8` behind the TV header `tv_id` is read back from its
/// bytes; where it is absent, the next header must be another one.
pub proof fn lemma_tv_front_i8(v: Option<i8>, tv_id: u8, next: Seq<u8>)
    requires
        tv_id < 128,
        tv_follow_ok(v is Some, tv_id, next),
    ensures
        <Option<i8> as LLRPValue>::parse_tv(
            DecoderState::start(tv_wire::<i8>(v, tv_id) + next),
            tv_id,
        ) == Ok::<(Option<i8>, DecoderState), Error>((v, DecoderState::start(next))),
{
    match v {
        Some(x) => {
            let header = seq![(tv_id % 128 + 128) as u8];
            let rest = <i8 as LLRPValue>::wire(x) + next;
            let s = DecoderState::start(tv_wire::<i8>(v, tv_id) + next);
            assert(s.bytes =~= header + rest);
            assert(s.bytes[0] == (tv_id + 128) as u8);
            assert(s.bytes.skip(1) =~= rest);
            <i8 as LLRPValue>::lemma_parse(x, next);
        },
        None => {
            assert(Seq::<u8>::empty() + next =~= next);
        },
    }
}

/// Where no bit is waiting, an optional `u16` behind the TV header
/// `tv_id` is written as the header byte and the number, or as nothing.
pub proof fn lemma_tv_written_u16(v: Option<u16>, tv_id: u8, s: EncoderState)
    requires
        s.aligned(),
    ensures
        <Option<u16> as LLRPValue>::emit_tv(v, s, tv_id) == s.write_bytes(tv_wire::<u16>(v, tv_id)),
{
    match v {
        Some(x) => {
            let header = seq![(tv_id % 128 + 128) as u8];
            assert((s.bytes + header) + <u16 as LLRPValue>::wire(x) =~= s.bytes + (header + <
                u16 as LLRPValue
            >::wire(x)));
        },
        None => {
            assert(s.bytes + Seq::<u8>::empty() =~= s.bytes);
        },
    }
}

/// An optional `u16` behind the TV header `tv_id` is read back from its
/// bytes; where it is absent, the next header must be another one.
pub proof fn lemma_tv_front_u16(v: Option<u16>, tv_id: u8, next: Seq<u8>)
    requires
        tv_id < 128,
        tv_follow_ok(v is Some, tv_id, next),
    ensures
        <Option<u16> as LLRPValue>::parse_tv(
            DecoderState::start(tv_wire::<u16>(v, tv_id) + next),
            tv_id,
        ) == Ok::<(Option<u16>, DecoderState), Error>((v, DecoderState::start(next))),
{
    match v {
        Some(x) => {
            let header = seq![(tv_id % 128 + 128) as u8];
            let rest = <u16 as LLRPValue>::wire(x) + next;
            let s = DecoderState::start(tv_wire::<u16>(v, tv_id) + next);
            assert(s.bytes =~= header + rest);
            assert(s.bytes[0] == (tv_id + 128) as u8);
            assert(s.bytes.skip(1) =~= rest);
            <u16 as LLRPValue>::lemma_parse(x, next);
        },
        None => {
            assert(Seq::<u8>::empty() + next =~= next);
        },
    }
}

/// Where no bit is waiting, an optional `i16` behind the TV header
/// `tv_id` is written as the header byte and the number, or as nothing.
pub proof fn lemma_tv_written_i16(v: Option<i16>, tv_id: u8, s: EncoderState)
    requires
        s.aligned(),
    ensures
        <Option<i16> as LLRPValue>::emit_tv(v, s, tv_id) == s.write_bytes(tv_wire::<i16>(v, tv_id)),
{
    match v {
        Some(x) => {
            let header = seq![(tv_id % 128 + 128) as u8];
            assert((s.bytes + header) + <i16 as LLRPValue>::wire(x) =~= s.bytes + (header + <
                i16 as LLRPValue
            >::wire(x)));
        },
        None => {
            assert(s.bytes + Seq::<u8>::empty() =~= s.bytes);
        },
    }
}

/// An optional `i16` behind the TV header `tv_id` is read back from its
/// bytes; where it is absent, the next header must be another one.
pub proof fn lemma_tv_front_i16(v: Option<i16>, tv_id: u8, next: Seq<u8>)
    requires
        tv_id < 128,
        tv_follow_ok(v is Some, tv_id, next),
    ensures
        <Option<i16> as LLRPValue>::parse_tv(
            DecoderState::start(tv_wire::<i16>(v, tv_id) + next),
            tv_id,
        ) == Ok::<(Option<i16>, DecoderState), Error>((v, DecoderState::start(next))),
{
    match v {
        Some(x) => {
            let header = seq![(tv_id % 128 + 128) as u8];
            let rest = <i16 as LLRPValue>::wire(x) + next;
            let s = DecoderState::start(tv_wire::<i16>(v, tv_id) + next);
            assert(s.bytes =~= header + rest);
            assert(s.bytes[0] == (tv_id + 128) as u8);
            assert(s.bytes.skip(1) =~= rest);
            <i16 as LLRPValue>::lemma_parse(x, next);
        },
        None => {
            assert(Seq::<u8>::empty() + next =~= next);
        },
    }
}

/// Where no bit is waiting, an optional `u32` behind the TV header
/// `tv_id` is written as the header byte and the number, or as nothing.
pub proof fn lemma_tv_written_u32(v: Option<u32>, tv_id: u8, s: EncoderState)
    requires
        s.aligned(),
    ensures
        <Option<u32> as LLRPValue>::emit_tv(v, s, tv_id) == s.write_bytes(tv_wire::<u32>(v, tv_id)),
{
    match v {
        Some(x) => {
            let header = seq![(tv_id % 128 + 128) as u8];
            assert((s.bytes + header) + <u32 as LLRPValue>::wire(x) =~= s.bytes + (header + <
                u32 as LLRPValue
            >::wire(x)));
        },
        None => {
            assert(s.bytes + Seq::<u8>::empty() =~= s.bytes);
        },
    }
}

/// An optional `u32` behind the TV header `tv_id` is read back from its
/// bytes; where it is absent, the next header must be another one.
pub proof fn lemma_tv_front_u32(v: Option<u32>, tv_id: u8, next: Seq<u8>)
    requires
        tv_id < 128,
        tv_follow_ok(v is Some, tv_id, next),
    ensures
        <Option<u32> as LLRPValue>::parse_tv(
            DecoderState::start(tv_wire::<u32>(v, tv_id) + next),
            tv_id,
        ) == Ok::<(Option<u32>, DecoderState), Error>((v, DecoderState::start(next))),
{
    match v {
        Some(x) => {
            let header = seq![(tv_id % 128 + 128) as u8];
            let rest = <u32 as LLRPValue>::wire(x) + next;
            let s = DecoderState::start(tv_wire::<u32>(v, tv_id) + next);
            assert(s.bytes =~= header + rest);
            assert(s.bytes[0] == (tv_id + 128) as u8);
            assert(s.bytes.skip(1) =~= rest);
            <u32 as LLRPValue>::lemma_parse(x, next);
        },
        None => {
            assert(Seq::<u8>::empty() + next =~= next);
        },
    }
}

/// Where no bit is waiting, an optional `i32` behind the TV header
/// `tv_id` is written as the header byte and the number, or as nothing.
pub proof fn lemma_tv_written_i32(v: Option<i32>, tv_id: u8, s: EncoderState)
    requires
        s.aligned(),
    ensures
        <Option<i32> as LLRPValue>::emit_tv(v, s, tv_id) == s.write_bytes(tv_wire::<i32>(v, tv_id)),
{
    match v {
        Some(x) => {
            let header = seq![(tv_id % 128 + 128) as u8];
            assert((s.bytes + header) + <i32 as LLRPValue>::wire(x) =~= s.bytes + (header + <
                i32 as LLRPValue
            >::wire(x)));
        },
        None => {
            assert(s.bytes + Seq::<u8>::empty() =~= s.bytes);
        },
    }
}

/// An optional `i32` behind the TV header `tv_id` is read back from its
/// bytes; where it is absent, the next header must be another one.
pub proof fn lemma_tv_front_i32(v: Option<i32>, tv_id: u8, next: Seq<u8>)
    requires
        tv_id < 128,
        tv_follow_ok(v is Some, tv_id, next),
    ensures
        <Option<i32> as LLRPValue>::parse_tv(
            DecoderState::start(tv_wire::<i32>(v, tv_id) + next),
            tv_id,
        ) == Ok::<(Option<i32>, DecoderState), Error>((v, DecoderState::start(next))),
{
    match v {
        Some(x) => {
            let header = seq![(tv_id % 128 + 128) as u8];
            let rest = <i32 as LLRPValue>::wire(x) + next;
            let s = DecoderState::start(tv_wire::<i32>(v, tv_id) + next);
            assert(s.bytes =~= header + rest);
            assert(s.bytes[0] == (tv_id + 128) as u8);
            assert(s.bytes.skip(1) =~= rest);
            <i32 as LLRPValue>::lemma_parse(x, next);
        },
        None => {
            assert(Seq::<u8>::empty() + next =~= next);
        },
    }
}

/// Where no bit is waiting, an optional `u64` behind the TV header
/// `tv_id` is written as the header byte and the number, or as nothing.
pub proof fn lemma_tv_written_u64(v: Option<u64>, tv_id: u8, s: EncoderState)
    requires
        s.aligned(),
    ensures
        <Option<u64> as LLRPValue>::emit_tv(v, s, tv_id) == s.write_bytes(tv_wire::<u64>(v, tv_id)),
{
    match v {
        Some(x) => {
            let header = seq![(tv_id % 128 + 128) as u8];
            assert((s.bytes + header) + <u64 as LLRPValue>::wire(x) =~= s.bytes + (header + <
                u64 as LLRPValue
            >::wire(x)));
        },
        None => {
            assert(s.bytes + Seq::<u8>::empty() =~= s.bytes);
        },
    }
}

/// An optional `u64` behind the TV header `tv_id` is read back from its
/// bytes; where it is absent, the next header must be another one.
pub proof fn lemma_tv_front_u64(v: Option<u64>, tv_id: u8, next: Seq<u8>)
    requires
        tv_id < 128,
        tv_follow_ok(v is Some, tv_id, next),
    ensures
        <Option<u64> as LLRPValue>::parse_tv(
            DecoderState::start(tv_wire::<u64>(v, tv_id) + next),
            tv_id,
        ) == Ok::<(Option<u64>, DecoderState), Error>((v, DecoderState::start(next))),
{
    match v {
        Some(x) => {
            let header = seq![(tv_id % 128 + 128) as u8];
            let rest = <u64 as LLRPValue>::wire(x) + next;
            let s = DecoderState::start(tv_wire::<u64>(v, tv_id) + next);
            assert(s.bytes =~= header + rest);
            assert(s.bytes[0] == (tv_id + 128) as u8);
            assert(s.bytes.skip(1) =~= rest);
            <u64 as LLRPValue>::lemma_parse(x, next);
        },
        None => {
            assert(Seq::<u8>::empty() + next =~= next);
        },
    }
}

/// Where no bit is waiting, an optional `i64` behind the TV header
/// `tv_id` is written as the header byte and the number, or as nothing.
pub proof fn lemma_tv_written_i64(v: Option<i64>, tv_id: u8, s: EncoderState)
    requires
        s.aligned(),
    ensures
        <Option<i64> as LLRPValue>::emit_tv(v, s, tv_id) == s.write_bytes(tv_wire::<i64>(v, tv_id)),
{
    match v {
        Some(x) => {
            let header = seq![(tv_id % 128 + 128) as u8];
            assert((s.bytes + header) + <i64 as LLRPValue>::wire(x) =~= s.bytes + (header + <
                i64 as LLRPValue
            >::wire(x)));
        },
        None => {
            assert(s.bytes + Seq::<u8>::empty() =~= s.bytes);
        },
    }
}

/// An optional `i64` behind the TV header `tv_id` is read back from its
/// bytes; where it is absent, the next header must be another one.
pub proof fn lemma_tv_front_i64(v: Option<i64>, tv_id: u8, next: Seq<u8>)
    requires
        tv_id < 128,
        tv_follow_ok(v is Some, tv_id, next),
    ensures
        <Option<i64> as LLRPValue>::parse_tv(
            DecoderState::start(tv_wire::<i64>(v, tv_id) + next),
            tv_id,
        ) == Ok::<(Option<i64>, DecoderState), Error>((v, DecoderState::start(next))),
{
    match v {
        Some(x) => {
            let header = seq![(tv_id % 128 + 128) as u8];
            let rest = <i64 as LLRPValue>::wire(x) + next;
            let s = DecoderState::start(tv_wire::<i64>(v, tv_id) + next);
            assert(s.bytes =~= header + rest);
            assert(s.bytes[0] == (tv_id + 128) as u8);
            assert(s.bytes.skip(1) =~= rest);
            <i64 as LLRPValue>::lemma_parse(x, next);
        },
        None => {
            assert(Seq::<u8>::empty() + next =~= next);
        },
    }
}

} // verus!
