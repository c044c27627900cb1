//! Length-checked operations on byte slices.

use vstd::prelude::*;
use vstd::slice::slice_subrange;
use crate::decoder::{Decoder, DecoderState};
use crate::value::{Bits, LLRPValue, TlvParameter};
use crate::error::Error;
use crate::wire::{be_uint, lemma_be_uint_2};

verus! {

/// Divides `data` in two at `mid`, or fails where `data` is shorter.
pub fn split_at_checked(data: &[u8], mid: usize) -> (r: Result<(&[u8], &[u8]), Error>)
    ensures
        match DecoderState::start(data@).take(mid) {
            Ok((head, s)) => r is Ok && r->Ok_0.0@ == head && r->Ok_0.1@ == s.bytes,
            Err(e) => r == Err::<(&[u8], &[u8]), Error>(e),
        },
{
    if data.len() < mid {
        return Err(Error::InsufficientData { needed: mid, remaining: data.len() });
    }
    Ok((slice_subrange(data, 0, mid), slice_subrange(data, mid, data.len())))
}

/// What a 16-bit length at the front of `data` announces, and what follows it.
pub open spec fn length_prefixed(data: Seq<u8>) -> Result<(Seq<u8>, Seq<u8>), Error> {
    match DecoderState::start(data).uint(2) {
        Err(e) => Err(e),
        Ok((len, s)) => match s.take(len as usize) {
            Err(e) => Err(e),
            Ok((head, s1)) => Ok((head, s1.bytes)),
        },
    }
}

/// Divides `data` in two behind a 16-bit length: the bytes that the length
/// announces, and the rest.
pub fn split_with_u16_length(data: &[u8]) -> (r: Result<(&[u8], &[u8]), Error>)
    ensures
        match length_prefixed(data@) {
            Ok((head, rest)) => r is Ok && r->Ok_0.0@ == head && r->Ok_0.1@ == rest,
            Err(e) => r == Err::<(&[u8], &[u8]), Error>(e),
        },
{
    let (len_bytes, data) = split_at_checked(data, 2)?;
    proof {
        lemma_be_uint_2(len_bytes@);
    }
    let len: usize = (len_bytes[0] as usize) * 256 + (len_bytes[1] as usize);
    split_at_checked(data, len)
}

/// Fails unless every byte of a parameter's body has been consumed.
pub fn validate_consumed(data: &[u8]) -> (r: Result<(), Error>)
    ensures
        r == DecoderState::start(data@).consumed(),
{
    Decoder::new(data).validate_consumed()
}

/// The ten bits of type in a TLV header at the front of `data`.
pub open spec fn tlv_type(data: Seq<u8>) -> Result<u16, Error> {
    if data.len() < 2 {
        Err(Error::InsufficientData { needed: 2, remaining: data.len() as usize })
    } else {
        Ok((be_uint(data.take(2)) % 1024) as u16)
    }
}

/// Reads the type of the TLV parameter at the front of `data`.
pub fn get_tlv_message_type(data: &[u8]) -> (r: Result<u16, Error>)
    ensures
        r == tlv_type(data@),
{
    if data.len() < 2 {
        return Err(Error::InsufficientData { needed: 2, remaining: data.len() });
    }
    proof {
        lemma_be_uint_2(data@.take(2));
    }
    let raw: u16 = (data[0] as u16) * 256 + (data[1] as u16);
    Ok(raw % 1024)
}

/// Checks the header of the TLV parameter `target_type` at the front of
/// `data`; gives the parameter's body and the bytes behind the parameter.
pub fn parse_tlv_header(data: &[u8], target_type: u16) -> (r: Result<(&[u8], &[u8]), Error>)
    ensures
        match DecoderState::start(data@).tlv_open(target_type) {
            Ok(body) => r is Ok && r->Ok_0.0@ == body.bytes && r->Ok_0.1@ == data@.skip(
                DecoderState::start(data@).tlv_len() as int,
            ),
            Err(e) => r == Err::<(&[u8], &[u8]), Error>(e),
        },
{
    let decoder = Decoder::new(data);
    let body = decoder.tlv_enter(target_type)?;
    proof {
        lemma_be_uint_2(data@.subrange(2, 4));
    }
    let len: usize = (data[2] as usize) * 256 + (data[3] as usize);
    Ok((body.rest(), slice_subrange(data, len, data.len())))
}

/// A value that can be read from the front of a byte slice.
pub trait LLRPDecodable: Sized + DeepView {
    /// The value at the front of `data` and the bytes behind it, or the error.
    spec fn parse_slice(data: Seq<u8>) -> Result<(Self::V, Seq<u8>), Error>;

    /// Reads a value from the front of `data`; gives it and the bytes behind it.
    fn decode(data: &[u8]) -> (r: Result<(Self, &[u8]), Error>)
        ensures
            match Self::parse_slice(data@) {
                Ok((v, rest)) => r is Ok && r->Ok_0.0.deep_view() == v && r->Ok_0.1@ == rest,
                Err(e) => r == Err::<(Self, &[u8]), Error>(e),
            },
    ;
}

/// Every value can be read from a slice: it is read as from a decoder that
/// starts on the slice, and what the decoder has left is handed back.
impl<T: LLRPValue> LLRPDecodable for T {
    open spec fn parse_slice(data: Seq<u8>) -> Result<(T::V, Seq<u8>), Error> {
        match <T as LLRPValue>::parse(DecoderState::start(data)) {
            Err(e) => Err(e),
            Ok((v, s)) => Ok((v, s.bytes)),
        }
    }

    fn decode(data: &[u8]) -> (r: Result<(Self, &[u8]), Error>) {
        let mut decoder = Decoder::new(data);
        let value = <T as LLRPValue>::decode(&mut decoder)?;
        Ok((value, decoder.rest()))
    }
}

/// A TLV parameter that can be read from the front of a byte slice.
pub trait TlvDecodable: Sized + DeepView {
    /// The parameter's type number.
    const ID: u16;

    /// The parameter at the front of `data` and the bytes behind it, or the error.
    spec fn parse_tlv(data: Seq<u8>) -> Result<(Self::V, Seq<u8>), Error>;

    /// Reads the parameter from the front of `data`: header, length and
    /// body; gives it and the bytes behind it.
    fn decode_tlv(data: &[u8]) -> (r: Result<(Self, &[u8]), Error>)
        ensures
            match Self::parse_tlv(data@) {
                Ok((v, rest)) => r is Ok && r->Ok_0.0.deep_view() == v && r->Ok_0.1@ == rest,
                Err(e) => r == Err::<(Self, &[u8]), Error>(e),
            },
    ;
}

impl<T: TlvParameter> TlvDecodable for T {
    const ID: u16 = <T as TlvParameter>::ID;

    open spec fn parse_tlv(data: Seq<u8>) -> Result<(T::V, Seq<u8>), Error> {
        match <T as LLRPValue>::parse(DecoderState::start(data)) {
            Err(e) => Err(e),
            Ok((v, s)) => Ok((v, s.bytes)),
        }
    }

    fn decode_tlv(data: &[u8]) -> (r: Result<(Self, &[u8]), Error>) {
        let mut decoder = Decoder::new(data);
        let value = <T as LLRPValue>::decode(&mut decoder)?;
        Ok((value, decoder.rest()))
    }
}

/// A value that can be read from the front of a byte slice behind a TV header.
pub trait TvDecodable: Sized + DeepView {
    /// The value behind the TV header `id` at the front of `data` and the
    /// bytes behind it, or the error.
    spec fn parse_tv_slice(data: Seq<u8>, id: u8) -> Result<(Self::V, Seq<u8>), Error>;

    /// Reads a value behind the TV header `id` from the front of `data`;
    /// gives it and the bytes behind it.
    fn decode_tv(data: &[u8], id: u8) -> (r: Result<(Self, &[u8]), Error>)
        ensures
            match Self::parse_tv_slice(data@, id) {
                Ok((v, rest)) => r is Ok && r->Ok_0.0.deep_view() == v && r->Ok_0.1@ == rest,
                Err(e) => r == Err::<(Self, &[u8]), Error>(e),
            },
    ;
}

/// An optional value behind a TV header: absent, and nothing taken, where
/// the data begin with another header.
impl<T: LLRPValue> TvDecodable for Option<T> {
    open spec fn parse_tv_slice(data: Seq<u8>, id: u8) -> Result<(Option<T::V>, Seq<u8>), Error> {
        match <Option<T> as LLRPValue>::parse_tv(DecoderState::start(data), id) {
            Err(e) => Err(e),
            Ok((v, s)) => Ok((v, s.bytes)),
        }
    }

    fn decode_tv(data: &[u8], id: u8) -> (r: Result<(Self, &[u8]), Error>) {
        let mut decoder = Decoder::new(data);
        let value = <Option<T> as LLRPValue>::decode_tv(&mut decoder, id)?;
        Ok((value, decoder.rest()))
    }
}

/// A value that bits of the accumulator can be widened to.
pub trait FromBits: Sized {
    /// The value that the bits stand for.
    spec fn bits_value(bits: u32) -> Self;

    fn from_bits(bits: u32) -> (v: Self)
        ensures
            v == Self::bits_value(bits),
    ;
}

impl<T: Bits> FromBits for T {
    open spec fn bits_value(bits: u32) -> T {
        <T as Bits>::of_bits(bits)
    }

    fn from_bits(bits: u32) -> (v: Self) {
        <T as Bits>::from_bits(bits)
    }
}

} // verus!
