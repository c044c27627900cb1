//! Properties of the format that hold of every input.

use vstd::prelude::*;
use crate::decoder::DecoderState;
use crate::encoder::EncoderState;
use crate::error::Error;
use crate::value::{announced, lemma_tlv_written, tlv_parse, tlv_wire, LLRPValue, TlvParameter};
use crate::wire::{
    be_bytes, be_uint, lemma_be_bytes_len, lemma_be_uint_of_be_bytes, lemma_pow256_values,
};

verus! {

/// The length field of a written TLV parameter counts every byte of the
/// parameter, from the first byte of its header to its last byte, as long
/// as sixteen bits hold that number.
pub proof fn lemma_tlv_length<T: TlvParameter>(v: T::V, s: EncoderState)
    requires
        s.aligned(),
        T::wire_body(v).len() + 4 < 0x1_0000,
    ensures
        ({
            let end = <T as LLRPValue>::emit(v, s);
            let at = s.bytes.len() as int;
            &&& end.bytes.len() >= at + 4
            &&& be_uint(end.bytes.subrange(at + 2, at + 4)) == end.bytes.len() - at
        }),
{
    let body = T::wire_body(v);
    let total = (body.len() + 4) as nat;
    T::lemma_emit_body(v, s.tlv_open(T::ID));
    lemma_tlv_written(s, T::ID, body);
    let end = <T as LLRPValue>::emit(v, s);
    let at = s.bytes.len() as int;
    lemma_be_bytes_len(T::ID as nat, 2);
    lemma_be_bytes_len(total, 2);
    lemma_pow256_values();
    lemma_be_uint_of_be_bytes(total, 2);
    assert(end.bytes =~= s.bytes + tlv_wire(T::ID, body));
    assert(end.bytes.subrange(at + 2, at + 4) =~= be_bytes(total, 2));
}

/// A TLV parameter is only read with success where its body was read to
/// the end: the decoder of the body has no byte left, and its bit
/// accumulator holds no bit.
pub proof fn lemma_tlv_used_up<V>(
    s: DecoderState,
    tlv_id: u16,
    body: spec_fn(DecoderState) -> Result<(V, DecoderState), Error>,
)
    requires
        tlv_parse(s, tlv_id, body) is Ok,
    ensures
        s.tlv_open(tlv_id) is Ok,
        body(s.tlv_open(tlv_id)->Ok_0) is Ok,
        body(s.tlv_open(tlv_id)->Ok_0)->Ok_0.1.bytes.len() == 0,
        body(s.tlv_open(tlv_id)->Ok_0)->Ok_0.1.valid_bits == 0,
        tlv_parse(s, tlv_id, body)->Ok_0.0 == body(s.tlv_open(tlv_id)->Ok_0)->Ok_0.0,
{
}

/// The same for every parameter type: where reading a parameter succeeds,
/// the fields of its body have used up the body.
pub proof fn lemma_parameter_used_up<T: TlvParameter>(s: DecoderState)
    requires
        <T as LLRPValue>::parse(s) is Ok,
    ensures
        s.tlv_open(T::ID) is Ok,
        T::parse_body(s.tlv_open(T::ID)->Ok_0) is Ok,
        T::parse_body(s.tlv_open(T::ID)->Ok_0)->Ok_0.1.bytes.len() == 0,
        T::parse_body(s.tlv_open(T::ID)->Ok_0)->Ok_0.1.valid_bits == 0,
{
}

/// After a parameter has been read, the bit accumulator holds no bit: what
/// follows the parameter starts on a byte boundary.
pub proof fn lemma_parameter_aligned<T: TlvParameter>(s: DecoderState)
    requires
        <T as LLRPValue>::parse(s) is Ok,
    ensures
        <T as LLRPValue>::parse(s)->Ok_0.1.aligned(),
{
}

/// An optional value whose type the next header does not announce is
/// absent, and reading it leaves the decoder where it was: what follows is
/// read as if the optional were not part of the format.
pub proof fn lemma_option_soak<T: LLRPValue>(s: DecoderState)
    requires
        !announced::<T>(s.bytes),
    ensures
        <Option<T> as LLRPValue>::parse(s) == Ok::<(Option<T::V>, DecoderState), Error>((None, s)),
{
}

/// A run of parameters stops without error in front of the first header
/// that its type does not accept.
pub proof fn lemma_vec_stops<T: LLRPValue>(s: DecoderState)
    requires
        !announced::<T>(s.bytes),
    ensures
        <Vec<T> as LLRPValue>::parse(s) == Ok::<(Seq<T::V>, DecoderState), Error>(
            (Seq::empty(), s),
        ),
{
}

/// A run of parameters takes every adjacent parameter that its type
/// accepts: where it ends with success, the next header is not one of them.
pub proof fn lemma_vec_maximal<T: LLRPValue>(s: DecoderState)
    requires
        <Vec<T> as LLRPValue>::parse(s) is Ok,
    ensures
        !announced::<T>(<Vec<T> as LLRPValue>::parse(s)->Ok_0.1.bytes),
    decreases s.bytes.len(),
{
    if announced::<T>(s.bytes) {
        T::lemma_progress(s);
        let s1 = T::parse(s)->Ok_0.1;
        lemma_vec_maximal::<T>(s1);
    }
}

/// Every element of a run comes from a header that the type accepts: the
/// run is as long as the number of such parameters in a row.
pub proof fn lemma_vec_step<T: LLRPValue>(s: DecoderState)
    requires
        announced::<T>(s.bytes),
        <Vec<T> as LLRPValue>::parse(s) is Ok,
    ensures
        T::parse(s) is Ok,
        <Vec<T> as LLRPValue>::parse(T::parse(s)->Ok_0.1) is Ok,
        <Vec<T> as LLRPValue>::parse(s)->Ok_0.0 == seq![T::parse(s)->Ok_0.0] + <Vec<
            T,
        > as LLRPValue>::parse(T::parse(s)->Ok_0.1)->Ok_0.0,
        <Vec<T> as LLRPValue>::parse(s)->Ok_0.1 == <Vec<T> as LLRPValue>::parse(
            T::parse(s)->Ok_0.1,
        )->Ok_0.1,
{
    T::lemma_progress(s);
}

} // verus!
