//! What travels on the wire: the traits of values, parameters, messages and
//! enumerations, the containers, and the typed operations of the decoder and
//! the encoder.

use vstd::prelude::*;
use vstd::arithmetic::power2::pow2;
use vstd::utf8::{decode_utf8, encode_utf8, valid_utf8};
use crate::decoder::{lemma_take_front, lemma_uint_front, Decoder, DecoderState, ParameterType};
use crate::encoder::{Encoder, EncoderState};
use crate::error::{Error, IoErrorKind};
use crate::wire::{be_bytes, lemma_be_bytes_len, lemma_pow256_values};

verus! {

/// Whether `r` and `end` are what a decoder hands back when the model of the
/// format gives `model`: the value whose deep view is the model's, in the
/// model's end state, or the model's error.
pub open spec fn decoded<T: DeepView>(
    model: Result<(T::V, DecoderState), Error>,
    r: Result<T, Error>,
    end: DecoderState,
) -> bool {
    match model {
        Ok((v, s)) => r is Ok && r->Ok_0.deep_view() == v && end == s,
        Err(e) => r == Err::<T, Error>(e),
    }
}

/// A value with a place in the wire format.
pub trait LLRPValue: Sized + DeepView {
    /// Whether a parameter header with this type number starts a value of this type.
    spec fn accepts(type_num: u16) -> bool;

    /// The value read from state `s` and the state behind it, or the error.
    spec fn parse(s: DecoderState) -> Result<(Self::V, DecoderState), Error>;

    /// The same for a value that travels behind the TV header `tv_id`.
    spec fn parse_tv(s: DecoderState, tv_id: u8) -> Result<(Self::V, DecoderState), Error>;

    /// The state after `v` has been written in state `s`.
    spec fn emit(v: Self::V, s: EncoderState) -> EncoderState;

    /// The same for a value that travels behind the TV header `tv_id`.
    spec fn emit_tv(v: Self::V, s: EncoderState, tv_id: u8) -> EncoderState;

    /// The bytes that writing `v` appends where no bit is waiting.
    spec fn wire(v: Self::V) -> Seq<u8>;

    /// Whether `v` fits the format: every count and length fits its field.
    spec fn canonical(v: Self::V) -> bool;

    /// Whether the bytes `next` can stand behind those of `v`: a part that
    /// `v` leaves out must not seem to be there.
    spec fn follow_ok(v: Self::V, next: Seq<u8>) -> bool;

    /// Where no bit is waiting, writing `v` appends its bytes and leaves no
    /// bit waiting.
    proof fn lemma_emit(v: Self::V, s: EncoderState)
        requires
            s.aligned(),
        ensures
            Self::emit(v, s) == s.write_bytes(Self::wire(v)),
    ;

    /// What was written is read back: from the bytes of a value that fits
    /// the format, and before bytes that can stand behind it, reading gives
    /// the value and stops in front of those bytes.
    proof fn lemma_parse(v: Self::V, next: Seq<u8>)
        ensures
            Self::canonical(v) && Self::follow_ok(v, next) ==> Self::parse(
                DecoderState::start(Self::wire(v) + next),
            ) == Ok::<(Self::V, DecoderState), Error>((v, DecoderState::start(next))),
    ;

    /// Whether a read that fails leaves the decoder where it was. Where this
    /// does not hold, a failed read may have taken the fields in front of the
    /// one that failed.
    spec fn atomic() -> bool;

    /// A value that starts with an accepted header takes at least one byte.
    proof fn lemma_progress(s: DecoderState)
        ensures
            s.peek() is Ok && Self::accepts(s.peek()->Ok_0.number()) && Self::parse(s) is Ok
                ==> Self::parse(s)->Ok_0.1.bytes.len() < s.bytes.len(),
    ;

    fn can_decode_type(type_num: u16) -> (b: bool)
        ensures
            b == Self::accepts(type_num),
    ;

    fn decode(decoder: &mut Decoder) -> (r: Result<Self, Error>)
        ensures
            decoded::<Self>(Self::parse(old(decoder)@), r, final(decoder)@),
            r is Err && Self::atomic() ==> final(decoder)@ == old(decoder)@,
    ;

    /// Where the header is not the one asked for, nothing is taken.
    fn decode_tv(decoder: &mut Decoder, tv_id: u8) -> (r: Result<Self, Error>)
        ensures
            decoded::<Self>(Self::parse_tv(old(decoder)@, tv_id), r, final(decoder)@),
            r is Err && old(decoder)@.tv_header(tv_id) is Err ==> final(decoder)@ == old(
                decoder,
            )@,
    ;

    fn encode(&self, encoder: &mut Encoder)
        ensures
            final(encoder)@ == Self::emit(self.deep_view(), old(encoder)@),
    ;

    fn encode_tv(&self, encoder: &mut Encoder, tv_id: u8)
        ensures
            final(encoder)@ == Self::emit_tv(self.deep_view(), old(encoder)@, tv_id),
    ;
}

/// Reading behind the TV header `tv_id`: the header is checked and
/// consumed, then `parse` reads the value.
pub open spec fn behind_tv<V>(
    s: DecoderState,
    tv_id: u8,
    parse: spec_fn(DecoderState) -> Result<(V, DecoderState), Error>,
) -> Result<(V, DecoderState), Error> {
    match s.tv_header(tv_id) {
        Err(e) => Err(e),
        Ok(s1) => parse(s1),
    }
}

impl<T: LLRPValue> LLRPValue for Option<T> {
    open spec fn accepts(type_num: u16) -> bool {
        T::accepts(type_num)
    }

    open spec fn parse(s: DecoderState) -> Result<(Option<T::V>, DecoderState), Error> {
        match s.peek() {
            Ok(ty) => if T::accepts(ty.number()) {
                match T::parse(s) {
                    Err(e) => Err(e),
                    Ok((v, s1)) => Ok((Some(v), s1)),
                }
            } else {
                Ok((None, s))
            },
            Err(_) => Ok((None, s)),
        }
    }

    open spec fn parse_tv(s: DecoderState, tv_id: u8) -> Result<(Option<T::V>, DecoderState), Error> {
        if s.peek() == Ok::<_, Error>(ParameterType::Tv(tv_id)) {
            match T::parse_tv(s, tv_id) {
                Err(e) => Err(e),
                Ok((v, s1)) => Ok((Some(v), s1)),
            }
        } else {
            Ok((None, s))
        }
    }

    open spec fn emit(v: Option<T::V>, s: EncoderState) -> EncoderState {
        match v {
            Some(x) => T::emit(x, s),
            None => s,
        }
    }

    open spec fn emit_tv(v: Option<T::V>, s: EncoderState, tv_id: u8) -> EncoderState {
        match v {
            Some(x) => T::emit_tv(x, s, tv_id),
            None => s,
        }
    }

    open spec fn wire(v: Option<T::V>) -> Seq<u8> {
        match v {
            Some(x) => T::wire(x),
            None => Seq::empty(),
        }
    }

    open spec fn canonical(v: Option<T::V>) -> bool {
        match v {
            Some(x) => T::canonical(x),
            None => true,
        }
    }

    open spec fn follow_ok(v: Option<T::V>, next: Seq<u8>) -> bool {
        match v {
            Some(x) => announced::<T>(T::wire(x) + next) && T::follow_ok(x, next),
            None => !announced::<T>(next),
        }
    }

    proof fn lemma_emit(v: Option<T::V>, s: EncoderState) {
        match v {
            Some(x) => {
                T::lemma_emit(x, s);
            },
            None => {
                assert(s.bytes + Seq::<u8>::empty() =~= s.bytes);
            },
        }
    }

    proof fn lemma_parse(v: Option<T::V>, next: Seq<u8>) {
        match v {
            Some(x) => {
                T::lemma_parse(x, next);
            },
            None => {
                assert(Seq::<u8>::empty() + next =~= next);
            },
        }
    }

    open spec fn atomic() -> bool {
        T::atomic()
    }

    proof fn lemma_progress(s: DecoderState) {
        T::lemma_progress(s);
    }

    fn can_decode_type(type_num: u16) -> (b: bool) {
        T::can_decode_type(type_num)
    }

    fn decode(decoder: &mut Decoder) -> (r: Result<Self, Error>) {
        match decoder.peek_param_type() {
            Ok(ty) => {
                if T::can_decode_type(ty.as_u16()) {
                    let v = T::decode(decoder)?;
                    Ok(Some(v))
                } else {
                    Ok(None)
                }
            },
            Err(_) => Ok(None),
        }
    }

    fn decode_tv(decoder: &mut Decoder, tv_id: u8) -> (r: Result<Self, Error>) {
        match decoder.peek_param_type() {
            Ok(ParameterType::Tv(ty)) => {
                if ty == tv_id {
                    let v = T::decode_tv(decoder, tv_id)?;
                    Ok(Some(v))
                } else {
                    Ok(None)
                }
            },
            _ => Ok(None),
        }
    }

    fn encode(&self, encoder: &mut Encoder) {
        if let Some(value) = self {
            value.encode(encoder);
        }
    }

    fn encode_tv(&self, encoder: &mut Encoder, tv_id: u8) {
        if let Some(value) = self {
            value.encode_tv(encoder, tv_id);
        }
    }
}

/// The bytes of an optional value behind the TV header `tv_id`: the header
/// byte and the value, or nothing.
pub open spec fn tv_wire<T: LLRPValue>(v: Option<T::V>, tv_id: u8) -> Seq<u8> {
    match v {
        Some(x) => seq![(tv_id % 128 + 128) as u8] + T::wire(x),
        None => Seq::empty(),
    }
}

/// Whether `next` can stand behind an optional value with the TV header
/// `tv_id`: behind an absent one, the next header must be another.
pub open spec fn tv_follow_ok(present: bool, tv_id: u8, next: Seq<u8>) -> bool {
    present || DecoderState::start(next).peek() != Ok::<ParameterType, Error>(
        ParameterType::Tv(tv_id),
    )
}

/// Whether `bytes` begin with a header that `T` accepts.
pub open spec fn announced<T: LLRPValue>(bytes: Seq<u8>) -> bool {
    match DecoderState::start(bytes).peek() {
        Ok(ty) => T::accepts(ty.number()),
        Err(_) => false,
    }
}

/// The result of a run of parameters that goes on with `tail` after `head`.
pub open spec fn prepend<V>(head: Seq<V>, tail: Result<(Seq<V>, DecoderState), Error>) -> Result<
    (Seq<V>, DecoderState),
    Error,
> {
    match tail {
        Err(e) => Err(e),
        Ok((vs, s)) => Ok((head + vs, s)),
    }
}

/// A run of adjacent parameters: it goes on while the next header is one
/// that `T` accepts, and ends without error at the first other header or at
/// the end of the data.
impl<T: LLRPValue> LLRPValue for Vec<T> {
    open spec fn accepts(type_num: u16) -> bool {
        T::accepts(type_num)
    }

    open spec fn parse(s: DecoderState) -> Result<(Seq<T::V>, DecoderState), Error>
        decreases s.bytes.len(),
    {
        match s.peek() {
            Ok(ty) => if T::accepts(ty.number()) {
                match T::parse(s) {
                    Err(e) => Err(e),
                    Ok((v, s1)) => if s1.bytes.len() < s.bytes.len() {
                        prepend(seq![v], Self::parse(s1))
                    } else {
                        Ok((seq![v], s1))
                    },
                }
            } else {
                Ok((Seq::empty(), s))
            },
            Err(_) => Ok((Seq::empty(), s)),
        }
    }

    open spec fn parse_tv(s: DecoderState, tv_id: u8) -> Result<(Seq<T::V>, DecoderState), Error> {
        behind_tv(s, tv_id, |s1: DecoderState| Self::parse(s1))
    }

    open spec fn emit(v: Seq<T::V>, s: EncoderState) -> EncoderState
        decreases v.len(),
    {
        if v.len() == 0 {
            s
        } else {
            Self::emit(v.drop_first(), T::emit(v[0], s))
        }
    }

    open spec fn emit_tv(v: Seq<T::V>, s: EncoderState, tv_id: u8) -> EncoderState {
        Self::emit(v, s.write_param_type(ParameterType::Tv(tv_id)))
    }

    open spec fn wire(v: Seq<T::V>) -> Seq<u8>
        decreases v.len(),
    {
        if v.len() == 0 {
            Seq::empty()
        } else {
            T::wire(v[0]) + Self::wire(v.drop_first())
        }
    }

    open spec fn canonical(v: Seq<T::V>) -> bool {
        forall|i: int| 0 <= i < v.len() ==> T::canonical(#[trigger] v[i])
    }

    open spec fn follow_ok(v: Seq<T::V>, next: Seq<u8>) -> bool
        decreases v.len(),
    {
        if v.len() == 0 {
            !announced::<T>(next)
        } else {
            let rest = Self::wire(v.drop_first()) + next;
            &&& announced::<T>(T::wire(v[0]) + rest)
            &&& T::follow_ok(v[0], rest)
            &&& Self::follow_ok(v.drop_first(), next)
        }
    }

    proof fn lemma_emit(v: Seq<T::V>, s: EncoderState)
        decreases v.len(),
    {
        if v.len() == 0 {
            assert(s.bytes + Seq::<u8>::empty() =~= s.bytes);
        } else {
            T::lemma_emit(v[0], s);
            let s1 = s.write_bytes(T::wire(v[0]));
            Self::lemma_emit(v.drop_first(), s1);
            assert(s1.bytes + Self::wire(v.drop_first()) =~= s.bytes + Self::wire(v));
        }
    }

    proof fn lemma_parse(v: Seq<T::V>, next: Seq<u8>)
        decreases v.len(),
    {
        if Self::canonical(v) && Self::follow_ok(v, next) {
            if v.len() == 0 {
                assert(Seq::<u8>::empty() + next =~= next);
                assert(v =~= Seq::<T::V>::empty());
            } else {
                let tail = v.drop_first();
                let rest = Self::wire(tail) + next;
                let s = DecoderState::start(Self::wire(v) + next);
                assert(Self::wire(v) + next =~= T::wire(v[0]) + rest);
                T::lemma_parse(v[0], rest);
                T::lemma_progress(s);
                assert(Self::canonical(tail)) by {
                    assert forall|i: int| 0 <= i < tail.len() implies T::canonical(
                        #[trigger] tail[i],
                    ) by {
                        assert(tail[i] == v[i + 1]);
                    }
                }
                Self::lemma_parse(tail, next);
                assert(seq![v[0]] + tail =~= v);
            }
        }
    }

    open spec fn atomic() -> bool {
        false
    }

    proof fn lemma_progress(s: DecoderState)
        decreases s.bytes.len(),
    {
        T::lemma_progress(s);
        if s.peek() is Ok && T::accepts(s.peek()->Ok_0.number()) && T::parse(s) is Ok {
            let s1 = T::parse(s)->Ok_0.1;
            if s1.bytes.len() < s.bytes.len() {
                Self::lemma_progress(s1);
            }
        }
    }

    fn can_decode_type(type_num: u16) -> (b: bool) {
        T::can_decode_type(type_num)
    }

    fn decode(decoder: &mut Decoder) -> (r: Result<Self, Error>) {
        let mut output: Vec<T> = Vec::new();
        let mut more = true;
        assert(output.deep_view() =~= Seq::<T::V>::empty());
        while more
            invariant
                Self::parse(old(decoder)@) == prepend(
                    output.deep_view(),
                    if more {
                        Self::parse(decoder@)
                    } else {
                        Ok((Seq::<T::V>::empty(), decoder@))
                    },
                ),
            decreases decoder@.bytes.len(), (if more { 1nat } else { 0nat }),
        {
            let ghost before = decoder@;
            let ghost done = output.deep_view();
            match decoder.get_message_type() {
                Ok(ty) => {
                    if T::can_decode_type(ty) {
                        match T::decode(decoder) {
                            Err(e) => {
                                return Err(e);
                            },
                            Ok(v) => {
                                output.push(v);
                                proof {
                                    T::lemma_progress(before);
                                    assert(output.deep_view() =~= done + seq![v.deep_view()]);
                                    let tail = Self::parse(decoder@);
                                    if tail is Ok {
                                        assert(done + (seq![v.deep_view()] + tail->Ok_0.0) =~= (done
                                            + seq![v.deep_view()]) + tail->Ok_0.0);
                                    }
                                }
                            },
                        }
                    } else {
                        more = false;
                    }
                },
                Err(_) => {
                    more = false;
                },
            }
        }
        assert(output.deep_view() + Seq::<T::V>::empty() =~= output.deep_view());
        Ok(output)
    }

    fn decode_tv(decoder: &mut Decoder, tv_id: u8) -> (r: Result<Self, Error>) {
        decoder.check_tv_type(tv_id)?;
        Self::decode(decoder)
    }

    fn encode(&self, encoder: &mut Encoder) {
        let mut i: usize = 0;
        assert(self.deep_view().skip(0) =~= self.deep_view());
        while i < self.len()
            invariant
                i <= self.len(),
                Self::emit(self.deep_view(), old(encoder)@) == Self::emit(
                    self.deep_view().skip(i as int),
                    encoder@,
                ),
            decreases self.len() - i,
        {
            assert(self.deep_view().skip(i as int).drop_first() =~= self.deep_view().skip(i + 1));
            self[i].encode(encoder);
            i += 1;
        }
    }

    fn encode_tv(&self, encoder: &mut Encoder, tv_id: u8) {
        encoder.write_param_type(ParameterType::Tv(tv_id));
        self.encode(encoder);
    }
}

/// The 96-bit tag identifier: twelve bytes as they are.
impl LLRPValue for [u8; 12] {
    open spec fn accepts(type_num: u16) -> bool {
        false
    }

    open spec fn parse(s: DecoderState) -> Result<(Seq<u8>, DecoderState), Error> {
        s.take(12)
    }

    open spec fn parse_tv(s: DecoderState, tv_id: u8) -> Result<(Seq<u8>, DecoderState), Error> {
        behind_tv(s, tv_id, |s1: DecoderState| Self::parse(s1))
    }

    open spec fn emit(v: Seq<u8>, s: EncoderState) -> EncoderState {
        s.write_bytes(v)
    }

    open spec fn emit_tv(v: Seq<u8>, s: EncoderState, tv_id: u8) -> EncoderState {
        Self::emit(v, s.write_param_type(ParameterType::Tv(tv_id)))
    }

    open spec fn wire(v: Seq<u8>) -> Seq<u8> {
        v
    }

    open spec fn canonical(v: Seq<u8>) -> bool {
        v.len() == 12
    }

    open spec fn follow_ok(v: Seq<u8>, next: Seq<u8>) -> bool {
        true
    }

    proof fn lemma_emit(v: Seq<u8>, s: EncoderState) {
    }

    proof fn lemma_parse(v: Seq<u8>, next: Seq<u8>) {
        if v.len() == 12 {
            lemma_take_front(v, next);
        }
    }

    open spec fn atomic() -> bool {
        true
    }

    proof fn lemma_progress(s: DecoderState) {
    }

    fn can_decode_type(type_num: u16) -> (b: bool) {
        false
    }

    fn decode(decoder: &mut Decoder) -> (r: Result<Self, Error>) {
        let bytes = decoder.read_bytes(12)?;
        let mut out: [u8; 12] = [0u8;12];
        let mut i: usize = 0;
        while i < 12
            invariant
                i <= 12,
                bytes@.len() == 12,
                forall|j: int| 0 <= j < i ==> out@[j] == bytes@[j],
            decreases 12 - i,
        {
            out[i] = bytes[i];
            i += 1;
        }
        assert(out.deep_view() =~= bytes@);
        Ok(out)
    }

    fn decode_tv(decoder: &mut Decoder, tv_id: u8) -> (r: Result<Self, Error>) {
        decoder.check_tv_type(tv_id)?;
        Self::decode(decoder)
    }

    fn encode(&self, encoder: &mut Encoder) {
        assert(self.deep_view() =~= self@);
        encoder.write_bytes(self.as_slice());
    }

    fn encode_tv(&self, encoder: &mut Encoder, tv_id: u8) {
        encoder.write_param_type(ParameterType::Tv(tv_id));
        self.encode(encoder);
    }
}

/// `core::str::from_utf8`: the text that `bytes` spell in UTF-8, and nothing
/// where they are not UTF-8.
#[verifier::external_body]
fn text_of(bytes: &[u8]) -> (r: Option<&str>)
    ensures
        r is Some <==> valid_utf8(bytes@),
        r matches Some(s) ==> s@ == decode_utf8(bytes@),
{
    core::str::from_utf8(bytes).ok()
}

/// Text: a 16-bit count of bytes, then that many bytes of UTF-8.
impl LLRPValue for String {
    open spec fn accepts(type_num: u16) -> bool {
        false
    }

    open spec fn parse(s: DecoderState) -> Result<(Seq<char>, DecoderState), Error> {
        match s.uint(2) {
            Err(e) => Err(e),
            Ok((len, s1)) => match s1.take(len as usize) {
                Err(e) => Err(e),
                Ok((bytes, s2)) => if valid_utf8(bytes) {
                    Ok((decode_utf8(bytes), s2))
                } else {
                    Err(Error::Io(IoErrorKind::InvalidData))
                },
            },
        }
    }

    open spec fn parse_tv(s: DecoderState, tv_id: u8) -> Result<(Seq<char>, DecoderState), Error> {
        behind_tv(s, tv_id, |s1: DecoderState| Self::parse(s1))
    }

    open spec fn emit(v: Seq<char>, s: EncoderState) -> EncoderState {
        s.write_uint(encode_utf8(v).len() % 0x1_0000, 2).write_bytes(encode_utf8(v))
    }

    open spec fn emit_tv(v: Seq<char>, s: EncoderState, tv_id: u8) -> EncoderState {
        Self::emit(v, s.write_param_type(ParameterType::Tv(tv_id)))
    }

    open spec fn wire(v: Seq<char>) -> Seq<u8> {
        be_bytes(encode_utf8(v).len() % 0x1_0000, 2) + encode_utf8(v)
    }

    open spec fn canonical(v: Seq<char>) -> bool {
        encode_utf8(v).len() < 0x1_0000
    }

    open spec fn follow_ok(v: Seq<char>, next: Seq<u8>) -> bool {
        true
    }

    proof fn lemma_emit(v: Seq<char>, s: EncoderState) {
        let len = be_bytes(encode_utf8(v).len() % 0x1_0000, 2);
        assert((s.bytes + len) + encode_utf8(v) =~= s.bytes + (len + encode_utf8(v)));
    }

    proof fn lemma_parse(v: Seq<char>, next: Seq<u8>) {
        if Self::canonical(v) {
            let bytes = encode_utf8(v);
            lemma_pow256_values();
            lemma_uint_front(bytes.len(), 2, bytes + next);
            assert(Self::wire(v) + next =~= be_bytes(bytes.len(), 2) + (bytes + next));
            lemma_take_front(bytes, next);
            vstd::utf8::encode_utf8_valid_utf8(v);
            vstd::utf8::encode_utf8_decode_utf8(v);
        }
    }

    open spec fn atomic() -> bool {
        false
    }

    proof fn lemma_progress(s: DecoderState) {
    }

    fn can_decode_type(type_num: u16) -> (b: bool) {
        false
    }

    fn decode(decoder: &mut Decoder) -> (r: Result<Self, Error>) {
        proof {
            crate::wire::lemma_pow256_values();
        }
        let len = decoder.read_uint(2)?;
        let bytes = decoder.read_bytes(len as usize)?;
        match text_of(bytes) {
            Some(text) => Ok(text.to_owned()),
            None => Err(Error::Io(IoErrorKind::InvalidData)),
        }
    }

    fn decode_tv(decoder: &mut Decoder, tv_id: u8) -> (r: Result<Self, Error>) {
        decoder.check_tv_type(tv_id)?;
        Self::decode(decoder)
    }

    fn encode(&self, encoder: &mut Encoder) {
        let bytes = self.as_str().as_bytes();
        encoder.write_uint((bytes.len() % 0x1_0000) as u64, 2);
        encoder.write_bytes(bytes);
    }

    fn encode_tv(&self, encoder: &mut Encoder, tv_id: u8) {
        encoder.write_param_type(ParameterType::Tv(tv_id));
        self.encode(encoder);
    }
}

/// A string of bits, carried as whole bytes.
#[derive(Debug, PartialEq, Eq, Clone)]
pub struct BitArray {
    pub bytes: Vec<u8>,
}

impl DeepView for BitArray {
    type V = Seq<u8>;

    open spec fn deep_view(&self) -> Seq<u8> {
        self.bytes@
    }
}

impl BitArray {
    pub fn from_bytes(bytes: Vec<u8>) -> (a: BitArray)
        ensures
            a.deep_view() == bytes@,
    {
        BitArray { bytes }
    }
}

/// A bit array: a 16-bit count of bits, then the whole bytes that the count
/// covers. A count that is no multiple of eight loses its last bits.
impl LLRPValue for BitArray {
    open spec fn accepts(type_num: u16) -> bool {
        false
    }

    open spec fn parse(s: DecoderState) -> Result<(Seq<u8>, DecoderState), Error> {
        match s.uint(2) {
            Err(e) => Err(e),
            Ok((num_bits, s1)) => s1.take((num_bits / 8) as usize),
        }
    }

    open spec fn parse_tv(s: DecoderState, tv_id: u8) -> Result<(Seq<u8>, DecoderState), Error> {
        behind_tv(s, tv_id, |s1: DecoderState| Self::parse(s1))
    }

    open spec fn emit(v: Seq<u8>, s: EncoderState) -> EncoderState {
        s.write_uint(((v.len() % 0x2000) * 8) as nat, 2).write_bytes(v)
    }

    open spec fn emit_tv(v: Seq<u8>, s: EncoderState, tv_id: u8) -> EncoderState {
        Self::emit(v, s.write_param_type(ParameterType::Tv(tv_id)))
    }

    open spec fn wire(v: Seq<u8>) -> Seq<u8> {
        be_bytes(((v.len() % 0x2000) * 8) as nat, 2) + v
    }

    open spec fn canonical(v: Seq<u8>) -> bool {
        v.len() < 0x2000
    }

    open spec fn follow_ok(v: Seq<u8>, next: Seq<u8>) -> bool {
        true
    }

    proof fn lemma_emit(v: Seq<u8>, s: EncoderState) {
        let len = be_bytes(((v.len() % 0x2000) * 8) as nat, 2);
        assert((s.bytes + len) + v =~= s.bytes + (len + v));
    }

    proof fn lemma_parse(v: Seq<u8>, next: Seq<u8>) {
        if Self::canonical(v) {
            lemma_pow256_values();
            lemma_uint_front((v.len() * 8) as nat, 2, v + next);
            assert(Self::wire(v) + next =~= be_bytes((v.len() * 8) as nat, 2) + (v + next));
            lemma_take_front(v, next);
        }
    }

    open spec fn atomic() -> bool {
        false
    }

    proof fn lemma_progress(s: DecoderState) {
    }

    fn can_decode_type(type_num: u16) -> (b: bool) {
        false
    }

    fn decode(decoder: &mut Decoder) -> (r: Result<Self, Error>) {
        proof {
            crate::wire::lemma_pow256_values();
        }
        let num_bits = decoder.read_uint(2)?;
        let bytes = decoder.read_bytes((num_bits / 8) as usize)?;
        Ok(BitArray { bytes: vstd::slice::slice_to_vec(bytes) })
    }

    fn decode_tv(decoder: &mut Decoder, tv_id: u8) -> (r: Result<Self, Error>) {
        decoder.check_tv_type(tv_id)?;
        Self::decode(decoder)
    }

    fn encode(&self, encoder: &mut Encoder) {
        let num_bits: usize = (self.bytes.len() % 0x2000) * 8;
        encoder.write_uint(num_bits as u64, 2);
        encoder.write_bytes(self.bytes.as_slice());
    }

    fn encode_tv(&self, encoder: &mut Encoder, tv_id: u8) {
        encoder.write_param_type(ParameterType::Tv(tv_id));
        self.encode(encoder);
    }
}

/// A value narrow enough to travel through the bit accumulator.
pub trait Bits: Sized + DeepView<V = Self> {
    /// The value that the bits stand for.
    spec fn of_bits(bits: u32) -> Self;

    /// Such a value is its own model.
    proof fn lemma_plain(&self)
        ensures
            self.deep_view() == *self,
    ;

    /// The bits that stand for the value.
    spec fn as_bits(&self) -> u32;

    fn from_bits(bits: u32) -> (v: Self)
        ensures
            v == Self::of_bits(bits),
    ;

    fn to_bits(&self) -> (bits: u32)
        ensures
            bits == self.as_bits(),
    ;
}

/// A flag: the low bit decides.
impl Bits for bool {
    open spec fn of_bits(bits: u32) -> bool {
        bits % 2 == 1
    }

    open spec fn as_bits(&self) -> u32 {
        if *self {
            1
        } else {
            0
        }
    }

    proof fn lemma_plain(&self) {
    }

    fn from_bits(bits: u32) -> (v: bool) {
        bits % 2 == 1
    }

    fn to_bits(&self) -> (bits: u32) {
        match self {
            true => 1,
            false => 0,
        }
    }
}

/// The low eight bits.
impl Bits for u8 {
    open spec fn of_bits(bits: u32) -> u8 {
        (bits % 0x100) as u8
    }

    open spec fn as_bits(&self) -> u32 {
        *self as u32
    }

    proof fn lemma_plain(&self) {
    }

    fn from_bits(bits: u32) -> (v: u8) {
        (bits % 0x100) as u8
    }

    fn to_bits(&self) -> (bits: u32) {
        *self as u32
    }
}

/// The low sixteen bits.
impl Bits for u16 {
    open spec fn of_bits(bits: u32) -> u16 {
        (bits % 0x1_0000) as u16
    }

    open spec fn as_bits(&self) -> u32 {
        *self as u32
    }

    proof fn lemma_plain(&self) {
    }

    fn from_bits(bits: u32) -> (v: u16) {
        (bits % 0x1_0000) as u16
    }

    fn to_bits(&self) -> (bits: u32) {
        *self as u32
    }
}

/// All thirty-two bits.
impl Bits for u32 {
    open spec fn of_bits(bits: u32) -> u32 {
        bits
    }

    open spec fn as_bits(&self) -> u32 {
        *self
    }

    proof fn lemma_plain(&self) {
    }

    fn from_bits(bits: u32) -> (v: u32) {
        bits
    }

    fn to_bits(&self) -> (bits: u32) {
        *self
    }
}

/// A closed set of named values, each with its number on the wire.
pub trait LLRPEnumeration: Sized {
    /// The number of a variant.
    spec fn value(&self) -> u32;

    /// The variant with the number `value`, if there is one.
    spec fn variant(value: u32) -> Option<Self>;

    /// Every variant is found again under its number.
    proof fn lemma_variant_of_value(&self)
        ensures
            Self::variant(self.value()) == Some(*self),
    ;

    /// A number is mapped to a variant only if it is that variant's number.
    proof fn lemma_value_of_variant(value: u32)
        ensures
            Self::variant(value) matches Some(v) ==> v.value() == value,
    ;

    fn from_value(value: u32) -> (r: Result<Self, Error>)
        ensures
            r == match Self::variant(value) {
                Some(v) => Ok::<Self, Error>(v),
                None => Err::<Self, Error>(Error::InvalidVariant(value)),
            },
    ;

    fn to_value<T: Bits>(&self) -> (v: T)
        ensures
            v == T::of_bits(self.value()),
    ;
}

/// The variant that a number stands for, or the error that names the number.
pub open spec fn enum_of<T: LLRPEnumeration>(value: u32) -> Result<T, Error> {
    match T::variant(value) {
        Some(v) => Ok(v),
        None => Err(Error::InvalidVariant(value)),
    }
}

/// Turning a variant into its number and back gives the variant; and a
/// number is refused exactly when no variant has it.
pub proof fn lemma_enum_closure<T: LLRPEnumeration>(e: T, x: u32)
    ensures
        enum_of::<T>(e.value()) == Ok::<T, Error>(e),
        enum_of::<T>(x) is Err <==> forall|v: T| v.value() != x,
        enum_of::<T>(x) is Err ==> enum_of::<T>(x) == Err::<T, Error>(Error::InvalidVariant(x)),
{
    e.lemma_variant_of_value();
    T::lemma_value_of_variant(x);
    if enum_of::<T>(x) is Err {
        assert forall|v: T| v.value() != x by {
            v.lemma_variant_of_value();
        }
    }
}

/// Reading the TLV parameter `tlv_id`: the header and length are checked,
/// `body` reads the fields from the bytes that the length covers, which must
/// then be used up, and the cursor moves behind the parameter.
pub open spec fn tlv_parse<V>(
    s: DecoderState,
    tlv_id: u16,
    body: spec_fn(DecoderState) -> Result<(V, DecoderState), Error>,
) -> Result<(V, DecoderState), Error> {
    match s.tlv_open(tlv_id) {
        Err(e) => Err(e),
        Ok(inner) => match body(inner) {
            Err(e) => Err(e),
            Ok((v, inner_end)) => match s.tlv_close(inner_end) {
                Err(e) => Err(e),
                Ok(end) => Ok((v, end)),
            },
        },
    }
}

/// The bytes of a TLV parameter: the type in two bytes, the length of the
/// whole in two, the body.
pub open spec fn tlv_wire(tlv_id: u16, body: Seq<u8>) -> Seq<u8> {
    be_bytes(tlv_id as nat, 2) + be_bytes(((body.len() + 4) % 0x1_0000) as nat, 2) + body
}

/// A TLV parameter whose body only appends bytes comes out as its header
/// and that body.
pub proof fn lemma_tlv_written(s: EncoderState, tlv_id: u16, body: Seq<u8>)
    ensures
        s.tlv_close(s.tlv_open(tlv_id).write_bytes(body)) == s.write_bytes(tlv_wire(tlv_id, body)),
{
    let id = be_bytes(tlv_id as nat, 2);
    let len = be_bytes(((body.len() + 4) % 0x1_0000) as nat, 2);
    lemma_be_bytes_len(tlv_id as nat, 2);
    lemma_be_bytes_len(((body.len() + 4) % 0x1_0000) as nat, 2);
    let inner_end = s.tlv_open(tlv_id).write_bytes(body);
    assert(inner_end.bytes =~= s.bytes + id + seq![0u8, 0u8] + body);
    let at = s.bytes.len() as int + 2;
    assert(inner_end.bytes.update(at, len[0]).update(at + 1, len[1]) =~= s.bytes + (id + len + body));
}

/// The header of a TLV parameter at the front of the data opens the scope
/// of its body, and closing the used-up scope leads behind the parameter.
pub proof fn lemma_tlv_front(tlv_id: u16, body: Seq<u8>, next: Seq<u8>)
    requires
        tlv_id < 1024,
        body.len() + 4 < 0x1_0000,
    ensures
        ({
            let s = DecoderState::start(tlv_wire(tlv_id, body) + next);
            &&& s.peek() == Ok::<ParameterType, Error>(ParameterType::Tlv(tlv_id))
            &&& s.tlv_open(tlv_id) == Ok::<DecoderState, Error>(DecoderState::start(body))
            &&& s.tlv_close(DecoderState::start(Seq::empty())) == Ok::<DecoderState, Error>(
                DecoderState::start(next),
            )
        }),
{
    let s = DecoderState::start(tlv_wire(tlv_id, body) + next);
    let id = be_bytes(tlv_id as nat, 2);
    let total = (body.len() + 4) as nat;
    let len = be_bytes(total, 2);
    lemma_pow256_values();
    lemma_be_bytes_len(tlv_id as nat, 2);
    lemma_be_bytes_len(total, 2);
    reveal_with_fuel(be_bytes, 3);
    assert(s.bytes[0] == id[0] && s.bytes[1] == id[1]);
    assert(id[0] == ((tlv_id as nat / 256) % 256) as u8);
    assert(id[1] == (tlv_id as nat % 256) as u8);
    assert(s.bytes.subrange(2, 4) =~= len);
    crate::wire::lemma_be_uint_of_be_bytes(total, 2);
    assert(s.bytes.subrange(4, total as int) =~= body);
    assert(s.bytes.skip(total as int) =~= next);
}

/// A parameter with TLV framing: a type number and the fields of its body.
pub trait TlvParameter: Sized + DeepView {
    /// The parameter's type number.
    const ID: u16;

    /// The fields read in order from the body, or the first error.
    spec fn parse_body(s: DecoderState) -> Result<(Self::V, DecoderState), Error>;

    /// The state after the fields have been written in order.
    spec fn emit_body(v: Self::V, s: EncoderState) -> EncoderState;

    /// The bytes that writing the fields appends where no bit is waiting.
    spec fn wire_body(v: Self::V) -> Seq<u8>;

    /// Whether the fields fit the format, each before the fields behind it.
    spec fn canonical_body(v: Self::V) -> bool;

    /// Where no bit is waiting, writing the fields appends their bytes and
    /// leaves no bit waiting.
    proof fn lemma_emit_body(v: Self::V, s: EncoderState)
        requires
            s.aligned(),
        ensures
            Self::emit_body(v, s) == s.write_bytes(Self::wire_body(v)),
    ;

    /// The fields are read back from their bytes, and nothing is left.
    proof fn lemma_parse_body(v: Self::V)
        ensures
            Self::canonical_body(v) ==> Self::parse_body(
                DecoderState::start(Self::wire_body(v)),
            ) == Ok::<(Self::V, DecoderState), Error>((v, DecoderState::start(Seq::empty()))),
    ;

    fn decode_body(decoder: &mut Decoder) -> (r: Result<Self, Error>)
        ensures
            decoded::<Self>(Self::parse_body(old(decoder)@), r, final(decoder)@),
    ;

    fn encode_body(&self, encoder: &mut Encoder)
        ensures
            final(encoder)@ == Self::emit_body(self.deep_view(), old(encoder)@),
    ;
}

/// A boxed parameter is the parameter, behind a pointer.
impl<T: TlvParameter> TlvParameter for Box<T> {
    const ID: u16 = T::ID;

    open spec fn parse_body(s: DecoderState) -> Result<(T::V, DecoderState), Error> {
        T::parse_body(s)
    }

    open spec fn emit_body(v: T::V, s: EncoderState) -> EncoderState {
        T::emit_body(v, s)
    }

    open spec fn wire_body(v: T::V) -> Seq<u8> {
        T::wire_body(v)
    }

    open spec fn canonical_body(v: T::V) -> bool {
        T::canonical_body(v)
    }

    proof fn lemma_emit_body(v: T::V, s: EncoderState) {
        T::lemma_emit_body(v, s);
    }

    proof fn lemma_parse_body(v: T::V) {
        T::lemma_parse_body(v);
    }

    fn decode_body(decoder: &mut Decoder) -> (r: Result<Self, Error>) {
        let v = T::decode_body(decoder)?;
        Ok(Box::new(v))
    }

    fn encode_body(&self, encoder: &mut Encoder) {
        let inner: &T = &**self;
        inner.encode_body(encoder);
    }
}

/// Every TLV parameter is a value: its body inside its frame.
impl<T: TlvParameter> LLRPValue for T {
    open spec fn accepts(type_num: u16) -> bool {
        type_num == T::ID
    }

    open spec fn parse(s: DecoderState) -> Result<(T::V, DecoderState), Error> {
        tlv_parse(s, T::ID, |inner: DecoderState| T::parse_body(inner))
    }

    open spec fn parse_tv(s: DecoderState, tv_id: u8) -> Result<(T::V, DecoderState), Error> {
        behind_tv(s, tv_id, |s1: DecoderState| Self::parse(s1))
    }

    open spec fn emit(v: T::V, s: EncoderState) -> EncoderState {
        s.tlv_close(T::emit_body(v, s.tlv_open(T::ID)))
    }

    open spec fn emit_tv(v: T::V, s: EncoderState, tv_id: u8) -> EncoderState {
        Self::emit(v, s.write_param_type(ParameterType::Tv(tv_id)))
    }

    open spec fn wire(v: T::V) -> Seq<u8> {
        tlv_wire(T::ID, T::wire_body(v))
    }

    open spec fn canonical(v: T::V) -> bool {
        &&& T::ID < 1024
        &&& T::wire_body(v).len() + 4 < 0x1_0000
        &&& T::canonical_body(v)
    }

    open spec fn follow_ok(v: T::V, next: Seq<u8>) -> bool {
        true
    }

    proof fn lemma_emit(v: T::V, s: EncoderState) {
        let inner = s.tlv_open(T::ID);
        T::lemma_emit_body(v, inner);
        lemma_tlv_written(s, T::ID, T::wire_body(v));
    }

    proof fn lemma_parse(v: T::V, next: Seq<u8>) {
        if Self::canonical(v) {
            lemma_tlv_front(T::ID, T::wire_body(v), next);
            T::lemma_parse_body(v);
        }
    }

    open spec fn atomic() -> bool {
        true
    }

    proof fn lemma_progress(s: DecoderState) {
    }

    fn can_decode_type(type_num: u16) -> (b: bool) {
        type_num == T::ID
    }

    fn decode(decoder: &mut Decoder) -> (r: Result<Self, Error>) {
        decoder.tlv_param(T::ID, T::decode_body)
    }

    fn decode_tv(decoder: &mut Decoder, tv_id: u8) -> (r: Result<Self, Error>) {
        decoder.check_tv_type(tv_id)?;
        Self::decode(decoder)
    }

    fn encode(&self, encoder: &mut Encoder) {
        let ghost v = self.deep_view();
        let body = |e: &mut Encoder|
            ensures
                final(e)@ == T::emit_body(v, old(e)@),
            {
                self.encode_body(e)
            };
        encoder.tlv_param(T::ID, body);
    }

    fn encode_tv(&self, encoder: &mut Encoder, tv_id: u8) {
        encoder.write_param_type(ParameterType::Tv(tv_id));
        self.encode(encoder);
    }
}

/// A message: what travels in one envelope.
pub trait LLRPMessage: Sized + DeepView {
    /// The type number that the envelope carries for this message.
    const ID: u16;

    /// The message that the payload `data` holds and the bytes behind it, or the error.
    spec fn parse(data: Seq<u8>) -> Result<(Self::V, Seq<u8>), Error>;

    /// The payload bytes of the message `v`.
    spec fn emit(v: Self::V) -> Seq<u8>;

    /// Whether the message fits the format, each field before the fields
    /// behind it.
    spec fn canonical(v: Self::V) -> bool;

    /// A message that fits the format is read back from its payload, and
    /// nothing is left.
    proof fn lemma_roundtrip(v: Self::V)
        ensures
            Self::canonical(v) ==> Self::parse(Self::emit(v)) == Ok::<(Self::V, Seq<u8>), Error>(
                (v, Seq::empty()),
            ),
    ;

    /// Decodes the payload of an envelope. Bytes that no field claims are
    /// handed back, not refused.
    fn decode(data: &[u8]) -> (r: Result<(Self, &[u8]), Error>)
        ensures
            match Self::parse(data@) {
                Ok((v, rest)) => r is Ok && r->Ok_0.0.deep_view() == v && r->Ok_0.1@ == rest,
                Err(e) => r == Err::<(Self, &[u8]), Error>(e),
            },
    ;

    /// Appends the payload to `buffer`.
    fn encode(&self, buffer: &mut Vec<u8>)
        ensures
            final(buffer)@ == old(buffer)@ + Self::emit(self.deep_view()),
    ;

    fn id(&self) -> (id: u16)
        ensures
            id == Self::ID,
    ;
}

/// A count of elements and then the elements, each read as `T` reads.
pub open spec fn parse_array<T: LLRPValue>(s: DecoderState) -> Result<
    (Seq<T::V>, DecoderState),
    Error,
> {
    match s.uint(2) {
        Err(e) => Err(e),
        Ok((n, s1)) => parse_items::<T>(s1, n),
    }
}

/// `n` elements in a row.
pub open spec fn parse_items<T: LLRPValue>(s: DecoderState, n: nat) -> Result<
    (Seq<T::V>, DecoderState),
    Error,
>
    decreases n,
{
    if n == 0 {
        Ok((Seq::empty(), s))
    } else {
        match T::parse(s) {
            Err(e) => Err(e),
            Ok((v, s1)) => prepend(seq![v], parse_items::<T>(s1, (n - 1) as nat)),
        }
    }
}

/// The count of the elements in sixteen bits, then the elements.
pub open spec fn emit_array<T: LLRPValue>(v: Seq<T::V>, s: EncoderState) -> EncoderState {
    Vec::<T>::emit(v, s.write_uint(v.len() % 0x1_0000, 2))
}

/// A run of calls that read as `T` reads is what the format gives for as
/// many elements in a row, followed by whatever comes behind.
pub proof fn lemma_read_run<'a, T: LLRPValue, F: Fn(&mut Decoder<'a>) -> Result<T, Error>>(
    decode: F,
    states: Seq<DecoderState>,
    items: Seq<T>,
    more: nat,
)
    requires
        states.len() == items.len() + 1
            && (
                forall|i: int| 0 <= i < items.len()
                    ==> (
                        exists|d: &mut Decoder<'a>| (*d)@ == #[trigger] states[i]
                            && call_ensures(decode, (d,), Ok::<T, Error>(items[i]))
                            && (*final(d))@ == states[i + 1]
                    )
            ),
        forall|d: &mut Decoder<'a>, x: Result<T, Error>| #[trigger] call_ensures(decode, (d,), x)
            ==> decoded::<T>(T::parse((*d)@), x, (*final(d))@),
    ensures
        parse_items::<T>(states[0], items.len() + more) == prepend(
            Seq::new(items.len(), |i: int| items[i].deep_view()),
            parse_items::<T>(states.last(), more),
        ),
    decreases items.len(),
{
    let models = Seq::new(items.len(), |i: int| items[i].deep_view());
    if items.len() == 0 {
        let tail = parse_items::<T>(states.last(), more);
        if tail is Ok {
            assert(models + tail->Ok_0.0 =~= tail->Ok_0.0);
        }
    } else {
        assert(exists|d: &mut Decoder<'a>| (*d)@ == #[trigger] states[0]
            && call_ensures(decode, (d,), Ok::<T, Error>(items[0]))
            && (*final(d))@ == states[1]);
        let rest_states = states.skip(1);
        let rest_items = items.skip(1);
        assert forall|i: int| 0 <= i < rest_items.len()
            implies (exists|d: &mut Decoder<'a>| (*d)@ == #[trigger] rest_states[i]
                && call_ensures(decode, (d,), Ok::<T, Error>(rest_items[i]))
                && (*final(d))@ == rest_states[i + 1]) by {
            assert(rest_states[i] == states[i + 1] && rest_states[i + 1] == states[i + 2]);
            assert(rest_items[i] == items[i + 1]);
        }
        lemma_read_run::<T, F>(decode, rest_states, rest_items, more);
        let rest_models = Seq::new(rest_items.len(), |i: int| rest_items[i].deep_view());
        assert(seq![items[0].deep_view()] + rest_models =~= models);
        let tail = parse_items::<T>(states.last(), more);
        assert(rest_states.last() == states.last());
        if tail is Ok {
            assert(seq![items[0].deep_view()] + (rest_models + tail->Ok_0.0) =~= models
                + tail->Ok_0.0);
        }
    }
}

/// Where every call of the element reader reads as `T` reads, the array is
/// what the format gives for a count and that many elements of `T`.
pub proof fn lemma_array_decoded<'a, T: LLRPValue, F: Fn(&mut Decoder<'a>) -> Result<T, Error>>(
    decode: F,
    start: DecoderState,
    r: Result<Vec<T>, Error>,
    end: DecoderState,
)
    requires
        match start.uint(2) {
            Err(e) => r == Err::<Vec<T>, Error>(e) && end == start,
            Ok((n, first)) => match r {
                Ok(v) => v@.len() == n && exists|states: Seq<DecoderState>|
                    #![trigger states.len()]
                    states[0] == first
                        && states.last() == end
                        && states.len() == v@.len() + 1
                        && (
                            forall|i: int| 0 <= i < v@.len()
                                ==> (
                                    exists|d: &mut Decoder<'a>| (*d)@ == #[trigger] states[i]
                                        && call_ensures(decode, (d,), Ok::<T, Error>(v@[i]))
                                        && (*final(d))@ == states[i + 1]
                                )
                        ),
                Err(e) => exists|states: Seq<DecoderState>, items: Seq<T>|
                    #![trigger states.len(), items.len()]
                    items.len() < n
                        && states[0] == first
                        && states.len() == items.len() + 1
                        && (
                            forall|i: int| 0 <= i < items.len()
                                ==> (
                                    exists|d: &mut Decoder<'a>| (*d)@ == #[trigger] states[i]
                                        && call_ensures(decode, (d,), Ok::<T, Error>(items[i]))
                                        && (*final(d))@ == states[i + 1]
                                )
                        )
                        && (
                            exists|d: &mut Decoder<'a>| (*d)@ == states.last()
                                && #[trigger] call_ensures(decode, (d,), Err::<T, Error>(e))
                                && (*final(d))@ == end
                        ),
            },
        },
        forall|d: &mut Decoder<'a>, x: Result<T, Error>| #[trigger] call_ensures(decode, (d,), x)
            ==> decoded::<T>(T::parse((*d)@), x, (*final(d))@),
    ensures
        decoded::<Vec<T>>(parse_array::<T>(start), r, end),
{
    if let Ok((n, first)) = start.uint(2) {
        match r {
            Ok(v) => {
                let states = choose|states: Seq<DecoderState>|
                    #![trigger states.len()]
                    states[0] == first
                        && states.last() == end
                        && states.len() == v@.len() + 1
                        && (
                            forall|i: int| 0 <= i < v@.len()
                                ==> (
                                    exists|d: &mut Decoder<'a>| (*d)@ == #[trigger] states[i]
                                        && call_ensures(decode, (d,), Ok::<T, Error>(v@[i]))
                                        && (*final(d))@ == states[i + 1]
                                )
                        );
                lemma_read_run::<T, F>(decode, states, v@, 0);
                assert(v.deep_view() + Seq::<T::V>::empty() =~= v.deep_view());
            },
            Err(e) => {
                let (states, items) = choose|states: Seq<DecoderState>, items: Seq<T>|
                    #![trigger states.len(), items.len()]
                    items.len() < n
                        && states[0] == first
                        && states.len() == items.len() + 1
                        && (
                            forall|i: int| 0 <= i < items.len()
                                ==> (
                                    exists|d: &mut Decoder<'a>| (*d)@ == #[trigger] states[i]
                                        && call_ensures(decode, (d,), Ok::<T, Error>(items[i]))
                                        && (*final(d))@ == states[i + 1]
                                )
                        )
                        && (
                            exists|d: &mut Decoder<'a>| (*d)@ == states.last()
                                && #[trigger] call_ensures(decode, (d,), Err::<T, Error>(e))
                                && (*final(d))@ == end
                        );
                lemma_read_run::<T, F>(decode, states, items, (n - items.len()) as nat);
                assert(T::parse(states.last()) == Err::<(T::V, DecoderState), Error>(e));
            },
        }
    }
}

/// A run of calls that write as `T` writes is what the format gives for the
/// items in a row.
pub proof fn lemma_write_run<T: LLRPValue, F: Fn(&mut Encoder, &T)>(
    encode: F,
    states: Seq<EncoderState>,
    items: Seq<T>,
)
    requires
        states.len() == items.len() + 1
            && (
                forall|i: int| 0 <= i < items.len()
                    ==> (
                        exists|e: &mut Encoder| (*e)@ == #[trigger] states[i]
                            && call_ensures(encode, (e, &items[i]), ())
                            && (*final(e))@ == states[i + 1]
                    )
            ),
        forall|e: &mut Encoder, x: &T| #[trigger] call_ensures(encode, (e, x), ())
            ==> (*final(e))@ == T::emit(x.deep_view(), (*e)@),
    ensures
        states.last() == Vec::<T>::emit(
            Seq::new(items.len(), |i: int| items[i].deep_view()),
            states[0],
        ),
    decreases items.len(),
{
    let models = Seq::new(items.len(), |i: int| items[i].deep_view());
    if items.len() > 0 {
        assert(states.first() == states[0]);
        let rest_states = states.skip(1);
        let rest_items = items.skip(1);
        assert forall|i: int| 0 <= i < rest_items.len()
            implies (exists|e: &mut Encoder| (*e)@ == #[trigger] rest_states[i]
                && call_ensures(encode, (e, &rest_items[i]), ())
                && (*final(e))@ == rest_states[i + 1]) by {
            assert(rest_states[i] == states[i + 1] && rest_states[i + 1] == states[i + 2]);
            assert(rest_items[i] == items[i + 1]);
            assert(&rest_items[i] == &items[i + 1]);
        }
        assert(rest_states.len() == rest_items.len() + 1);
        assert(rest_states[0] == states[1]);
        lemma_write_run::<T, F>(encode, rest_states, rest_items);
        let rest_models = Seq::new(rest_items.len(), |i: int| rest_items[i].deep_view());
        assert(models.drop_first() =~= rest_models);
        assert(rest_states.last() == states.last());
    }
}

/// Where every call of the element writer writes as `T` writes, the array
/// is what the format gives for the count and the items of `T`.
pub proof fn lemma_array_encoded<T: LLRPValue, F: Fn(&mut Encoder, &T)>(
    encode: F,
    start: EncoderState,
    items: Seq<T>,
    end: EncoderState,
)
    requires
        exists|states: Seq<EncoderState>|
            #![trigger states.len()]
            states[0] == start.write_uint(items.len() % 0x1_0000, 2) && states.last() == end
                && states.len() == items.len() + 1
                    && (
                        forall|i: int| 0 <= i < items.len()
                            ==> (
                                exists|e: &mut Encoder| (*e)@ == #[trigger] states[i]
                                    && call_ensures(encode, (e, &items[i]), ())
                                    && (*final(e))@ == states[i + 1]
                            )
                    ),
        forall|e: &mut Encoder, x: &T| #[trigger] call_ensures(encode, (e, x), ())
            ==> (*final(e))@ == T::emit(x.deep_view(), (*e)@),
    ensures
        end == emit_array::<T>(Seq::new(items.len(), |i: int| items[i].deep_view()), start),
{
    let states = choose|states: Seq<EncoderState>|
        #![trigger states.len()]
        states[0] == start.write_uint(items.len() % 0x1_0000, 2) && states.last() == end
            && states.len() == items.len() + 1
                && (
                    forall|i: int| 0 <= i < items.len()
                        ==> (
                            exists|e: &mut Encoder| (*e)@ == #[trigger] states[i]
                                && call_ensures(encode, (e, &items[i]), ())
                                && (*final(e))@ == states[i + 1]
                        )
                );
    lemma_write_run::<T, F>(encode, states, items);
}

/// The bytes of an array: the count in two bytes, then the elements.
pub open spec fn array_wire<T: LLRPValue>(v: Seq<T::V>) -> Seq<u8> {
    be_bytes(v.len() % 0x1_0000, 2) + Vec::<T>::wire(v)
}

/// Whether every element fits the format and can stand before anything.
pub open spec fn array_canonical<T: LLRPValue>(v: Seq<T::V>) -> bool {
    &&& v.len() < 0x1_0000
    &&& forall|i: int| 0 <= i < v.len() ==> T::canonical(#[trigger] v[i])
    &&& forall|i: int, rest: Seq<u8>| 0 <= i < v.len() ==> #[trigger] T::follow_ok(v[i], rest)
}

/// Where no bit is waiting, an array is written as its count and its elements.
pub proof fn lemma_array_written<T: LLRPValue>(v: Seq<T::V>, s: EncoderState)
    requires
        s.aligned(),
    ensures
        emit_array::<T>(v, s) == s.write_bytes(array_wire::<T>(v)),
{
    let count = be_bytes(v.len() % 0x1_0000, 2);
    Vec::<T>::lemma_emit(v, s.write_bytes(count));
    assert((s.bytes + count) + Vec::<T>::wire(v) =~= s.bytes + (count + Vec::<T>::wire(v)));
}

/// The elements are read back one by one.
pub proof fn lemma_items_front<T: LLRPValue>(v: Seq<T::V>, next: Seq<u8>)
    requires
        forall|i: int| 0 <= i < v.len() ==> T::canonical(#[trigger] v[i]),
        forall|i: int, rest: Seq<u8>| 0 <= i < v.len() ==> #[trigger] T::follow_ok(v[i], rest),
    ensures
        parse_items::<T>(DecoderState::start(Vec::<T>::wire(v) + next), v.len()) == Ok::<
            (Seq<T::V>, DecoderState),
            Error,
        >((v, DecoderState::start(next))),
    decreases v.len(),
{
    if v.len() == 0 {
        assert(Seq::<u8>::empty() + next =~= next);
        assert(v =~= Seq::<T::V>::empty());
    } else {
        let tail = v.drop_first();
        let rest = Vec::<T>::wire(tail) + next;
        assert(Vec::<T>::wire(v) + next =~= T::wire(v[0]) + rest);
        assert(T::follow_ok(v[0], rest));
        T::lemma_parse(v[0], rest);
        assert forall|i: int| 0 <= i < tail.len() implies T::canonical(#[trigger] tail[i]) by {
            assert(tail[i] == v[i + 1]);
        }
        assert forall|i: int, r: Seq<u8>| 0 <= i < tail.len() implies #[trigger] T::follow_ok(
            tail[i],
            r,
        ) by {
            assert(tail[i] == v[i + 1]);
            assert(T::follow_ok(v[i + 1], r));
        }
        lemma_items_front::<T>(tail, next);
        assert(seq![v[0]] + tail =~= v);
    }
}

/// An array is read back from its bytes.
pub proof fn lemma_array_front<T: LLRPValue>(v: Seq<T::V>, next: Seq<u8>)
    requires
        array_canonical::<T>(v),
    ensures
        parse_array::<T>(DecoderState::start(array_wire::<T>(v) + next)) == Ok::<
            (Seq<T::V>, DecoderState),
            Error,
        >((v, DecoderState::start(next))),
{
    let items = Vec::<T>::wire(v);
    lemma_pow256_values();
    lemma_uint_front(v.len(), 2, items + next);
    assert(array_wire::<T>(v) + next =~= be_bytes(v.len(), 2) + (items + next));
    lemma_items_front::<T>(v, next);
}

/// Whether the number of a variant comes back from `U` as it went in.
pub open spec fn enum_fits<T: LLRPEnumeration, U: LLRPValue + Bits>(e: T) -> bool {
    &&& U::of_bits(e.value()).as_bits() == e.value()
    &&& U::canonical(U::of_bits(e.value()))
    &&& forall|rest: Seq<u8>| #[trigger] U::follow_ok(U::of_bits(e.value()), rest)
}

/// A variant is read back from the bytes of its number.
pub proof fn lemma_enum_front<T: LLRPEnumeration, U: LLRPValue + Bits>(e: T, next: Seq<u8>)
    requires
        enum_fits::<T, U>(e),
    ensures
        parse_enum::<T, U>(DecoderState::start(U::wire(U::of_bits(e.value())) + next)) == Ok::<
            (T, DecoderState),
            Error,
        >((e, DecoderState::start(next))),
{
    let u = U::of_bits(e.value());
    assert(U::follow_ok(u, next));
    U::lemma_parse(u, next);
    e.lemma_variant_of_value();
}

/// A number read as `U` reads, taken as a variant of `T`.
pub open spec fn parse_enum<T: LLRPEnumeration, U: LLRPValue + Bits>(
    s: DecoderState,
) -> Result<(T, DecoderState), Error> {
    match U::parse(s) {
        Err(e) => Err(e),
        Ok((u, s1)) => match enum_of::<T>(u.as_bits()) {
            Err(e) => Err(e),
            Ok(v) => Ok((v, s1)),
        },
    }
}

/// `n` numbers in a row, each read as `U` reads and taken as a variant of `T`.
pub open spec fn parse_enum_items<T: LLRPEnumeration, U: LLRPValue + Bits>(
    s: DecoderState,
    n: nat,
) -> Result<(Seq<T>, DecoderState), Error>
    decreases n,
{
    if n == 0 {
        Ok((Seq::empty(), s))
    } else {
        match parse_enum::<T, U>(s) {
            Err(e) => Err(e),
            Ok((v, s1)) => prepend(seq![v], parse_enum_items::<T, U>(s1, (n - 1) as nat)),
        }
    }
}

/// A count and then that many variants of `T`, each carried as `U`.
pub open spec fn parse_enum_array<T: LLRPEnumeration, U: LLRPValue + Bits>(s: DecoderState) -> Result<
    (Seq<T>, DecoderState),
    Error,
> {
    match s.uint(2) {
        Err(e) => Err(e),
        Ok((n, s1)) => parse_enum_items::<T, U>(s1, n),
    }
}

/// The numbers of the variants, each written as `U` writes.
pub open spec fn emit_enum_items<T: LLRPEnumeration, U: LLRPValue + Bits>(
    items: Seq<T>,
    s: EncoderState,
) -> EncoderState
    decreases items.len(),
{
    if items.len() == 0 {
        s
    } else {
        emit_enum_items::<T, U>(items.drop_first(), U::emit(U::of_bits(items[0].value()), s))
    }
}

/// The count of the variants in sixteen bits, then their numbers.
pub open spec fn emit_enum_array<T: LLRPEnumeration, U: LLRPValue + Bits>(
    items: Seq<T>,
    s: EncoderState,
) -> EncoderState {
    emit_enum_items::<T, U>(items, s.write_uint(items.len() % 0x1_0000, 2))
}

/// The bytes of the numbers of the variants, one behind the other.
pub open spec fn enum_items_wire<T: LLRPEnumeration, U: LLRPValue + Bits>(items: Seq<T>) -> Seq<u8>
    decreases items.len(),
{
    if items.len() == 0 {
        Seq::empty()
    } else {
        U::wire(U::of_bits(items[0].value())) + enum_items_wire::<T, U>(items.drop_first())
    }
}

/// The bytes of an array of variants: the count in two bytes, then the
/// number of each variant as `U` writes it.
pub open spec fn enum_array_wire<T: LLRPEnumeration, U: LLRPValue + Bits>(items: Seq<T>) -> Seq<u8> {
    be_bytes(items.len() % 0x1_0000, 2) + enum_items_wire::<T, U>(items)
}

/// Whether the array fits its count and the number of every variant comes
/// back from `U` as it went in.
pub open spec fn enum_array_fits<T: LLRPEnumeration, U: LLRPValue + Bits>(items: Seq<T>) -> bool {
    &&& items.len() < 0x1_0000
    &&& forall|i: int| 0 <= i < items.len() ==> enum_fits::<T, U>(#[trigger] items[i])
}

/// Where no bit is waiting, the numbers of the variants are written as
/// their bytes, one behind the other.
pub proof fn lemma_enum_items_written<T: LLRPEnumeration, U: LLRPValue + Bits>(
    items: Seq<T>,
    s: EncoderState,
)
    requires
        s.aligned(),
    ensures
        emit_enum_items::<T, U>(items, s) == s.write_bytes(enum_items_wire::<T, U>(items)),
    decreases items.len(),
{
    if items.len() == 0 {
        assert(s.bytes + Seq::<u8>::empty() =~= s.bytes);
    } else {
        let first = U::wire(U::of_bits(items[0].value()));
        U::lemma_emit(U::of_bits(items[0].value()), s);
        let s1 = s.write_bytes(first);
        lemma_enum_items_written::<T, U>(items.drop_first(), s1);
        assert(s1.bytes + enum_items_wire::<T, U>(items.drop_first()) =~= s.bytes
            + enum_items_wire::<T, U>(items));
    }
}

/// Where no bit is waiting, an array of variants is written as its count
/// and the numbers of the variants.
pub proof fn lemma_enum_array_written<T: LLRPEnumeration, U: LLRPValue + Bits>(
    items: Seq<T>,
    s: EncoderState,
)
    requires
        s.aligned(),
    ensures
        emit_enum_array::<T, U>(items, s) == s.write_bytes(enum_array_wire::<T, U>(items)),
{
    let count = be_bytes(items.len() % 0x1_0000, 2);
    lemma_enum_items_written::<T, U>(items, s.write_bytes(count));
    assert((s.bytes + count) + enum_items_wire::<T, U>(items) =~= s.bytes + (count
        + enum_items_wire::<T, U>(items)));
}

/// The variants are read back one by one from the bytes of their numbers.
pub proof fn lemma_enum_items_front<T: LLRPEnumeration, U: LLRPValue + Bits>(
    items: Seq<T>,
    next: Seq<u8>,
)
    requires
        forall|i: int| 0 <= i < items.len() ==> enum_fits::<T, U>(#[trigger] items[i]),
    ensures
        parse_enum_items::<T, U>(
            DecoderState::start(enum_items_wire::<T, U>(items) + next),
            items.len(),
        ) == Ok::<(Seq<T>, DecoderState), Error>((items, DecoderState::start(next))),
    decreases items.len(),
{
    if items.len() == 0 {
        assert(Seq::<u8>::empty() + next =~= next);
        assert(items =~= Seq::<T>::empty());
    } else {
        let tail = items.drop_first();
        let rest = enum_items_wire::<T, U>(tail) + next;
        assert(enum_items_wire::<T, U>(items) + next =~= U::wire(U::of_bits(items[0].value()))
            + rest);
        assert(enum_fits::<T, U>(items[0]));
        lemma_enum_front::<T, U>(items[0], rest);
        assert forall|i: int| 0 <= i < tail.len() implies enum_fits::<T, U>(#[trigger] tail[i]) by {
            assert(tail[i] == items[i + 1]);
        }
        lemma_enum_items_front::<T, U>(tail, next);
        assert(seq![items[0]] + tail =~= items);
    }
}

/// An array of variants is read back from its bytes.
pub proof fn lemma_enum_array_front<T: LLRPEnumeration, U: LLRPValue + Bits>(
    items: Seq<T>,
    next: Seq<u8>,
)
    requires
        enum_array_fits::<T, U>(items),
    ensures
        parse_enum_array::<T, U>(DecoderState::start(enum_array_wire::<T, U>(items) + next)) == Ok::<
            (Seq<T>, DecoderState),
            Error,
        >((items, DecoderState::start(next))),
{
    let body = enum_items_wire::<T, U>(items);
    lemma_pow256_values();
    lemma_uint_front(items.len(), 2, body + next);
    assert(enum_array_wire::<T, U>(items) + next =~= be_bytes(items.len(), 2) + (body + next));
    lemma_enum_items_front::<T, U>(items, next);
}

/// `n` bits, taken as a variant of `T`.
pub open spec fn parse_enum_bits<T: LLRPEnumeration>(s: DecoderState, n: nat) -> Result<
    (T, DecoderState),
    Error,
> {
    match s.read_bits(n) {
        Err(e) => Err(e),
        Ok((x, s1)) => match enum_of::<T>(x as u32) {
            Err(e) => Err(e),
            Ok(v) => Ok((v, s1)),
        },
    }
}

impl<'a> Decoder<'a> {
    /// Reads a value as its type reads.
    pub fn read<T: LLRPValue>(&mut self) -> (r: Result<T, Error>)
        ensures
            decoded::<T>(T::parse(old(self)@), r, final(self)@),
            r is Err && T::atomic() ==> final(self)@ == old(self)@,
    {
        T::decode(self)
    }

    /// Reads a value that travels behind the TV header `tv_id`.
    pub fn read_tv<T: LLRPValue>(&mut self, tv_id: u8) -> (r: Result<T, Error>)
        ensures
            decoded::<T>(T::parse_tv(old(self)@, tv_id), r, final(self)@),
            r is Err && old(self)@.tv_header(tv_id) is Err ==> final(self)@ == old(self)@,
    {
        T::decode_tv(self, tv_id)
    }

    /// Reads `num_bits` bits and widens them to `T`.
    pub fn read_bits<T: Bits>(&mut self, num_bits: u8) -> (r: Result<T, Error>)
        requires
            1 <= num_bits <= 15,
        ensures
            match old(self)@.read_bits(num_bits as nat) {
                Ok((x, s)) => r == Ok::<T, Error>(T::of_bits(x as u32)) && x < pow2(
                    num_bits as nat,
                ) && final(self)@ == s,
                Err(e) => r == Err::<T, Error>(e) && final(self)@ == old(self)@,
            },
    {
        let raw = self.read_raw_bits(num_bits)?;
        Ok(T::from_bits(raw))
    }

    /// Reads a 16-bit count and then that many elements, each with one
    /// call of `decode`, in order; the first call that fails ends the run
    /// with its error.
    pub fn array<T, F>(&mut self, decode: F) -> (r: Result<Vec<T>, Error>) where
        T: LLRPValue,
        F: Fn(&mut Decoder<'a>) -> Result<T, Error>,

        requires
            forall|d: &mut Decoder<'a>| call_requires(decode, (d,)),
        ensures
            match old(self)@.uint(2) {
                Err(e) => r == Err::<Vec<T>, Error>(e) && final(self)@ == old(self)@,
                Ok((n, first)) => match r {
                    Ok(v) => v@.len() == n && exists|states: Seq<DecoderState>|
                        #![trigger states.len()]
                        states[0] == first
                            && states.last() == final(self)@
                            && states.len() == v@.len() + 1
                            && (
                                forall|i: int| 0 <= i < v@.len()
                                    ==> (
                                        exists|d: &mut Decoder<'a>| (*d)@ == #[trigger] states[i]
                                            && call_ensures(decode, (d,), Ok::<T, Error>(v@[i]))
                                            && (*final(d))@ == states[i + 1]
                                    )
                            ),
                    Err(e) => exists|states: Seq<DecoderState>, items: Seq<T>|
                        #![trigger states.len(), items.len()]
                        items.len() < n
                            && states[0] == first
                            && states.len() == items.len() + 1
                            && (
                                forall|i: int| 0 <= i < items.len()
                                    ==> (
                                        exists|d: &mut Decoder<'a>| (*d)@ == #[trigger] states[i]
                                            && call_ensures(decode, (d,), Ok::<T, Error>(items[i]))
                                            && (*final(d))@ == states[i + 1]
                                    )
                            )
                            && (
                                exists|d: &mut Decoder<'a>| (*d)@ == states.last()
                                    && #[trigger] call_ensures(decode, (d,), Err::<T, Error>(e))
                                    && (*final(d))@ == final(self)@
                            ),
                },
            },
    {
        proof {
            lemma_pow256_values();
        }
        let count = self.read_uint(2)?;
        let ghost first = self@;
        let ghost mut states: Seq<DecoderState> = seq![first];
        let mut output: Vec<T> = Vec::new();
        let mut i: u64 = 0;
        while i < count
            invariant
                i <= count,
                forall|d: &mut Decoder<'a>| call_requires(decode, (d,)),
                old(self)@.uint(2) == Ok::<(nat, DecoderState), Error>((count as nat, first)),
                output@.len() == i,
                states.len() == output@.len() + 1
                    && (
                        forall|i: int| 0 <= i < output@.len()
                            ==> (
                                exists|d: &mut Decoder<'a>| (*d)@ == #[trigger] states[i]
                                    && call_ensures(decode, (d,), Ok::<T, Error>(output@[i]))
                                    && (*final(d))@ == states[i + 1]
                            )
                    ),
                states[0] == first,
                states.last() == self@,
            decreases count - i,
        {
            let ghost before = self@;
            let ghost done = output@;
            let ghost seen = states;
            let x = decode(self);
            assert(
                (
                    exists|d: &mut Decoder<'a>| (*d)@ == before
                        && #[trigger] call_ensures(decode, (d,), x)
                        && (*final(d))@ == self@
                )
            );
            match x {
                Err(e) => {
                    assert(seen.len() == done.len() + 1);
                    return Err(e);
                },
                Ok(v) => {
                    output.push(v);
                    proof {
                        states = seen.push(self@);
                        assert forall|k: int| 0 <= k < output@.len()
                            implies (exists|d: &mut Decoder<'a>| (*d)@ == #[trigger] states[k]
                                && call_ensures(decode, (d,), Ok::<T, Error>(output@[k]))
                                && (*final(d))@ == states[k + 1]) by {
                            if k < done.len() {
                                assert(states[k] == seen[k] && states[k + 1] == seen[k + 1]);
                                assert(output@[k] == done[k]);
                            }
                        }
                    }
                },
            }
            i += 1;
        }
        Ok(output)
    }

    /// Reads a number as `U` reads and takes it as a variant of `T`.
    pub fn read_enum<T: LLRPEnumeration, U: LLRPValue + Bits>(&mut self) -> (r:
        Result<T, Error>)
        ensures
            match parse_enum::<T, U>(old(self)@) {
                Ok((v, s)) => r == Ok::<T, Error>(v) && final(self)@ == s,
                Err(e) => r == Err::<T, Error>(e),
            },
            U::parse(old(self)@) is Err && U::atomic() ==> final(self)@ == old(self)@,
    {
        let raw = U::decode(self)?;
        proof {
            raw.lemma_plain();
        }
        T::from_value(raw.to_bits())
    }

    /// Reads a 16-bit count and then that many variants of `T`, each
    /// carried as `U`.
    pub fn read_enum_array<T: LLRPEnumeration, U: LLRPValue + Bits>(&mut self) -> (r: Result<
        Vec<T>,
        Error,
    >)
        ensures
            match parse_enum_array::<T, U>(old(self)@) {
                Ok((vs, s)) => r is Ok && r->Ok_0@ == vs && final(self)@ == s,
                Err(e) => r == Err::<Vec<T>, Error>(e),
            },
    {
        proof {
            lemma_pow256_values();
        }
        let count = self.read_uint(2)?;
        let ghost start = self@;
        let mut output: Vec<T> = Vec::new();
        let mut i: u64 = 0;
        while i < count
            invariant
                i <= count,
                parse_enum_array::<T, U>(old(self)@) == parse_enum_items::<T, U>(start, count as nat),
                parse_enum_items::<T, U>(start, count as nat) == prepend(
                    output@,
                    parse_enum_items::<T, U>(self@, (count - i) as nat),
                ),
            decreases count - i,
        {
            let ghost done = output@;
            match self.read_enum::<T, U>() {
                Err(e) => {
                    return Err(e);
                },
                Ok(v) => {
                    output.push(v);
                    proof {
                        let tail = parse_enum_items::<T, U>(self@, (count - i - 1) as nat);
                        if tail is Ok {
                            assert(done + (seq![v] + tail->Ok_0.0) =~= (done + seq![v])
                                + tail->Ok_0.0);
                        }
                        assert(output@ =~= done + seq![v]);
                    }
                },
            }
            i += 1;
        }
        assert(output@ + Seq::<T>::empty() =~= output@);
        Ok(output)
    }

    /// Reads `num_bits` bits and takes them as a variant of `T`.
    pub fn read_enum_bits<T: LLRPEnumeration>(&mut self, num_bits: u8) -> (r: Result<T, Error>)
        requires
            1 <= num_bits <= 15,
        ensures
            match parse_enum_bits::<T>(old(self)@, num_bits as nat) {
                Ok((v, s)) => r == Ok::<T, Error>(v) && final(self)@ == s,
                Err(e) => r == Err::<T, Error>(e),
            },
            old(self)@.read_bits(num_bits as nat) is Err ==> final(self)@ == old(self)@,
    {
        let raw = self.read_raw_bits(num_bits)?;
        T::from_value(raw)
    }
}

impl Encoder {
    /// Writes a value as its type writes.
    pub fn write<T: LLRPValue>(&mut self, value: &T)
        ensures
            final(self)@ == T::emit(value.deep_view(), old(self)@),
    {
        value.encode(self)
    }

    /// Writes a value behind the TV header `tv_id`.
    pub fn write_tv<T: LLRPValue>(&mut self, value: &T, tv_id: u8)
        ensures
            final(self)@ == T::emit_tv(value.deep_view(), old(self)@, tv_id),
    {
        value.encode_tv(self, tv_id)
    }

    /// Writes the `num_bits` low bits of the value.
    pub fn write_bits<T: Bits>(&mut self, value: &T, num_bits: u8)
        requires
            1 <= num_bits <= 15,
        ensures
            final(self)@ == old(self)@.write_bits(value.as_bits() as nat, num_bits as nat),
    {
        self.write_raw_bits(value.to_bits(), num_bits);
    }

    /// Writes the count of the items in sixteen bits, then each item with
    /// one call of `encode`, in order.
    pub fn array<T, F>(&mut self, items: &[T], encode: F) where
        T: LLRPValue,
        F: Fn(&mut Encoder, &T),

        requires
            forall|e: &mut Encoder, x: &T| call_requires(encode, (e, x)),
        ensures
            exists|states: Seq<EncoderState>|
                #![trigger states.len()]
                states[0] == old(self)@.write_uint(items@.len() % 0x1_0000, 2)
                    && states.last() == final(self)@
                    && states.len() == items@.len() + 1
                    && (
                        forall|i: int| 0 <= i < items@.len()
                            ==> (
                                exists|e: &mut Encoder| (*e)@ == #[trigger] states[i]
                                    && call_ensures(encode, (e, &items@[i]), ())
                                    && (*final(e))@ == states[i + 1]
                            )
                    ),
    {
        self.write_uint((items.len() % 0x1_0000) as u64, 2);
        let ghost first = self@;
        let ghost mut states: Seq<EncoderState> = seq![first];
        let mut i: usize = 0;
        while i < items.len()
            invariant
                i <= items.len(),
                forall|e: &mut Encoder, x: &T| call_requires(encode, (e, x)),
                first == old(self)@.write_uint(items@.len() % 0x1_0000, 2),
                states.len() == i + 1
                    && (
                        forall|j: int| 0 <= j < i
                            ==> (
                                exists|e: &mut Encoder| (*e)@ == #[trigger] states[j]
                                    && call_ensures(encode, (e, &items@[j]), ())
                                    && (*final(e))@ == states[j + 1]
                            )
                    ),
                states[0] == first,
                states.last() == self@,
            decreases items.len() - i,
        {
            let ghost before = self@;
            let ghost seen = states;
            encode(self, &items[i]);
            assert(
                (
                    exists|e: &mut Encoder| (*e)@ == before
                        && #[trigger] call_ensures(encode, (e, &items@[i as int]), ())
                        && (*final(e))@ == self@
                )
            );
            proof {
                states = seen.push(self@);
                assert forall|k: int| 0 <= k < i + 1
                    implies (exists|e: &mut Encoder| (*e)@ == #[trigger] states[k]
                        && call_ensures(encode, (e, &items@[k]), ())
                        && (*final(e))@ == states[k + 1]) by {
                    if k < i {
                        assert(states[k] == seen[k] && states[k + 1] == seen[k + 1]);
                    }
                }
            }
            i += 1;
        }
    }

    /// Writes the number of a variant as `U` writes.
    pub fn write_enum<T: LLRPEnumeration, U: LLRPValue + Bits>(&mut self, item: &T)
        ensures
            final(self)@ == U::emit(U::of_bits(item.value()), old(self)@),
    {
        let raw = item.to_value::<U>();
        proof {
            raw.lemma_plain();
        }
        raw.encode(self);
    }

    /// Writes the count of the variants in sixteen bits, then the number of
    /// each as `U` writes.
    pub fn write_enum_array<T: LLRPEnumeration, U: LLRPValue + Bits>(&mut self, items: &[T])
        ensures
            final(self)@ == emit_enum_array::<T, U>(items@, old(self)@),
    {
        self.write_uint((items.len() % 0x1_0000) as u64, 2);
        let mut i: usize = 0;
        assert(items@.skip(0) =~= items@);
        while i < items.len()
            invariant
                i <= items.len(),
                emit_enum_array::<T, U>(items@, old(self)@) == emit_enum_items::<T, U>(
                    items@.skip(i as int),
                    self@,
                ),
            decreases items.len() - i,
        {
            assert(items@.skip(i as int).drop_first() =~= items@.skip(i + 1));
            self.write_enum::<T, U>(&items[i]);
            i += 1;
        }
    }

    /// Writes the number of a variant in `num_bits` bits.
    pub fn write_enum_bits<T: LLRPEnumeration>(&mut self, item: &T, num_bits: u8)
        requires
            1 <= num_bits <= 15,
        ensures
            final(self)@ == old(self)@.write_bits(item.value() as nat, num_bits as nat),
    {
        self.write_raw_bits(item.to_value::<u32>(), num_bits);
    }
}

} // verus!
