//! The parameters of the protocol and the choices among them, each with its
//! codec and the laws of its format.

use vstd::prelude::*;
use vstd::std_specs::convert::FromSpecImpl;
use crate::decoder::{flag_byte, lemma_flag_front, Decoder, DecoderState, ParameterType};
use crate::encoder::{lemma_flag_written, Encoder, EncoderState};
use crate::enumerations::{AirProtocol, StatusCode};
use crate::error::Error;
use crate::primitives::{
    lemma_tv_front_u16, lemma_tv_front_u32, lemma_tv_front_u64, lemma_tv_front_u8,
    lemma_tv_written_u16, lemma_tv_written_u32, lemma_tv_written_u64, lemma_tv_written_u8,
};
use crate::value::{
    array_canonical, array_wire, behind_tv, decoded, emit_array, enum_fits, lemma_array_decoded,
    lemma_array_encoded, lemma_array_front, lemma_array_written, lemma_enum_front, lemma_tlv_front,
    lemma_tlv_written, parse_array, parse_enum, tlv_wire, tv_follow_ok, tv_wire, BitArray, Bits,
    LLRPEnumeration, LLRPValue, TlvParameter,
};
use crate::wire::{lemma_concat_assoc, lemma_concat_empty, lemma_concat_front};

verus! {

/// The status that every response carries.
#[derive(Debug, PartialEq, Eq)]
pub struct LLRPStatus {
    pub status_code: StatusCode,
    pub error_description: String,
    pub field_error: Option<FieldError>,
    pub parameter_error: Option<ParameterError>,
}

/// The model of a `LLRPStatus`.
pub struct LLRPStatusView {
    pub status_code: StatusCode,
    pub error_description: Seq<char>,
    pub field_error: Option<FieldError>,
    pub parameter_error: Option<ParameterError>,
}

impl DeepView for LLRPStatus {
    type V = LLRPStatusView;

    open spec fn deep_view(&self) -> LLRPStatusView {
        LLRPStatusView {
            status_code: self.status_code,
            error_description: self.error_description.deep_view(),
            field_error: self.field_error.deep_view(),
            parameter_error: self.parameter_error.deep_view(),
        }
    }
}

impl LLRPStatus {
    /// The bytes of the fields from the `k`-th on.
    #[verifier::opaque]
    pub open spec fn wire_from(v: LLRPStatusView, k: nat) -> Seq<u8>
        decreases 4 - k,
    {
        if k == 0 {
            <u16 as LLRPValue>::wire(<u16 as Bits>::of_bits(v.status_code.value()))
                + Self::wire_from(v, 1)
        } else if k == 1 {
            <String as LLRPValue>::wire(v.error_description) + Self::wire_from(v, 2)
        } else if k == 2 {
            <Option<FieldError> as LLRPValue>::wire(v.field_error) + Self::wire_from(v, 3)
        } else if k == 3 {
            <Option<ParameterError> as LLRPValue>::wire(v.parameter_error) + Self::wire_from(v, 4)
        } else {
            Seq::empty()
        }
    }

    /// The bytes of the fields, one field at a time.
    pub proof fn lemma_wire_from(v: LLRPStatusView)
        ensures
            Self::wire_from(v, 0) == <u16 as LLRPValue>::wire(<u16 as Bits>::of_bits(v.status_code.value()))
                + Self::wire_from(v, 1),
            Self::wire_from(v, 1) == <String as LLRPValue>::wire(v.error_description)
                + Self::wire_from(v, 2),
            Self::wire_from(v, 2) == <Option<FieldError> as LLRPValue>::wire(v.field_error)
                + Self::wire_from(v, 3),
            Self::wire_from(v, 3) == <Option<ParameterError> as LLRPValue>::wire(v.parameter_error)
                + Self::wire_from(v, 4),
            Self::wire_from(v, 4) == Seq::<u8>::empty(),
    {
        reveal(LLRPStatus::wire_from);
    }

    /// Whether the fields fit the format, each before the fields behind it.
    #[verifier::opaque]
    pub open spec fn fits(v: LLRPStatusView) -> bool {
        &&& enum_fits::<StatusCode, u16>(v.status_code)
        &&& <String as LLRPValue>::canonical(v.error_description)
        &&& <Option<FieldError> as LLRPValue>::canonical(v.field_error)
        &&& <Option<FieldError> as LLRPValue>::follow_ok(v.field_error, Self::wire_from(v, 3))
        &&& <Option<ParameterError> as LLRPValue>::canonical(v.parameter_error)
        &&& <Option<ParameterError> as LLRPValue>::follow_ok(
            v.parameter_error,
            Self::wire_from(v, 4),
        )
    }

    /// The fields read in order, or the first error.
    #[verifier::opaque]
    pub open spec fn read_fields(s: DecoderState) -> Result<(LLRPStatusView, DecoderState), Error> {
        match parse_enum::<StatusCode, u16>(s) {
            Err(e) => Err(e),
            Ok((status_code, s)) => match <String as LLRPValue>::parse(s) {
                Err(e) => Err(e),
                Ok((error_description, s)) => match <Option<FieldError> as LLRPValue>::parse(s) {
                    Err(e) => Err(e),
                    Ok((field_error, s)) => match <Option<ParameterError> as LLRPValue>::parse(s) {
                        Err(e) => Err(e),
                        Ok((parameter_error, s)) => Ok(
                            (
                                LLRPStatusView {
                                    status_code,
                                    error_description,
                                    field_error,
                                    parameter_error,
                                },
                                s,
                            ),
                        ),
                    },
                },
            },
        }
    }

    /// The state after the fields have been written in order.
    #[verifier::opaque]
    pub open spec fn write_fields(v: LLRPStatusView, s: EncoderState) -> EncoderState {
        let s = <u16 as LLRPValue>::emit(<u16 as Bits>::of_bits(v.status_code.value()), s);
        let s = <String as LLRPValue>::emit(v.error_description, s);
        let s = <Option<FieldError> as LLRPValue>::emit(v.field_error, s);
        let s = <Option<ParameterError> as LLRPValue>::emit(v.parameter_error, s);
        s
    }
}

impl TlvParameter for LLRPStatus {
    const ID: u16 = 287;

    open spec fn parse_body(s: DecoderState) -> Result<(LLRPStatusView, DecoderState), Error> {
        Self::read_fields(s)
    }

    open spec fn emit_body(v: LLRPStatusView, s: EncoderState) -> EncoderState {
        Self::write_fields(v, s)
    }

    open spec fn wire_body(v: LLRPStatusView) -> Seq<u8> {
        Self::wire_from(v, 0)
    }

    open spec fn canonical_body(v: LLRPStatusView) -> bool {
        Self::fits(v)
    }

    proof fn lemma_emit_body(v: LLRPStatusView, s: EncoderState) {
        reveal(LLRPStatus::write_fields);
        LLRPStatus::lemma_wire_from(v);
        <u16 as LLRPValue>::lemma_emit(<u16 as Bits>::of_bits(v.status_code.value()), s);
        let s1 = s.write_bytes(
            <u16 as LLRPValue>::wire(<u16 as Bits>::of_bits(v.status_code.value())),
        );
        <String as LLRPValue>::lemma_emit(v.error_description, s1);
        let s2 = s1.write_bytes(<String as LLRPValue>::wire(v.error_description));
        <Option<FieldError> as LLRPValue>::lemma_emit(v.field_error, s2);
        let s3 = s2.write_bytes(<Option<FieldError> as LLRPValue>::wire(v.field_error));
        <Option<ParameterError> as LLRPValue>::lemma_emit(v.parameter_error, s3);
        let s4 = s3.write_bytes(<Option<ParameterError> as LLRPValue>::wire(v.parameter_error));
        lemma_concat_empty(s4.bytes);
        lemma_concat_assoc(
            s3.bytes,
            <Option<ParameterError> as LLRPValue>::wire(v.parameter_error),
            LLRPStatus::wire_from(v, 4),
        );
        lemma_concat_assoc(
            s2.bytes,
            <Option<FieldError> as LLRPValue>::wire(v.field_error),
            LLRPStatus::wire_from(v, 3),
        );
        lemma_concat_assoc(
            s1.bytes,
            <String as LLRPValue>::wire(v.error_description),
            LLRPStatus::wire_from(v, 2),
        );
        lemma_concat_assoc(
            s.bytes,
            <u16 as LLRPValue>::wire(<u16 as Bits>::of_bits(v.status_code.value())),
            LLRPStatus::wire_from(v, 1),
        );
    }

    proof fn lemma_parse_body(v: LLRPStatusView) {
        reveal(LLRPStatus::fits);
        reveal(LLRPStatus::read_fields);
        if Self::canonical_body(v) {
            LLRPStatus::lemma_wire_from(v);
            assert(parse_enum::<StatusCode, u16>(DecoderState::start(Self::wire_from(v, 0))) == Ok::<(StatusCode, DecoderState), Error>((v.status_code, DecoderState::start(Self::wire_from(v, 1))))) by {
                lemma_enum_front::<StatusCode, u16>(v.status_code, Self::wire_from(v, 1));
            }
            assert(<String as LLRPValue>::parse(DecoderState::start(Self::wire_from(v, 1))) == Ok::<(Seq<char>, DecoderState), Error>((v.error_description, DecoderState::start(Self::wire_from(v, 2))))) by {
                <String as LLRPValue>::lemma_parse(v.error_description, Self::wire_from(v, 2));
            }
            assert(<Option<FieldError> as LLRPValue>::parse(DecoderState::start(Self::wire_from(v, 2))) == Ok::<(Option<FieldError>, DecoderState), Error>((v.field_error, DecoderState::start(Self::wire_from(v, 3))))) by {
                <Option<FieldError> as LLRPValue>::lemma_parse(
                    v.field_error,
                    Self::wire_from(v, 3),
                );
            }
            assert(<Option<ParameterError> as LLRPValue>::parse(DecoderState::start(Self::wire_from(v, 3))) == Ok::<(Option<ParameterError>, DecoderState), Error>((v.parameter_error, DecoderState::start(Self::wire_from(v, 4))))) by {
                <Option<ParameterError> as LLRPValue>::lemma_parse(
                    v.parameter_error,
                    Self::wire_from(v, 4),
                );
            }
        }
    }

    fn decode_body(decoder: &mut Decoder) -> (r: Result<Self, Error>) {
        proof {
            reveal(LLRPStatus::read_fields);
        }
        let status_code = decoder.read_enum::<StatusCode, u16>()?;
        let error_description = decoder.read::<String>()?;
        let field_error = decoder.read::<Option<FieldError>>()?;
        let parameter_error = decoder.read::<Option<ParameterError>>()?;
        Ok(LLRPStatus { status_code, error_description, field_error, parameter_error })
    }

    fn encode_body(&self, encoder: &mut Encoder) {
        proof {
            reveal(LLRPStatus::write_fields);
        }
        encoder.write_enum::<StatusCode, u16>(&self.status_code);
        encoder.write(&self.error_description);
        encoder.write(&self.field_error);
        encoder.write(&self.parameter_error);
    }
}

/// Names the field that a status complains about.
#[derive(Debug, PartialEq, Eq)]
pub struct FieldError {
    pub field_number: u16,
    pub error_code: StatusCode,
}

impl DeepView for FieldError {
    type V = FieldError;

    open spec fn deep_view(&self) -> FieldError {
        *self
    }
}

impl FieldError {
    /// The bytes of the fields from the `k`-th on.
    #[verifier::opaque]
    pub open spec fn wire_from(v: FieldError, k: nat) -> Seq<u8>
        decreases 2 - k,
    {
        if k == 0 {
            <u16 as LLRPValue>::wire(v.field_number) + Self::wire_from(v, 1)
        } else if k == 1 {
            <u16 as LLRPValue>::wire(<u16 as Bits>::of_bits(v.error_code.value()))
                + Self::wire_from(v, 2)
        } else {
            Seq::empty()
        }
    }

    /// The bytes of the fields, one field at a time.
    pub proof fn lemma_wire_from(v: FieldError)
        ensures
            Self::wire_from(v, 0) == <u16 as LLRPValue>::wire(v.field_number)
                + Self::wire_from(v, 1),
            Self::wire_from(v, 1) == <u16 as LLRPValue>::wire(<u16 as Bits>::of_bits(v.error_code.value()))
                + Self::wire_from(v, 2),
            Self::wire_from(v, 2) == Seq::<u8>::empty(),
    {
        reveal(FieldError::wire_from);
    }

    /// Whether the fields fit the format, each before the fields behind it.
    #[verifier::opaque]
    pub open spec fn fits(v: FieldError) -> bool {
        &&& enum_fits::<StatusCode, u16>(v.error_code)
    }

    /// The fields read in order, or the first error.
    #[verifier::opaque]
    pub open spec fn read_fields(s: DecoderState) -> Result<(FieldError, DecoderState), Error> {
        match <u16 as LLRPValue>::parse(s) {
            Err(e) => Err(e),
            Ok((field_number, s)) => match parse_enum::<StatusCode, u16>(s) {
                Err(e) => Err(e),
                Ok((error_code, s)) => Ok((FieldError { field_number, error_code }, s)),
            },
        }
    }

    /// The state after the fields have been written in order.
    #[verifier::opaque]
    pub open spec fn write_fields(v: FieldError, s: EncoderState) -> EncoderState {
        let s = <u16 as LLRPValue>::emit(v.field_number, s);
        let s = <u16 as LLRPValue>::emit(<u16 as Bits>::of_bits(v.error_code.value()), s);
        s
    }
}

impl TlvParameter for FieldError {
    const ID: u16 = 288;

    open spec fn parse_body(s: DecoderState) -> Result<(FieldError, DecoderState), Error> {
        Self::read_fields(s)
    }

    open spec fn emit_body(v: FieldError, s: EncoderState) -> EncoderState {
        Self::write_fields(v, s)
    }

    open spec fn wire_body(v: FieldError) -> Seq<u8> {
        Self::wire_from(v, 0)
    }

    open spec fn canonical_body(v: FieldError) -> bool {
        Self::fits(v)
    }

    proof fn lemma_emit_body(v: FieldError, s: EncoderState) {
        reveal(FieldError::write_fields);
        FieldError::lemma_wire_from(v);
        <u16 as LLRPValue>::lemma_emit(v.field_number, s);
        let s1 = s.write_bytes(<u16 as LLRPValue>::wire(v.field_number));
        <u16 as LLRPValue>::lemma_emit(<u16 as Bits>::of_bits(v.error_code.value()), s1);
        let s2 = s1.write_bytes(
            <u16 as LLRPValue>::wire(<u16 as Bits>::of_bits(v.error_code.value())),
        );
        lemma_concat_empty(s2.bytes);
        lemma_concat_assoc(
            s1.bytes,
            <u16 as LLRPValue>::wire(<u16 as Bits>::of_bits(v.error_code.value())),
            FieldError::wire_from(v, 2),
        );
        lemma_concat_assoc(
            s.bytes,
            <u16 as LLRPValue>::wire(v.field_number),
            FieldError::wire_from(v, 1),
        );
    }

    proof fn lemma_parse_body(v: FieldError) {
        reveal(FieldError::fits);
        reveal(FieldError::read_fields);
        if Self::canonical_body(v) {
            FieldError::lemma_wire_from(v);
            assert(<u16 as LLRPValue>::parse(DecoderState::start(Self::wire_from(v, 0))) == Ok::<(u16, DecoderState), Error>((v.field_number, DecoderState::start(Self::wire_from(v, 1))))) by {
                <u16 as LLRPValue>::lemma_parse(v.field_number, Self::wire_from(v, 1));
            }
            assert(parse_enum::<StatusCode, u16>(DecoderState::start(Self::wire_from(v, 1))) == Ok::<(StatusCode, DecoderState), Error>((v.error_code, DecoderState::start(Self::wire_from(v, 2))))) by {
                lemma_enum_front::<StatusCode, u16>(v.error_code, Self::wire_from(v, 2));
            }
        }
    }

    fn decode_body(decoder: &mut Decoder) -> (r: Result<Self, Error>) {
        proof {
            reveal(FieldError::read_fields);
        }
        let field_number = decoder.read::<u16>()?;
        let error_code = decoder.read_enum::<StatusCode, u16>()?;
        Ok(FieldError { field_number, error_code })
    }

    fn encode_body(&self, encoder: &mut Encoder) {
        proof {
            reveal(FieldError::write_fields);
        }
        encoder.write(&self.field_number);
        encoder.write_enum::<StatusCode, u16>(&self.error_code);
    }
}

/// A reader operation: what to inventory, when, and what to report.
#[derive(Debug, PartialEq, Eq)]
pub struct RoSpec {
    pub id: u32,
    pub priority: u8,
    pub current_state: u8,
    pub boundary_spec: RoBoundarySpec,
    pub spec_list: Vec<AiSpec>,
    pub report_spec: Option<RoReportSpec>,
}

/// The model of a `RoSpec`.
pub struct RoSpecView {
    pub id: u32,
    pub priority: u8,
    pub current_state: u8,
    pub boundary_spec: RoBoundarySpec,
    pub spec_list: Seq<AiSpecView>,
    pub report_spec: Option<RoReportSpec>,
}

impl DeepView for RoSpec {
    type V = RoSpecView;

    open spec fn deep_view(&self) -> RoSpecView {
        RoSpecView {
            id: self.id,
            priority: self.priority,
            current_state: self.current_state,
            boundary_spec: self.boundary_spec.deep_view(),
            spec_list: self.spec_list.deep_view(),
            report_spec: self.report_spec.deep_view(),
        }
    }
}

impl RoSpec {
    /// The bytes of the fields from the `k`-th on.
    #[verifier::opaque]
    pub open spec fn wire_from(v: RoSpecView, k: nat) -> Seq<u8>
        decreases 6 - k,
    {
        if k == 0 {
            <u32 as LLRPValue>::wire(v.id) + Self::wire_from(v, 1)
        } else if k == 1 {
            <u8 as LLRPValue>::wire(v.priority) + Self::wire_from(v, 2)
        } else if k == 2 {
            <u8 as LLRPValue>::wire(v.current_state) + Self::wire_from(v, 3)
        } else if k == 3 {
            <RoBoundarySpec as LLRPValue>::wire(v.boundary_spec) + Self::wire_from(v, 4)
        } else if k == 4 {
            <Vec<AiSpec> as LLRPValue>::wire(v.spec_list) + Self::wire_from(v, 5)
        } else if k == 5 {
            <Option<RoReportSpec> as LLRPValue>::wire(v.report_spec) + Self::wire_from(v, 6)
        } else {
            Seq::empty()
        }
    }

    /// The bytes of the fields, one field at a time.
    pub proof fn lemma_wire_from(v: RoSpecView)
        ensures
            Self::wire_from(v, 0) == <u32 as LLRPValue>::wire(v.id) + Self::wire_from(v, 1),
            Self::wire_from(v, 1) == <u8 as LLRPValue>::wire(v.priority) + Self::wire_from(v, 2),
            Self::wire_from(v, 2) == <u8 as LLRPValue>::wire(v.current_state)
                + Self::wire_from(v, 3),
            Self::wire_from(v, 3) == <RoBoundarySpec as LLRPValue>::wire(v.boundary_spec)
                + Self::wire_from(v, 4),
            Self::wire_from(v, 4) == <Vec<AiSpec> as LLRPValue>::wire(v.spec_list)
                + Self::wire_from(v, 5),
            Self::wire_from(v, 5) == <Option<RoReportSpec> as LLRPValue>::wire(v.report_spec)
                + Self::wire_from(v, 6),
            Self::wire_from(v, 6) == Seq::<u8>::empty(),
    {
        reveal(RoSpec::wire_from);
    }

    /// Whether the fields fit the format, each before the fields behind it.
    #[verifier::opaque]
    pub open spec fn fits(v: RoSpecView) -> bool {
        &&& <RoBoundarySpec as LLRPValue>::canonical(v.boundary_spec)
        &&& <Vec<AiSpec> as LLRPValue>::canonical(v.spec_list)
        &&& <Vec<AiSpec> as LLRPValue>::follow_ok(v.spec_list, Self::wire_from(v, 5))
        &&& <Option<RoReportSpec> as LLRPValue>::canonical(v.report_spec)
        &&& <Option<RoReportSpec> as LLRPValue>::follow_ok(v.report_spec, Self::wire_from(v, 6))
    }

    /// The first fields read in order, or the first error.
    #[verifier::opaque]
    pub open spec fn read_front(s: DecoderState) -> Result<((u32, u8, u8), DecoderState), Error> {
        match <u32 as LLRPValue>::parse(s) {
            Err(e) => Err(e),
            Ok((id, s)) => match <u8 as LLRPValue>::parse(s) {
                Err(e) => Err(e),
                Ok((priority, s)) => match <u8 as LLRPValue>::parse(s) {
                    Err(e) => Err(e),
                    Ok((current_state, s)) => Ok(((id, priority, current_state), s)),
                },
            },
        }
    }

    /// The other fields read in order behind the first, or the first error.
    #[verifier::opaque]
    pub open spec fn read_back(front: (u32, u8, u8), s: DecoderState) -> Result<
        (RoSpecView, DecoderState),
        Error,
    > {
        match <RoBoundarySpec as LLRPValue>::parse(s) {
            Err(e) => Err(e),
            Ok((boundary_spec, s)) => match <Vec<AiSpec> as LLRPValue>::parse(s) {
                Err(e) => Err(e),
                Ok((spec_list, s)) => match <Option<RoReportSpec> as LLRPValue>::parse(s) {
                    Err(e) => Err(e),
                    Ok((report_spec, s)) => Ok((RoSpecView { id: front.0, priority: front.1, current_state: front.2, boundary_spec, spec_list, report_spec }, s)),
                },
            },
        }
    }

    /// The fields read in order, or the first error.
    #[verifier::opaque]
    pub open spec fn read_fields(s: DecoderState) -> Result<(RoSpecView, DecoderState), Error> {
        match Self::read_front(s) {
            Err(e) => Err(e),
            Ok((front, s)) => Self::read_back(front, s),
        }
    }

    /// The state after the fields have been written in order.
    #[verifier::opaque]
    pub open spec fn write_fields(v: RoSpecView, s: EncoderState) -> EncoderState {
        let s = <u32 as LLRPValue>::emit(v.id, s);
        let s = <u8 as LLRPValue>::emit(v.priority, s);
        let s = <u8 as LLRPValue>::emit(v.current_state, s);
        let s = <RoBoundarySpec as LLRPValue>::emit(v.boundary_spec, s);
        let s = <Vec<AiSpec> as LLRPValue>::emit(v.spec_list, s);
        let s = <Option<RoReportSpec> as LLRPValue>::emit(v.report_spec, s);
        s
    }

    fn decode_front(decoder: &mut Decoder) -> (r: Result<(u32, u8, u8), Error>)
        ensures
            match Self::read_front(old(decoder)@) {
                Ok((front, s)) => {
                    &&& r is Ok
                    &&& r->Ok_0.0 == front.0
                    &&& r->Ok_0.1 == front.1
                    &&& r->Ok_0.2 == front.2
                    &&& final(decoder)@ == s
                },
                Err(e) => r == Err::<(u32, u8, u8), Error>(e),
            },
    {
        proof {
            reveal(RoSpec::read_front);
        }
        let id = decoder.read::<u32>()?;
        let priority = decoder.read::<u8>()?;
        let current_state = decoder.read::<u8>()?;
        Ok((id, priority, current_state))
    }

    fn decode_back(front: (u32, u8, u8), decoder: &mut Decoder) -> (r: Result<RoSpec, Error>)
        ensures
            decoded::<RoSpec>(
                Self::read_back((front.0, front.1, front.2), old(decoder)@),
                r,
                final(decoder)@,
            ),
    {
        proof {
            reveal(RoSpec::read_back);
        }
        let boundary_spec = decoder.read::<RoBoundarySpec>()?;
        let spec_list = decoder.read::<Vec<AiSpec>>()?;
        let report_spec = decoder.read::<Option<RoReportSpec>>()?;
        Ok(RoSpec { id: front.0, priority: front.1, current_state: front.2, boundary_spec, spec_list, report_spec })
    }

    /// The first fields are read back from the bytes of all.
    pub proof fn lemma_parse_front(v: RoSpecView)
        ensures
            Self::fits(v) ==> Self::read_front(DecoderState::start(Self::wire_from(v, 0))) == Ok::<
                ((u32, u8, u8), DecoderState),
                Error,
            >(((v.id, v.priority, v.current_state), DecoderState::start(Self::wire_from(v, 3)))),
    {
        reveal(RoSpec::fits);
        reveal(RoSpec::read_front);
        if Self::fits(v) {
            RoSpec::lemma_wire_from(v);
            assert(<u32 as LLRPValue>::parse(DecoderState::start(Self::wire_from(v, 0))) == Ok::<(u32, DecoderState), Error>((v.id, DecoderState::start(Self::wire_from(v, 1))))) by {
                <u32 as LLRPValue>::lemma_parse(v.id, Self::wire_from(v, 1));
            }
            assert(<u8 as LLRPValue>::parse(DecoderState::start(Self::wire_from(v, 1))) == Ok::<(u8, DecoderState), Error>((v.priority, DecoderState::start(Self::wire_from(v, 2))))) by {
                <u8 as LLRPValue>::lemma_parse(v.priority, Self::wire_from(v, 2));
            }
            assert(<u8 as LLRPValue>::parse(DecoderState::start(Self::wire_from(v, 2))) == Ok::<(u8, DecoderState), Error>((v.current_state, DecoderState::start(Self::wire_from(v, 3))))) by {
                <u8 as LLRPValue>::lemma_parse(v.current_state, Self::wire_from(v, 3));
            }
        }
    }

    /// The other fields are read back from the bytes behind the first.
    pub proof fn lemma_parse_back(v: RoSpecView)
        ensures
            Self::fits(
                v) ==> Self::read_back((v.id,
                v.priority,
                v.current_state), DecoderState::start(Self::wire_from(v, 3)),
            )
                == Ok::<(RoSpecView, DecoderState), Error>((v, DecoderState::start(Seq::empty()))),
    {
        reveal(RoSpec::fits);
        reveal(RoSpec::read_back);
        if Self::fits(v) {
            RoSpec::lemma_wire_from(v);
            assert(<RoBoundarySpec as LLRPValue>::parse(DecoderState::start(Self::wire_from(v, 3))) == Ok::<(RoBoundarySpec, DecoderState), Error>((v.boundary_spec, DecoderState::start(Self::wire_from(v, 4))))) by {
                <RoBoundarySpec as LLRPValue>::lemma_parse(v.boundary_spec, Self::wire_from(v, 4));
            }
            assert(<Vec<AiSpec> as LLRPValue>::parse(DecoderState::start(Self::wire_from(v, 4))) == Ok::<(Seq<AiSpecView>, DecoderState), Error>((v.spec_list, DecoderState::start(Self::wire_from(v, 5))))) by {
                <Vec<AiSpec> as LLRPValue>::lemma_parse(v.spec_list, Self::wire_from(v, 5));
            }
            assert(<Option<RoReportSpec> as LLRPValue>::parse(DecoderState::start(Self::wire_from(v, 5))) == Ok::<(Option<RoReportSpec>, DecoderState), Error>((v.report_spec, DecoderState::start(Self::wire_from(v, 6))))) by {
                <Option<RoReportSpec> as LLRPValue>::lemma_parse(
                    v.report_spec,
                    Self::wire_from(v, 6),
                );
            }
        }
    }
}

impl TlvParameter for RoSpec {
    const ID: u16 = 177;

    open spec fn parse_body(s: DecoderState) -> Result<(RoSpecView, DecoderState), Error> {
        Self::read_fields(s)
    }

    open spec fn emit_body(v: RoSpecView, s: EncoderState) -> EncoderState {
        Self::write_fields(v, s)
    }

    open spec fn wire_body(v: RoSpecView) -> Seq<u8> {
        Self::wire_from(v, 0)
    }

    open spec fn canonical_body(v: RoSpecView) -> bool {
        Self::fits(v)
    }

    proof fn lemma_emit_body(v: RoSpecView, s: EncoderState) {
        reveal(RoSpec::write_fields);
        RoSpec::lemma_wire_from(v);
        <u32 as LLRPValue>::lemma_emit(v.id, s);
        let s1 = s.write_bytes(<u32 as LLRPValue>::wire(v.id));
        <u8 as LLRPValue>::lemma_emit(v.priority, s1);
        let s2 = s1.write_bytes(<u8 as LLRPValue>::wire(v.priority));
        <u8 as LLRPValue>::lemma_emit(v.current_state, s2);
        let s3 = s2.write_bytes(<u8 as LLRPValue>::wire(v.current_state));
        <RoBoundarySpec as LLRPValue>::lemma_emit(v.boundary_spec, s3);
        let s4 = s3.write_bytes(<RoBoundarySpec as LLRPValue>::wire(v.boundary_spec));
        <Vec<AiSpec> as LLRPValue>::lemma_emit(v.spec_list, s4);
        let s5 = s4.write_bytes(<Vec<AiSpec> as LLRPValue>::wire(v.spec_list));
        <Option<RoReportSpec> as LLRPValue>::lemma_emit(v.report_spec, s5);
        let s6 = s5.write_bytes(<Option<RoReportSpec> as LLRPValue>::wire(v.report_spec));
        lemma_concat_empty(s6.bytes);
        lemma_concat_assoc(
            s5.bytes,
            <Option<RoReportSpec> as LLRPValue>::wire(v.report_spec),
            RoSpec::wire_from(v, 6),
        );
        lemma_concat_assoc(
            s4.bytes,
            <Vec<AiSpec> as LLRPValue>::wire(v.spec_list),
            RoSpec::wire_from(v, 5),
        );
        lemma_concat_assoc(
            s3.bytes,
            <RoBoundarySpec as LLRPValue>::wire(v.boundary_spec),
            RoSpec::wire_from(v, 4),
        );
        lemma_concat_assoc(
            s2.bytes,
            <u8 as LLRPValue>::wire(v.current_state),
            RoSpec::wire_from(v, 3),
        );
        lemma_concat_assoc(s1.bytes, <u8 as LLRPValue>::wire(v.priority), RoSpec::wire_from(v, 2));
        lemma_concat_assoc(s.bytes, <u32 as LLRPValue>::wire(v.id), RoSpec::wire_from(v, 1));
    }

    proof fn lemma_parse_body(v: RoSpecView) {
        RoSpec::lemma_parse_front(v);
        RoSpec::lemma_parse_back(v);
        reveal(RoSpec::read_fields);
    }

    fn decode_body(decoder: &mut Decoder) -> (r: Result<Self, Error>) {
        proof {
            reveal(RoSpec::read_fields);
        }
        let front = Self::decode_front(decoder)?;
        Self::decode_back(front, decoder)
    }

    fn encode_body(&self, encoder: &mut Encoder) {
        proof {
            reveal(RoSpec::write_fields);
        }
        encoder.write(&self.id);
        encoder.write(&self.priority);
        encoder.write(&self.current_state);
        encoder.write(&self.boundary_spec);
        encoder.write(&self.spec_list);
        encoder.write(&self.report_spec);
    }
}

/// When a reader operation starts and stops.
#[derive(Debug, PartialEq, Eq)]
pub struct RoBoundarySpec {
    pub start_trigger: RoSpecStartTrigger,
    pub stop_trigger: RoSpecStopTrigger,
}

impl DeepView for RoBoundarySpec {
    type V = RoBoundarySpec;

    open spec fn deep_view(&self) -> RoBoundarySpec {
        *self
    }
}

impl RoBoundarySpec {
    /// The bytes of the fields from the `k`-th on.
    #[verifier::opaque]
    pub open spec fn wire_from(v: RoBoundarySpec, k: nat) -> Seq<u8>
        decreases 2 - k,
    {
        if k == 0 {
            <RoSpecStartTrigger as LLRPValue>::wire(v.start_trigger) + Self::wire_from(v, 1)
        } else if k == 1 {
            <RoSpecStopTrigger as LLRPValue>::wire(v.stop_trigger) + Self::wire_from(v, 2)
        } else {
            Seq::empty()
        }
    }

    /// The bytes of the fields, one field at a time.
    pub proof fn lemma_wire_from(v: RoBoundarySpec)
        ensures
            Self::wire_from(v, 0) == <RoSpecStartTrigger as LLRPValue>::wire(v.start_trigger)
                + Self::wire_from(v, 1),
            Self::wire_from(v, 1) == <RoSpecStopTrigger as LLRPValue>::wire(v.stop_trigger)
                + Self::wire_from(v, 2),
            Self::wire_from(v, 2) == Seq::<u8>::empty(),
    {
        reveal(RoBoundarySpec::wire_from);
    }

    /// Whether the fields fit the format, each before the fields behind it.
    #[verifier::opaque]
    pub open spec fn fits(v: RoBoundarySpec) -> bool {
        &&& <RoSpecStartTrigger as LLRPValue>::canonical(v.start_trigger)
        &&& <RoSpecStopTrigger as LLRPValue>::canonical(v.stop_trigger)
    }

    /// The fields read in order, or the first error.
    #[verifier::opaque]
    pub open spec fn read_fields(s: DecoderState) -> Result<(RoBoundarySpec, DecoderState), Error> {
        match <RoSpecStartTrigger as LLRPValue>::parse(s) {
            Err(e) => Err(e),
            Ok((start_trigger, s)) => match <RoSpecStopTrigger as LLRPValue>::parse(s) {
                Err(e) => Err(e),
                Ok((stop_trigger, s)) => Ok((RoBoundarySpec { start_trigger, stop_trigger }, s)),
            },
        }
    }

    /// The state after the fields have been written in order.
    #[verifier::opaque]
    pub open spec fn write_fields(v: RoBoundarySpec, s: EncoderState) -> EncoderState {
        let s = <RoSpecStartTrigger as LLRPValue>::emit(v.start_trigger, s);
        let s = <RoSpecStopTrigger as LLRPValue>::emit(v.stop_trigger, s);
        s
    }
}

impl TlvParameter for RoBoundarySpec {
    const ID: u16 = 178;

    open spec fn parse_body(s: DecoderState) -> Result<(RoBoundarySpec, DecoderState), Error> {
        Self::read_fields(s)
    }

    open spec fn emit_body(v: RoBoundarySpec, s: EncoderState) -> EncoderState {
        Self::write_fields(v, s)
    }

    open spec fn wire_body(v: RoBoundarySpec) -> Seq<u8> {
        Self::wire_from(v, 0)
    }

    open spec fn canonical_body(v: RoBoundarySpec) -> bool {
        Self::fits(v)
    }

    proof fn lemma_emit_body(v: RoBoundarySpec, s: EncoderState) {
        reveal(RoBoundarySpec::write_fields);
        RoBoundarySpec::lemma_wire_from(v);
        <RoSpecStartTrigger as LLRPValue>::lemma_emit(v.start_trigger, s);
        let s1 = s.write_bytes(<RoSpecStartTrigger as LLRPValue>::wire(v.start_trigger));
        <RoSpecStopTrigger as LLRPValue>::lemma_emit(v.stop_trigger, s1);
        let s2 = s1.write_bytes(<RoSpecStopTrigger as LLRPValue>::wire(v.stop_trigger));
        lemma_concat_empty(s2.bytes);
        lemma_concat_assoc(
            s1.bytes,
            <RoSpecStopTrigger as LLRPValue>::wire(v.stop_trigger),
            RoBoundarySpec::wire_from(v, 2),
        );
        lemma_concat_assoc(
            s.bytes,
            <RoSpecStartTrigger as LLRPValue>::wire(v.start_trigger),
            RoBoundarySpec::wire_from(v, 1),
        );
    }

    proof fn lemma_parse_body(v: RoBoundarySpec) {
        reveal(RoBoundarySpec::fits);
        reveal(RoBoundarySpec::read_fields);
        if Self::canonical_body(v) {
            RoBoundarySpec::lemma_wire_from(v);
            assert(<RoSpecStartTrigger as LLRPValue>::parse(DecoderState::start(Self::wire_from(v, 0))) == Ok::<(RoSpecStartTrigger, DecoderState), Error>((v.start_trigger, DecoderState::start(Self::wire_from(v, 1))))) by {
                <RoSpecStartTrigger as LLRPValue>::lemma_parse(
                    v.start_trigger,
                    Self::wire_from(v, 1),
                );
            }
            assert(<RoSpecStopTrigger as LLRPValue>::parse(DecoderState::start(Self::wire_from(v, 1))) == Ok::<(RoSpecStopTrigger, DecoderState), Error>((v.stop_trigger, DecoderState::start(Self::wire_from(v, 2))))) by {
                <RoSpecStopTrigger as LLRPValue>::lemma_parse(
                    v.stop_trigger,
                    Self::wire_from(v, 2),
                );
            }
        }
    }

    fn decode_body(decoder: &mut Decoder) -> (r: Result<Self, Error>) {
        proof {
            reveal(RoBoundarySpec::read_fields);
        }
        let start_trigger = decoder.read::<RoSpecStartTrigger>()?;
        let stop_trigger = decoder.read::<RoSpecStopTrigger>()?;
        Ok(RoBoundarySpec { start_trigger, stop_trigger })
    }

    fn encode_body(&self, encoder: &mut Encoder) {
        proof {
            reveal(RoBoundarySpec::write_fields);
        }
        encoder.write(&self.start_trigger);
        encoder.write(&self.stop_trigger);
    }
}

/// What starts a reader operation.
#[derive(Debug, PartialEq, Eq)]
pub struct RoSpecStartTrigger {
    pub trigger_type: u8,
    pub periodic_trigger_value: Option<PeriodicTriggerValue>,
    pub gpi_trigger_value: Option<GPITriggerValue>,
}

impl DeepView for RoSpecStartTrigger {
    type V = RoSpecStartTrigger;

    open spec fn deep_view(&self) -> RoSpecStartTrigger {
        *self
    }
}

impl RoSpecStartTrigger {
    /// The bytes of the fields from the `k`-th on.
    #[verifier::opaque]
    pub open spec fn wire_from(v: RoSpecStartTrigger, k: nat) -> Seq<u8>
        decreases 3 - k,
    {
        if k == 0 {
            <u8 as LLRPValue>::wire(v.trigger_type) + Self::wire_from(v, 1)
        } else if k == 1 {
            <Option<PeriodicTriggerValue> as LLRPValue>::wire(v.periodic_trigger_value)
                + Self::wire_from(v, 2)
        } else if k == 2 {
            <Option<GPITriggerValue> as LLRPValue>::wire(v.gpi_trigger_value)
                + Self::wire_from(v, 3)
        } else {
            Seq::empty()
        }
    }

    /// The bytes of the fields, one field at a time.
    pub proof fn lemma_wire_from(v: RoSpecStartTrigger)
        ensures
            Self::wire_from(v, 0) == <u8 as LLRPValue>::wire(v.trigger_type)
                + Self::wire_from(v, 1),
            Self::wire_from(v, 1) == <Option<PeriodicTriggerValue> as LLRPValue>::wire(v.periodic_trigger_value)
                + Self::wire_from(v, 2),
            Self::wire_from(v, 2) == <Option<GPITriggerValue> as LLRPValue>::wire(v.gpi_trigger_value)
                + Self::wire_from(v, 3),
            Self::wire_from(v, 3) == Seq::<u8>::empty(),
    {
        reveal(RoSpecStartTrigger::wire_from);
    }

    /// Whether the fields fit the format, each before the fields behind it.
    #[verifier::opaque]
    pub open spec fn fits(v: RoSpecStartTrigger) -> bool {
        &&& <Option<PeriodicTriggerValue> as LLRPValue>::canonical(v.periodic_trigger_value)
        &&& <Option<PeriodicTriggerValue> as LLRPValue>::follow_ok(
            v.periodic_trigger_value,
            Self::wire_from(v, 2),
        )
        &&& <Option<GPITriggerValue> as LLRPValue>::canonical(v.gpi_trigger_value)
        &&& <Option<GPITriggerValue> as LLRPValue>::follow_ok(
            v.gpi_trigger_value,
            Self::wire_from(v, 3),
        )
    }

    /// The fields read in order, or the first error.
    #[verifier::opaque]
    pub open spec fn read_fields(s: DecoderState) -> Result<
        (RoSpecStartTrigger, DecoderState),
        Error,
    > {
        match <u8 as LLRPValue>::parse(s) {
            Err(e) => Err(e),
            Ok((trigger_type, s)) => match <Option<PeriodicTriggerValue> as LLRPValue>::parse(s) {
                Err(e) => Err(e),
                Ok((periodic_trigger_value, s)) => match <Option<GPITriggerValue> as LLRPValue>::parse(s) {
                    Err(e) => Err(e),
                    Ok((gpi_trigger_value, s)) => Ok(
                        (
                            RoSpecStartTrigger {
                                trigger_type,
                                periodic_trigger_value,
                                gpi_trigger_value,
                            },
                            s,
                        ),
                    ),
                },
            },
        }
    }

    /// The state after the fields have been written in order.
    #[verifier::opaque]
    pub open spec fn write_fields(v: RoSpecStartTrigger, s: EncoderState) -> EncoderState {
        let s = <u8 as LLRPValue>::emit(v.trigger_type, s);
        let s = <Option<PeriodicTriggerValue> as LLRPValue>::emit(v.periodic_trigger_value, s);
        let s = <Option<GPITriggerValue> as LLRPValue>::emit(v.gpi_trigger_value, s);
        s
    }
}

impl TlvParameter for RoSpecStartTrigger {
    const ID: u16 = 179;

    open spec fn parse_body(s: DecoderState) -> Result<(RoSpecStartTrigger, DecoderState), Error> {
        Self::read_fields(s)
    }

    open spec fn emit_body(v: RoSpecStartTrigger, s: EncoderState) -> EncoderState {
        Self::write_fields(v, s)
    }

    open spec fn wire_body(v: RoSpecStartTrigger) -> Seq<u8> {
        Self::wire_from(v, 0)
    }

    open spec fn canonical_body(v: RoSpecStartTrigger) -> bool {
        Self::fits(v)
    }

    proof fn lemma_emit_body(v: RoSpecStartTrigger, s: EncoderState) {
        reveal(RoSpecStartTrigger::write_fields);
        RoSpecStartTrigger::lemma_wire_from(v);
        <u8 as LLRPValue>::lemma_emit(v.trigger_type, s);
        let s1 = s.write_bytes(<u8 as LLRPValue>::wire(v.trigger_type));
        <Option<PeriodicTriggerValue> as LLRPValue>::lemma_emit(v.periodic_trigger_value, s1);
        let s2 = s1.write_bytes(
            <Option<PeriodicTriggerValue> as LLRPValue>::wire(v.periodic_trigger_value),
        );
        <Option<GPITriggerValue> as LLRPValue>::lemma_emit(v.gpi_trigger_value, s2);
        let s3 = s2.write_bytes(<Option<GPITriggerValue> as LLRPValue>::wire(v.gpi_trigger_value));
        lemma_concat_empty(s3.bytes);
        lemma_concat_assoc(
            s2.bytes,
            <Option<GPITriggerValue> as LLRPValue>::wire(v.gpi_trigger_value),
            RoSpecStartTrigger::wire_from(v, 3),
        );
        lemma_concat_assoc(
            s1.bytes,
            <Option<PeriodicTriggerValue> as LLRPValue>::wire(v.periodic_trigger_value),
            RoSpecStartTrigger::wire_from(v, 2),
        );
        lemma_concat_assoc(
            s.bytes,
            <u8 as LLRPValue>::wire(v.trigger_type),
            RoSpecStartTrigger::wire_from(v, 1),
        );
    }

    proof fn lemma_parse_body(v: RoSpecStartTrigger) {
        reveal(RoSpecStartTrigger::fits);
        reveal(RoSpecStartTrigger::read_fields);
        if Self::canonical_body(v) {
            RoSpecStartTrigger::lemma_wire_from(v);
            assert(<u8 as LLRPValue>::parse(DecoderState::start(Self::wire_from(v, 0))) == Ok::<(u8, DecoderState), Error>((v.trigger_type, DecoderState::start(Self::wire_from(v, 1))))) by {
                <u8 as LLRPValue>::lemma_parse(v.trigger_type, Self::wire_from(v, 1));
            }
            assert(<Option<PeriodicTriggerValue> as LLRPValue>::parse(DecoderState::start(Self::wire_from(v, 1))) == Ok::<(Option<PeriodicTriggerValue>, DecoderState), Error>((v.periodic_trigger_value, DecoderState::start(Self::wire_from(v, 2))))) by {
                <Option<PeriodicTriggerValue> as LLRPValue>::lemma_parse(
                    v.periodic_trigger_value,
                    Self::wire_from(v, 2),
                );
            }
            assert(<Option<GPITriggerValue> as LLRPValue>::parse(DecoderState::start(Self::wire_from(v, 2))) == Ok::<(Option<GPITriggerValue>, DecoderState), Error>((v.gpi_trigger_value, DecoderState::start(Self::wire_from(v, 3))))) by {
                <Option<GPITriggerValue> as LLRPValue>::lemma_parse(
                    v.gpi_trigger_value,
                    Self::wire_from(v, 3),
                );
            }
        }
    }

    fn decode_body(decoder: &mut Decoder) -> (r: Result<Self, Error>) {
        proof {
            reveal(RoSpecStartTrigger::read_fields);
        }
        let trigger_type = decoder.read::<u8>()?;
        let periodic_trigger_value = decoder.read::<Option<PeriodicTriggerValue>>()?;
        let gpi_trigger_value = decoder.read::<Option<GPITriggerValue>>()?;
        Ok(RoSpecStartTrigger { trigger_type, periodic_trigger_value, gpi_trigger_value })
    }

    fn encode_body(&self, encoder: &mut Encoder) {
        proof {
            reveal(RoSpecStartTrigger::write_fields);
        }
        encoder.write(&self.trigger_type);
        encoder.write(&self.periodic_trigger_value);
        encoder.write(&self.gpi_trigger_value);
    }
}

/// A trigger that fires at fixed intervals.
#[derive(Debug, PartialEq, Eq)]
pub struct PeriodicTriggerValue {
    pub offset: u64,
    pub period: u64,
    pub utc_time: Option<UTCTimestamp>,
}

impl DeepView for PeriodicTriggerValue {
    type V = PeriodicTriggerValue;

    open spec fn deep_view(&self) -> PeriodicTriggerValue {
        *self
    }
}

impl PeriodicTriggerValue {
    /// The bytes of the fields from the `k`-th on.
    #[verifier::opaque]
    pub open spec fn wire_from(v: PeriodicTriggerValue, k: nat) -> Seq<u8>
        decreases 3 - k,
    {
        if k == 0 {
            <u64 as LLRPValue>::wire(v.offset) + Self::wire_from(v, 1)
        } else if k == 1 {
            <u64 as LLRPValue>::wire(v.period) + Self::wire_from(v, 2)
        } else if k == 2 {
            <Option<UTCTimestamp> as LLRPValue>::wire(v.utc_time) + Self::wire_from(v, 3)
        } else {
            Seq::empty()
        }
    }

    /// The bytes of the fields, one field at a time.
    pub proof fn lemma_wire_from(v: PeriodicTriggerValue)
        ensures
            Self::wire_from(v, 0) == <u64 as LLRPValue>::wire(v.offset) + Self::wire_from(v, 1),
            Self::wire_from(v, 1) == <u64 as LLRPValue>::wire(v.period) + Self::wire_from(v, 2),
            Self::wire_from(v, 2) == <Option<UTCTimestamp> as LLRPValue>::wire(v.utc_time)
                + Self::wire_from(v, 3),
            Self::wire_from(v, 3) == Seq::<u8>::empty(),
    {
        reveal(PeriodicTriggerValue::wire_from);
    }

    /// Whether the fields fit the format, each before the fields behind it.
    #[verifier::opaque]
    pub open spec fn fits(v: PeriodicTriggerValue) -> bool {
        &&& <Option<UTCTimestamp> as LLRPValue>::canonical(v.utc_time)
        &&& <Option<UTCTimestamp> as LLRPValue>::follow_ok(v.utc_time, Self::wire_from(v, 3))
    }

    /// The fields read in order, or the first error.
    #[verifier::opaque]
    pub open spec fn read_fields(s: DecoderState) -> Result<
        (PeriodicTriggerValue, DecoderState),
        Error,
    > {
        match <u64 as LLRPValue>::parse(s) {
            Err(e) => Err(e),
            Ok((offset, s)) => match <u64 as LLRPValue>::parse(s) {
                Err(e) => Err(e),
                Ok((period, s)) => match <Option<UTCTimestamp> as LLRPValue>::parse(s) {
                    Err(e) => Err(e),
                    Ok((utc_time, s)) => Ok((PeriodicTriggerValue { offset, period, utc_time }, s)),
                },
            },
        }
    }

    /// The state after the fields have been written in order.
    #[verifier::opaque]
    pub open spec fn write_fields(v: PeriodicTriggerValue, s: EncoderState) -> EncoderState {
        let s = <u64 as LLRPValue>::emit(v.offset, s);
        let s = <u64 as LLRPValue>::emit(v.period, s);
        let s = <Option<UTCTimestamp> as LLRPValue>::emit(v.utc_time, s);
        s
    }
}

impl TlvParameter for PeriodicTriggerValue {
    const ID: u16 = 180;

    open spec fn parse_body(s: DecoderState) -> Result<
        (PeriodicTriggerValue, DecoderState),
        Error,
    > {
        Self::read_fields(s)
    }

    open spec fn emit_body(v: PeriodicTriggerValue, s: EncoderState) -> EncoderState {
        Self::write_fields(v, s)
    }

    open spec fn wire_body(v: PeriodicTriggerValue) -> Seq<u8> {
        Self::wire_from(v, 0)
    }

    open spec fn canonical_body(v: PeriodicTriggerValue) -> bool {
        Self::fits(v)
    }

    proof fn lemma_emit_body(v: PeriodicTriggerValue, s: EncoderState) {
        reveal(PeriodicTriggerValue::write_fields);
        PeriodicTriggerValue::lemma_wire_from(v);
        <u64 as LLRPValue>::lemma_emit(v.offset, s);
        let s1 = s.write_bytes(<u64 as LLRPValue>::wire(v.offset));
        <u64 as LLRPValue>::lemma_emit(v.period, s1);
        let s2 = s1.write_bytes(<u64 as LLRPValue>::wire(v.period));
        <Option<UTCTimestamp> as LLRPValue>::lemma_emit(v.utc_time, s2);
        let s3 = s2.write_bytes(<Option<UTCTimestamp> as LLRPValue>::wire(v.utc_time));
        lemma_concat_empty(s3.bytes);
        lemma_concat_assoc(
            s2.bytes,
            <Option<UTCTimestamp> as LLRPValue>::wire(v.utc_time),
            PeriodicTriggerValue::wire_from(v, 3),
        );
        lemma_concat_assoc(
            s1.bytes,
            <u64 as LLRPValue>::wire(v.period),
            PeriodicTriggerValue::wire_from(v, 2),
        );
        lemma_concat_assoc(
            s.bytes,
            <u64 as LLRPValue>::wire(v.offset),
            PeriodicTriggerValue::wire_from(v, 1),
        );
    }

    proof fn lemma_parse_body(v: PeriodicTriggerValue) {
        reveal(PeriodicTriggerValue::fits);
        reveal(PeriodicTriggerValue::read_fields);
        if Self::canonical_body(v) {
            PeriodicTriggerValue::lemma_wire_from(v);
            assert(<u64 as LLRPValue>::parse(DecoderState::start(Self::wire_from(v, 0))) == Ok::<(u64, DecoderState), Error>((v.offset, DecoderState::start(Self::wire_from(v, 1))))) by {
                <u64 as LLRPValue>::lemma_parse(v.offset, Self::wire_from(v, 1));
            }
            assert(<u64 as LLRPValue>::parse(DecoderState::start(Self::wire_from(v, 1))) == Ok::<(u64, DecoderState), Error>((v.period, DecoderState::start(Self::wire_from(v, 2))))) by {
                <u64 as LLRPValue>::lemma_parse(v.period, Self::wire_from(v, 2));
            }
            assert(<Option<UTCTimestamp> as LLRPValue>::parse(DecoderState::start(Self::wire_from(v, 2))) == Ok::<(Option<UTCTimestamp>, DecoderState), Error>((v.utc_time, DecoderState::start(Self::wire_from(v, 3))))) by {
                <Option<UTCTimestamp> as LLRPValue>::lemma_parse(v.utc_time, Self::wire_from(v, 3));
            }
        }
    }

    fn decode_body(decoder: &mut Decoder) -> (r: Result<Self, Error>) {
        proof {
            reveal(PeriodicTriggerValue::read_fields);
        }
        let offset = decoder.read::<u64>()?;
        let period = decoder.read::<u64>()?;
        let utc_time = decoder.read::<Option<UTCTimestamp>>()?;
        Ok(PeriodicTriggerValue { offset, period, utc_time })
    }

    fn encode_body(&self, encoder: &mut Encoder) {
        proof {
            reveal(PeriodicTriggerValue::write_fields);
        }
        encoder.write(&self.offset);
        encoder.write(&self.period);
        encoder.write(&self.utc_time);
    }
}

/// A trigger that fires on a general purpose input.
#[derive(Debug, PartialEq, Eq)]
pub struct GPITriggerValue {
    pub gpi_port_num: u16,
    pub gpi_event: bool,
    pub timeout: u64,
}

impl DeepView for GPITriggerValue {
    type V = GPITriggerValue;

    open spec fn deep_view(&self) -> GPITriggerValue {
        *self
    }
}

impl GPITriggerValue {
    /// The bytes of the fields from the `k`-th on.
    #[verifier::opaque]
    pub open spec fn wire_from(v: GPITriggerValue, k: nat) -> Seq<u8>
        decreases 3 - k,
    {
        if k == 0 {
            <u16 as LLRPValue>::wire(v.gpi_port_num) + Self::wire_from(v, 1)
        } else if k == 1 {
            seq![flag_byte(v.gpi_event)] + Self::wire_from(v, 2)
        } else if k == 2 {
            <u64 as LLRPValue>::wire(v.timeout) + Self::wire_from(v, 3)
        } else {
            Seq::empty()
        }
    }

    /// The bytes of the fields, one field at a time.
    pub proof fn lemma_wire_from(v: GPITriggerValue)
        ensures
            Self::wire_from(v, 0) == <u16 as LLRPValue>::wire(v.gpi_port_num)
                + Self::wire_from(v, 1),
            Self::wire_from(v, 1) == seq![flag_byte(v.gpi_event)] + Self::wire_from(v, 2),
            Self::wire_from(v, 2) == <u64 as LLRPValue>::wire(v.timeout) + Self::wire_from(v, 3),
            Self::wire_from(v, 3) == Seq::<u8>::empty(),
    {
        reveal(GPITriggerValue::wire_from);
    }

    /// Whether the fields fit the format, each before the fields behind it.
    #[verifier::opaque]
    pub open spec fn fits(v: GPITriggerValue) -> bool {
        true
    }

    /// The fields read in order, or the first error.
    #[verifier::opaque]
    pub open spec fn read_fields(s: DecoderState) -> Result<
        (GPITriggerValue, DecoderState),
        Error,
    > {
        match <u16 as LLRPValue>::parse(s) {
            Err(e) => Err(e),
            Ok((gpi_port_num, s)) => match s.read_bits(1) {
                Err(e) => Err(e),
                Ok((gpi_event, s)) => match s.read_bits(7) {
                    Err(e) => Err(e),
                    Ok((_, s)) => match <u64 as LLRPValue>::parse(s) {
                        Err(e) => Err(e),
                        Ok((timeout, s)) => Ok(
                            (
                                GPITriggerValue {
                                    gpi_port_num,
                                    gpi_event: <bool as Bits>::of_bits(gpi_event as u32),
                                    timeout,
                                },
                                s,
                            ),
                        ),
                    },
                },
            },
        }
    }

    /// The state after the fields have been written in order.
    #[verifier::opaque]
    pub open spec fn write_fields(v: GPITriggerValue, s: EncoderState) -> EncoderState {
        let s = <u16 as LLRPValue>::emit(v.gpi_port_num, s);
        let s = s.write_bits(v.gpi_event.as_bits() as nat, 1);
        let s = s.write_bits(0, 7);
        let s = <u64 as LLRPValue>::emit(v.timeout, s);
        s
    }
}

impl TlvParameter for GPITriggerValue {
    const ID: u16 = 181;

    open spec fn parse_body(s: DecoderState) -> Result<(GPITriggerValue, DecoderState), Error> {
        Self::read_fields(s)
    }

    open spec fn emit_body(v: GPITriggerValue, s: EncoderState) -> EncoderState {
        Self::write_fields(v, s)
    }

    open spec fn wire_body(v: GPITriggerValue) -> Seq<u8> {
        Self::wire_from(v, 0)
    }

    open spec fn canonical_body(v: GPITriggerValue) -> bool {
        Self::fits(v)
    }

    proof fn lemma_emit_body(v: GPITriggerValue, s: EncoderState) {
        reveal(GPITriggerValue::write_fields);
        GPITriggerValue::lemma_wire_from(v);
        <u16 as LLRPValue>::lemma_emit(v.gpi_port_num, s);
        let s1 = s.write_bytes(<u16 as LLRPValue>::wire(v.gpi_port_num));
        lemma_flag_written(s1, v.gpi_event);
        let s2 = s1.write_bytes(seq![flag_byte(v.gpi_event)]);
        <u64 as LLRPValue>::lemma_emit(v.timeout, s2);
        let s3 = s2.write_bytes(<u64 as LLRPValue>::wire(v.timeout));
        lemma_concat_empty(s3.bytes);
        lemma_concat_assoc(
            s2.bytes,
            <u64 as LLRPValue>::wire(v.timeout),
            GPITriggerValue::wire_from(v, 3),
        );
        lemma_concat_assoc(
            s1.bytes,
            seq![flag_byte(v.gpi_event)],
            GPITriggerValue::wire_from(v, 2),
        );
        lemma_concat_assoc(
            s.bytes,
            <u16 as LLRPValue>::wire(v.gpi_port_num),
            GPITriggerValue::wire_from(v, 1),
        );
    }

    proof fn lemma_parse_body(v: GPITriggerValue) {
        reveal(GPITriggerValue::fits);
        reveal(GPITriggerValue::read_fields);
        if Self::canonical_body(v) {
            GPITriggerValue::lemma_wire_from(v);
            assert(<u16 as LLRPValue>::parse(DecoderState::start(Self::wire_from(v, 0))) == Ok::<(u16, DecoderState), Error>((v.gpi_port_num, DecoderState::start(Self::wire_from(v, 1))))) by {
                <u16 as LLRPValue>::lemma_parse(v.gpi_port_num, Self::wire_from(v, 1));
            }
            lemma_flag_front(v.gpi_event, Self::wire_from(v, 2));
            assert(<u64 as LLRPValue>::parse(DecoderState::start(Self::wire_from(v, 2))) == Ok::<(u64, DecoderState), Error>((v.timeout, DecoderState::start(Self::wire_from(v, 3))))) by {
                <u64 as LLRPValue>::lemma_parse(v.timeout, Self::wire_from(v, 3));
            }
        }
    }

    fn decode_body(decoder: &mut Decoder) -> (r: Result<Self, Error>) {
        proof {
            reveal(GPITriggerValue::read_fields);
        }
        let gpi_port_num = decoder.read::<u16>()?;
        let gpi_event = decoder.read_bits::<bool>(1)?;
        decoder.read_raw_bits(7)?;
        let timeout = decoder.read::<u64>()?;
        Ok(GPITriggerValue { gpi_port_num, gpi_event, timeout })
    }

    fn encode_body(&self, encoder: &mut Encoder) {
        proof {
            reveal(GPITriggerValue::write_fields);
        }
        encoder.write(&self.gpi_port_num);
        encoder.write_bits(&self.gpi_event, 1);
        encoder.write_raw_bits(0, 7);
        encoder.write(&self.timeout);
    }
}

/// What stops a reader operation.
#[derive(Debug, PartialEq, Eq)]
pub struct RoSpecStopTrigger {
    pub trigger_type: u8,
    pub duration_trigger_value: u32,
    pub gpi_trigger_value: Option<GPITriggerValue>,
}

impl DeepView for RoSpecStopTrigger {
    type V = RoSpecStopTrigger;

    open spec fn deep_view(&self) -> RoSpecStopTrigger {
        *self
    }
}

impl RoSpecStopTrigger {
    /// The bytes of the fields from the `k`-th on.
    #[verifier::opaque]
    pub open spec fn wire_from(v: RoSpecStopTrigger, k: nat) -> Seq<u8>
        decreases 3 - k,
    {
        if k == 0 {
            <u8 as LLRPValue>::wire(v.trigger_type) + Self::wire_from(v, 1)
        } else if k == 1 {
            <u32 as LLRPValue>::wire(v.duration_trigger_value) + Self::wire_from(v, 2)
        } else if k == 2 {
            <Option<GPITriggerValue> as LLRPValue>::wire(v.gpi_trigger_value)
                + Self::wire_from(v, 3)
        } else {
            Seq::empty()
        }
    }

    /// The bytes of the fields, one field at a time.
    pub proof fn lemma_wire_from(v: RoSpecStopTrigger)
        ensures
            Self::wire_from(v, 0) == <u8 as LLRPValue>::wire(v.trigger_type)
                + Self::wire_from(v, 1),
            Self::wire_from(v, 1) == <u32 as LLRPValue>::wire(v.duration_trigger_value)
                + Self::wire_from(v, 2),
            Self::wire_from(v, 2) == <Option<GPITriggerValue> as LLRPValue>::wire(v.gpi_trigger_value)
                + Self::wire_from(v, 3),
            Self::wire_from(v, 3) == Seq::<u8>::empty(),
    {
        reveal(RoSpecStopTrigger::wire_from);
    }

    /// Whether the fields fit the format, each before the fields behind it.
    #[verifier::opaque]
    pub open spec fn fits(v: RoSpecStopTrigger) -> bool {
        &&& <Option<GPITriggerValue> as LLRPValue>::canonical(v.gpi_trigger_value)
        &&& <Option<GPITriggerValue> as LLRPValue>::follow_ok(
            v.gpi_trigger_value,
            Self::wire_from(v, 3),
        )
    }

    /// The fields read in order, or the first error.
    #[verifier::opaque]
    pub open spec fn read_fields(s: DecoderState) -> Result<
        (RoSpecStopTrigger, DecoderState),
        Error,
    > {
        match <u8 as LLRPValue>::parse(s) {
            Err(e) => Err(e),
            Ok((trigger_type, s)) => match <u32 as LLRPValue>::parse(s) {
                Err(e) => Err(e),
                Ok((duration_trigger_value, s)) => match <Option<GPITriggerValue> as LLRPValue>::parse(s) {
                    Err(e) => Err(e),
                    Ok((gpi_trigger_value, s)) => Ok(
                        (
                            RoSpecStopTrigger {
                                trigger_type,
                                duration_trigger_value,
                                gpi_trigger_value,
                            },
                            s,
                        ),
                    ),
                },
            },
        }
    }

    /// The state after the fields have been written in order.
    #[verifier::opaque]
    pub open spec fn write_fields(v: RoSpecStopTrigger, s: EncoderState) -> EncoderState {
        let s = <u8 as LLRPValue>::emit(v.trigger_type, s);
        let s = <u32 as LLRPValue>::emit(v.duration_trigger_value, s);
        let s = <Option<GPITriggerValue> as LLRPValue>::emit(v.gpi_trigger_value, s);
        s
    }
}

impl TlvParameter for RoSpecStopTrigger {
    const ID: u16 = 182;

    open spec fn parse_body(s: DecoderState) -> Result<(RoSpecStopTrigger, DecoderState), Error> {
        Self::read_fields(s)
    }

    open spec fn emit_body(v: RoSpecStopTrigger, s: EncoderState) -> EncoderState {
        Self::write_fields(v, s)
    }

    open spec fn wire_body(v: RoSpecStopTrigger) -> Seq<u8> {
        Self::wire_from(v, 0)
    }

    open spec fn canonical_body(v: RoSpecStopTrigger) -> bool {
        Self::fits(v)
    }

    proof fn lemma_emit_body(v: RoSpecStopTrigger, s: EncoderState) {
        reveal(RoSpecStopTrigger::write_fields);
        RoSpecStopTrigger::lemma_wire_from(v);
        <u8 as LLRPValue>::lemma_emit(v.trigger_type, s);
        let s1 = s.write_bytes(<u8 as LLRPValue>::wire(v.trigger_type));
        <u32 as LLRPValue>::lemma_emit(v.duration_trigger_value, s1);
        let s2 = s1.write_bytes(<u32 as LLRPValue>::wire(v.duration_trigger_value));
        <Option<GPITriggerValue> as LLRPValue>::lemma_emit(v.gpi_trigger_value, s2);
        let s3 = s2.write_bytes(<Option<GPITriggerValue> as LLRPValue>::wire(v.gpi_trigger_value));
        lemma_concat_empty(s3.bytes);
        lemma_concat_assoc(
            s2.bytes,
            <Option<GPITriggerValue> as LLRPValue>::wire(v.gpi_trigger_value),
            RoSpecStopTrigger::wire_from(v, 3),
        );
        lemma_concat_assoc(
            s1.bytes,
            <u32 as LLRPValue>::wire(v.duration_trigger_value),
            RoSpecStopTrigger::wire_from(v, 2),
        );
        lemma_concat_assoc(
            s.bytes,
            <u8 as LLRPValue>::wire(v.trigger_type),
            RoSpecStopTrigger::wire_from(v, 1),
        );
    }

    proof fn lemma_parse_body(v: RoSpecStopTrigger) {
        reveal(RoSpecStopTrigger::fits);
        reveal(RoSpecStopTrigger::read_fields);
        if Self::canonical_body(v) {
            RoSpecStopTrigger::lemma_wire_from(v);
            assert(<u8 as LLRPValue>::parse(DecoderState::start(Self::wire_from(v, 0))) == Ok::<(u8, DecoderState), Error>((v.trigger_type, DecoderState::start(Self::wire_from(v, 1))))) by {
                <u8 as LLRPValue>::lemma_parse(v.trigger_type, Self::wire_from(v, 1));
            }
            assert(<u32 as LLRPValue>::parse(DecoderState::start(Self::wire_from(v, 1))) == Ok::<(u32, DecoderState), Error>((v.duration_trigger_value, DecoderState::start(Self::wire_from(v, 2))))) by {
                <u32 as LLRPValue>::lemma_parse(v.duration_trigger_value, Self::wire_from(v, 2));
            }
            assert(<Option<GPITriggerValue> as LLRPValue>::parse(DecoderState::start(Self::wire_from(v, 2))) == Ok::<(Option<GPITriggerValue>, DecoderState), Error>((v.gpi_trigger_value, DecoderState::start(Self::wire_from(v, 3))))) by {
                <Option<GPITriggerValue> as LLRPValue>::lemma_parse(
                    v.gpi_trigger_value,
                    Self::wire_from(v, 3),
                );
            }
        }
    }

    fn decode_body(decoder: &mut Decoder) -> (r: Result<Self, Error>) {
        proof {
            reveal(RoSpecStopTrigger::read_fields);
        }
        let trigger_type = decoder.read::<u8>()?;
        let duration_trigger_value = decoder.read::<u32>()?;
        let gpi_trigger_value = decoder.read::<Option<GPITriggerValue>>()?;
        Ok(RoSpecStopTrigger { trigger_type, duration_trigger_value, gpi_trigger_value })
    }

    fn encode_body(&self, encoder: &mut Encoder) {
        proof {
            reveal(RoSpecStopTrigger::write_fields);
        }
        encoder.write(&self.trigger_type);
        encoder.write(&self.duration_trigger_value);
        encoder.write(&self.gpi_trigger_value);
    }
}

/// An antenna inventory: the antennas to use and the inventories to run on
/// them.
#[derive(Debug, PartialEq, Eq)]
pub struct AiSpec {
    pub antenna_ids: Vec<u16>,
    pub stop_trigger: AiSpecStopTrigger,
    pub inventory_specs: Vec<InventorySpec>,
    pub custom: Vec<CustomParameter>,
}

/// The model of a `AiSpec`.
pub struct AiSpecView {
    pub antenna_ids: Seq<u16>,
    pub stop_trigger: AiSpecStopTrigger,
    pub inventory_specs: Seq<InventorySpecView>,
    pub custom: Seq<CustomParameter>,
}

impl DeepView for AiSpec {
    type V = AiSpecView;

    open spec fn deep_view(&self) -> AiSpecView {
        AiSpecView {
            antenna_ids: self.antenna_ids.deep_view(),
            stop_trigger: self.stop_trigger.deep_view(),
            inventory_specs: self.inventory_specs.deep_view(),
            custom: self.custom.deep_view(),
        }
    }
}

impl AiSpec {
    /// The bytes of the fields from the `k`-th on.
    #[verifier::opaque]
    pub open spec fn wire_from(v: AiSpecView, k: nat) -> Seq<u8>
        decreases 4 - k,
    {
        if k == 0 {
            array_wire::<u16>(v.antenna_ids) + Self::wire_from(v, 1)
        } else if k == 1 {
            <AiSpecStopTrigger as LLRPValue>::wire(v.stop_trigger) + Self::wire_from(v, 2)
        } else if k == 2 {
            <Vec<InventorySpec> as LLRPValue>::wire(v.inventory_specs) + Self::wire_from(v, 3)
        } else if k == 3 {
            <Vec<CustomParameter> as LLRPValue>::wire(v.custom) + Self::wire_from(v, 4)
        } else {
            Seq::empty()
        }
    }

    /// The bytes of the fields, one field at a time.
    pub proof fn lemma_wire_from(v: AiSpecView)
        ensures
            Self::wire_from(v, 0) == array_wire::<u16>(v.antenna_ids) + Self::wire_from(v, 1),
            Self::wire_from(v, 1) == <AiSpecStopTrigger as LLRPValue>::wire(v.stop_trigger)
                + Self::wire_from(v, 2),
            Self::wire_from(v, 2) == <Vec<InventorySpec> as LLRPValue>::wire(v.inventory_specs)
                + Self::wire_from(v, 3),
            Self::wire_from(v, 3) == <Vec<CustomParameter> as LLRPValue>::wire(v.custom)
                + Self::wire_from(v, 4),
            Self::wire_from(v, 4) == Seq::<u8>::empty(),
    {
        reveal(AiSpec::wire_from);
    }

    /// Whether the fields fit the format, each before the fields behind it.
    #[verifier::opaque]
    pub open spec fn fits(v: AiSpecView) -> bool {
        &&& array_canonical::<u16>(v.antenna_ids)
        &&& <AiSpecStopTrigger as LLRPValue>::canonical(v.stop_trigger)
        &&& <Vec<InventorySpec> as LLRPValue>::canonical(v.inventory_specs)
        &&& <Vec<InventorySpec> as LLRPValue>::follow_ok(v.inventory_specs, Self::wire_from(v, 3))
        &&& <Vec<CustomParameter> as LLRPValue>::canonical(v.custom)
        &&& <Vec<CustomParameter> as LLRPValue>::follow_ok(v.custom, Self::wire_from(v, 4))
    }

    /// The fields read in order, or the first error.
    #[verifier::opaque]
    pub open spec fn read_fields(s: DecoderState) -> Result<(AiSpecView, DecoderState), Error> {
        match parse_array::<u16>(s) {
            Err(e) => Err(e),
            Ok((antenna_ids, s)) => match <AiSpecStopTrigger as LLRPValue>::parse(s) {
                Err(e) => Err(e),
                Ok((stop_trigger, s)) => match <Vec<InventorySpec> as LLRPValue>::parse(s) {
                    Err(e) => Err(e),
                    Ok((inventory_specs, s)) => match <Vec<CustomParameter> as LLRPValue>::parse(s) {
                        Err(e) => Err(e),
                        Ok((custom, s)) => Ok(
                            (
                                AiSpecView {
                                    antenna_ids,
                                    stop_trigger,
                                    inventory_specs,
                                    custom,
                                },
                                s,
                            ),
                        ),
                    },
                },
            },
        }
    }

    /// The state after the fields have been written in order.
    #[verifier::opaque]
    pub open spec fn write_fields(v: AiSpecView, s: EncoderState) -> EncoderState {
        let s = emit_array::<u16>(v.antenna_ids, s);
        let s = <AiSpecStopTrigger as LLRPValue>::emit(v.stop_trigger, s);
        let s = <Vec<InventorySpec> as LLRPValue>::emit(v.inventory_specs, s);
        let s = <Vec<CustomParameter> as LLRPValue>::emit(v.custom, s);
        s
    }
}

impl TlvParameter for AiSpec {
    const ID: u16 = 183;

    open spec fn parse_body(s: DecoderState) -> Result<(AiSpecView, DecoderState), Error> {
        Self::read_fields(s)
    }

    open spec fn emit_body(v: AiSpecView, s: EncoderState) -> EncoderState {
        Self::write_fields(v, s)
    }

    open spec fn wire_body(v: AiSpecView) -> Seq<u8> {
        Self::wire_from(v, 0)
    }

    open spec fn canonical_body(v: AiSpecView) -> bool {
        Self::fits(v)
    }

    proof fn lemma_emit_body(v: AiSpecView, s: EncoderState) {
        reveal(AiSpec::write_fields);
        AiSpec::lemma_wire_from(v);
        lemma_array_written::<u16>(v.antenna_ids, s);
        let s1 = s.write_bytes(array_wire::<u16>(v.antenna_ids));
        <AiSpecStopTrigger as LLRPValue>::lemma_emit(v.stop_trigger, s1);
        let s2 = s1.write_bytes(<AiSpecStopTrigger as LLRPValue>::wire(v.stop_trigger));
        <Vec<InventorySpec> as LLRPValue>::lemma_emit(v.inventory_specs, s2);
        let s3 = s2.write_bytes(<Vec<InventorySpec> as LLRPValue>::wire(v.inventory_specs));
        <Vec<CustomParameter> as LLRPValue>::lemma_emit(v.custom, s3);
        let s4 = s3.write_bytes(<Vec<CustomParameter> as LLRPValue>::wire(v.custom));
        lemma_concat_empty(s4.bytes);
        lemma_concat_assoc(
            s3.bytes,
            <Vec<CustomParameter> as LLRPValue>::wire(v.custom),
            AiSpec::wire_from(v, 4),
        );
        lemma_concat_assoc(
            s2.bytes,
            <Vec<InventorySpec> as LLRPValue>::wire(v.inventory_specs),
            AiSpec::wire_from(v, 3),
        );
        lemma_concat_assoc(
            s1.bytes,
            <AiSpecStopTrigger as LLRPValue>::wire(v.stop_trigger),
            AiSpec::wire_from(v, 2),
        );
        lemma_concat_assoc(s.bytes, array_wire::<u16>(v.antenna_ids), AiSpec::wire_from(v, 1));
    }

    proof fn lemma_parse_body(v: AiSpecView) {
        reveal(AiSpec::fits);
        reveal(AiSpec::read_fields);
        if Self::canonical_body(v) {
            AiSpec::lemma_wire_from(v);
            assert(parse_array::<u16>(DecoderState::start(Self::wire_from(v, 0))) == Ok::<(Seq<u16>, DecoderState), Error>((v.antenna_ids, DecoderState::start(Self::wire_from(v, 1))))) by {
                lemma_array_front::<u16>(v.antenna_ids, Self::wire_from(v, 1));
            }
            assert(<AiSpecStopTrigger as LLRPValue>::parse(DecoderState::start(Self::wire_from(v, 1))) == Ok::<(AiSpecStopTrigger, DecoderState), Error>((v.stop_trigger, DecoderState::start(Self::wire_from(v, 2))))) by {
                <AiSpecStopTrigger as LLRPValue>::lemma_parse(
                    v.stop_trigger,
                    Self::wire_from(v, 2),
                );
            }
            assert(<Vec<InventorySpec> as LLRPValue>::parse(DecoderState::start(Self::wire_from(v, 2))) == Ok::<(Seq<InventorySpecView>, DecoderState), Error>((v.inventory_specs, DecoderState::start(Self::wire_from(v, 3))))) by {
                <Vec<InventorySpec> as LLRPValue>::lemma_parse(
                    v.inventory_specs,
                    Self::wire_from(v, 3),
                );
            }
            assert(<Vec<CustomParameter> as LLRPValue>::parse(DecoderState::start(Self::wire_from(v, 3))) == Ok::<(Seq<CustomParameter>, DecoderState), Error>((v.custom, DecoderState::start(Self::wire_from(v, 4))))) by {
                <Vec<CustomParameter> as LLRPValue>::lemma_parse(v.custom, Self::wire_from(v, 4));
            }
        }
    }

    fn decode_body(decoder: &mut Decoder) -> (r: Result<Self, Error>) {
        proof {
            reveal(AiSpec::read_fields);
        }
        let read_antenna_ids = |d: &mut Decoder| -> (r: Result<u16, Error>)
            ensures
                decoded::<u16>(<u16 as LLRPValue>::parse(old(d)@), r, final(d)@),
            {
                d.read::<u16>()
            };
        let ghost antenna_ids_reader = read_antenna_ids;
        let ghost antenna_ids_start = decoder@;
        let antenna_ids = decoder.array(read_antenna_ids);
        proof {
            lemma_array_decoded::<u16, _>(
                antenna_ids_reader,
                antenna_ids_start,
                antenna_ids,
                decoder@,
            );
        }
        let antenna_ids = antenna_ids?;
        let stop_trigger = decoder.read::<AiSpecStopTrigger>()?;
        let inventory_specs = decoder.read::<Vec<InventorySpec>>()?;
        let custom = decoder.read::<Vec<CustomParameter>>()?;
        Ok(AiSpec { antenna_ids, stop_trigger, inventory_specs, custom })
    }

    fn encode_body(&self, encoder: &mut Encoder) {
        proof {
            reveal(AiSpec::write_fields);
        }
        let write_antenna_ids = |e: &mut Encoder, x: &u16|
            ensures
                final(e)@ == <u16 as LLRPValue>::emit(x.deep_view(), old(e)@),
            {
                e.write(x)
            };
        let ghost antenna_ids_writer = write_antenna_ids;
        let ghost antenna_ids_start = encoder@;
        encoder.array(self.antenna_ids.as_slice(), write_antenna_ids);
        proof {
            lemma_array_encoded::<u16, _>(
                antenna_ids_writer,
                antenna_ids_start,
                self.antenna_ids@,
                encoder@,
            );
        }
        encoder.write(&self.stop_trigger);
        encoder.write(&self.inventory_specs);
        encoder.write(&self.custom);
    }
}

/// What stops an antenna inventory.
#[derive(Debug, PartialEq, Eq)]
pub struct AiSpecStopTrigger {
    pub trigger_type: u8,
    pub duration_trigger_value: u32,
    pub gpi_trigger_value: Option<GPITriggerValue>,
    pub tag_observation_trigger_value: Option<TagObservationTriggerValue>,
}

impl DeepView for AiSpecStopTrigger {
    type V = AiSpecStopTrigger;

    open spec fn deep_view(&self) -> AiSpecStopTrigger {
        *self
    }
}

impl AiSpecStopTrigger {
    /// The bytes of the fields from the `k`-th on.
    #[verifier::opaque]
    pub open spec fn wire_from(v: AiSpecStopTrigger, k: nat) -> Seq<u8>
        decreases 4 - k,
    {
        if k == 0 {
            <u8 as LLRPValue>::wire(v.trigger_type) + Self::wire_from(v, 1)
        } else if k == 1 {
            <u32 as LLRPValue>::wire(v.duration_trigger_value) + Self::wire_from(v, 2)
        } else if k == 2 {
            <Option<GPITriggerValue> as LLRPValue>::wire(v.gpi_trigger_value)
                + Self::wire_from(v, 3)
        } else if k == 3 {
            <Option<TagObservationTriggerValue> as LLRPValue>::wire(v.tag_observation_trigger_value)
                + Self::wire_from(v, 4)
        } else {
            Seq::empty()
        }
    }

    /// The bytes of the fields, one field at a time.
    pub proof fn lemma_wire_from(v: AiSpecStopTrigger)
        ensures
            Self::wire_from(v, 0) == <u8 as LLRPValue>::wire(v.trigger_type)
                + Self::wire_from(v, 1),
            Self::wire_from(v, 1) == <u32 as LLRPValue>::wire(v.duration_trigger_value)
                + Self::wire_from(v, 2),
            Self::wire_from(v, 2) == <Option<GPITriggerValue> as LLRPValue>::wire(v.gpi_trigger_value)
                + Self::wire_from(v, 3),
            Self::wire_from(v, 3) == <Option<TagObservationTriggerValue> as LLRPValue>::wire(v.tag_observation_trigger_value)
                + Self::wire_from(v, 4),
            Self::wire_from(v, 4) == Seq::<u8>::empty(),
    {
        reveal(AiSpecStopTrigger::wire_from);
    }

    /// Whether the fields fit the format, each before the fields behind it.
    #[verifier::opaque]
    pub open spec fn fits(v: AiSpecStopTrigger) -> bool {
        &&& <Option<GPITriggerValue> as LLRPValue>::canonical(v.gpi_trigger_value)
        &&& <Option<GPITriggerValue> as LLRPValue>::follow_ok(
            v.gpi_trigger_value,
            Self::wire_from(v, 3),
        )
        &&& <Option<TagObservationTriggerValue> as LLRPValue>::canonical(
            v.tag_observation_trigger_value,
        )
        &&& <Option<TagObservationTriggerValue> as LLRPValue>::follow_ok(
            v.tag_observation_trigger_value,
            Self::wire_from(v, 4),
        )
    }

    /// The fields read in order, or the first error.
    #[verifier::opaque]
    pub open spec fn read_fields(s: DecoderState) -> Result<
        (AiSpecStopTrigger, DecoderState),
        Error,
    > {
        match <u8 as LLRPValue>::parse(s) {
            Err(e) => Err(e),
            Ok((trigger_type, s)) => match <u32 as LLRPValue>::parse(s) {
                Err(e) => Err(e),
                Ok((duration_trigger_value, s)) => match <Option<GPITriggerValue> as LLRPValue>::parse(s) {
                    Err(e) => Err(e),
                    Ok((gpi_trigger_value, s)) => match <Option<TagObservationTriggerValue> as LLRPValue>::parse(s) {
                        Err(e) => Err(e),
                        Ok((tag_observation_trigger_value, s)) => Ok(
                            (
                                AiSpecStopTrigger {
                                    trigger_type,
                                    duration_trigger_value,
                                    gpi_trigger_value,
                                    tag_observation_trigger_value,
                                },
                                s,
                            ),
                        ),
                    },
                },
            },
        }
    }

    /// The state after the fields have been written in order.
    #[verifier::opaque]
    pub open spec fn write_fields(v: AiSpecStopTrigger, s: EncoderState) -> EncoderState {
        let s = <u8 as LLRPValue>::emit(v.trigger_type, s);
        let s = <u32 as LLRPValue>::emit(v.duration_trigger_value, s);
        let s = <Option<GPITriggerValue> as LLRPValue>::emit(v.gpi_trigger_value, s);
        let s = <Option<TagObservationTriggerValue> as LLRPValue>::emit(
            v.tag_observation_trigger_value,
            s,
        );
        s
    }
}

impl TlvParameter for AiSpecStopTrigger {
    const ID: u16 = 184;

    open spec fn parse_body(s: DecoderState) -> Result<(AiSpecStopTrigger, DecoderState), Error> {
        Self::read_fields(s)
    }

    open spec fn emit_body(v: AiSpecStopTrigger, s: EncoderState) -> EncoderState {
        Self::write_fields(v, s)
    }

    open spec fn wire_body(v: AiSpecStopTrigger) -> Seq<u8> {
        Self::wire_from(v, 0)
    }

    open spec fn canonical_body(v: AiSpecStopTrigger) -> bool {
        Self::fits(v)
    }

    proof fn lemma_emit_body(v: AiSpecStopTrigger, s: EncoderState) {
        reveal(AiSpecStopTrigger::write_fields);
        AiSpecStopTrigger::lemma_wire_from(v);
        <u8 as LLRPValue>::lemma_emit(v.trigger_type, s);
        let s1 = s.write_bytes(<u8 as LLRPValue>::wire(v.trigger_type));
        <u32 as LLRPValue>::lemma_emit(v.duration_trigger_value, s1);
        let s2 = s1.write_bytes(<u32 as LLRPValue>::wire(v.duration_trigger_value));
        <Option<GPITriggerValue> as LLRPValue>::lemma_emit(v.gpi_trigger_value, s2);
        let s3 = s2.write_bytes(<Option<GPITriggerValue> as LLRPValue>::wire(v.gpi_trigger_value));
        <Option<TagObservationTriggerValue> as LLRPValue>::lemma_emit(
            v.tag_observation_trigger_value,
            s3,
        );
        let s4 = s3.write_bytes(<Option<TagObservationTriggerValue> as LLRPValue>::wire(v.tag_observation_trigger_value));
        lemma_concat_empty(s4.bytes);
        lemma_concat_assoc(s3.bytes, <Option<TagObservationTriggerValue> as LLRPValue>::wire(v.tag_observation_trigger_value), AiSpecStopTrigger::wire_from(v, 4));
        lemma_concat_assoc(
            s2.bytes,
            <Option<GPITriggerValue> as LLRPValue>::wire(v.gpi_trigger_value),
            AiSpecStopTrigger::wire_from(v, 3),
        );
        lemma_concat_assoc(
            s1.bytes,
            <u32 as LLRPValue>::wire(v.duration_trigger_value),
            AiSpecStopTrigger::wire_from(v, 2),
        );
        lemma_concat_assoc(
            s.bytes,
            <u8 as LLRPValue>::wire(v.trigger_type),
            AiSpecStopTrigger::wire_from(v, 1),
        );
    }

    proof fn lemma_parse_body(v: AiSpecStopTrigger) {
        reveal(AiSpecStopTrigger::fits);
        reveal(AiSpecStopTrigger::read_fields);
        if Self::canonical_body(v) {
            AiSpecStopTrigger::lemma_wire_from(v);
            assert(<u8 as LLRPValue>::parse(DecoderState::start(Self::wire_from(v, 0))) == Ok::<(u8, DecoderState), Error>((v.trigger_type, DecoderState::start(Self::wire_from(v, 1))))) by {
                <u8 as LLRPValue>::lemma_parse(v.trigger_type, Self::wire_from(v, 1));
            }
            assert(<u32 as LLRPValue>::parse(DecoderState::start(Self::wire_from(v, 1))) == Ok::<(u32, DecoderState), Error>((v.duration_trigger_value, DecoderState::start(Self::wire_from(v, 2))))) by {
                <u32 as LLRPValue>::lemma_parse(v.duration_trigger_value, Self::wire_from(v, 2));
            }
            assert(<Option<GPITriggerValue> as LLRPValue>::parse(DecoderState::start(Self::wire_from(v, 2))) == Ok::<(Option<GPITriggerValue>, DecoderState), Error>((v.gpi_trigger_value, DecoderState::start(Self::wire_from(v, 3))))) by {
                <Option<GPITriggerValue> as LLRPValue>::lemma_parse(
                    v.gpi_trigger_value,
                    Self::wire_from(v, 3),
                );
            }
            assert(<Option<TagObservationTriggerValue> as LLRPValue>::parse(DecoderState::start(Self::wire_from(v, 3))) == Ok::<(Option<TagObservationTriggerValue>, DecoderState), Error>((v.tag_observation_trigger_value, DecoderState::start(Self::wire_from(v, 4))))) by {
                <Option<TagObservationTriggerValue> as LLRPValue>::lemma_parse(
                    v.tag_observation_trigger_value,
                    Self::wire_from(v, 4),
                );
            }
        }
    }

    fn decode_body(decoder: &mut Decoder) -> (r: Result<Self, Error>) {
        proof {
            reveal(AiSpecStopTrigger::read_fields);
        }
        let trigger_type = decoder.read::<u8>()?;
        let duration_trigger_value = decoder.read::<u32>()?;
        let gpi_trigger_value = decoder.read::<Option<GPITriggerValue>>()?;
        let tag_observation_trigger_value = decoder.read::<Option<TagObservationTriggerValue>>()?;
        Ok(AiSpecStopTrigger { trigger_type, duration_trigger_value, gpi_trigger_value, tag_observation_trigger_value })
    }

    fn encode_body(&self, encoder: &mut Encoder) {
        proof {
            reveal(AiSpecStopTrigger::write_fields);
        }
        encoder.write(&self.trigger_type);
        encoder.write(&self.duration_trigger_value);
        encoder.write(&self.gpi_trigger_value);
        encoder.write(&self.tag_observation_trigger_value);
    }
}

/// A trigger that fires on what has been seen of tags.
#[derive(Debug, PartialEq, Eq)]
pub struct TagObservationTriggerValue {
    pub trigger_type: u8,
    pub _reserved: u8,
    pub number_of_tags: u16,
    pub number_of_attempts: u16,
    pub t: u16,
    pub timeout: u64,
}

impl DeepView for TagObservationTriggerValue {
    type V = TagObservationTriggerValue;

    open spec fn deep_view(&self) -> TagObservationTriggerValue {
        *self
    }
}

impl TagObservationTriggerValue {
    /// The bytes of the fields from the `k`-th on.
    #[verifier::opaque]
    pub open spec fn wire_from(v: TagObservationTriggerValue, k: nat) -> Seq<u8>
        decreases 6 - k,
    {
        if k == 0 {
            <u8 as LLRPValue>::wire(v.trigger_type) + Self::wire_from(v, 1)
        } else if k == 1 {
            <u8 as LLRPValue>::wire(v._reserved) + Self::wire_from(v, 2)
        } else if k == 2 {
            <u16 as LLRPValue>::wire(v.number_of_tags) + Self::wire_from(v, 3)
        } else if k == 3 {
            <u16 as LLRPValue>::wire(v.number_of_attempts) + Self::wire_from(v, 4)
        } else if k == 4 {
            <u16 as LLRPValue>::wire(v.t) + Self::wire_from(v, 5)
        } else if k == 5 {
            <u64 as LLRPValue>::wire(v.timeout) + Self::wire_from(v, 6)
        } else {
            Seq::empty()
        }
    }

    /// The bytes of the fields, one field at a time.
    pub proof fn lemma_wire_from(v: TagObservationTriggerValue)
        ensures
            Self::wire_from(v, 0) == <u8 as LLRPValue>::wire(v.trigger_type)
                + Self::wire_from(v, 1),
            Self::wire_from(v, 1) == <u8 as LLRPValue>::wire(v._reserved) + Self::wire_from(v, 2),
            Self::wire_from(v, 2) == <u16 as LLRPValue>::wire(v.number_of_tags)
                + Self::wire_from(v, 3),
            Self::wire_from(v, 3) == <u16 as LLRPValue>::wire(v.number_of_attempts)
                + Self::wire_from(v, 4),
            Self::wire_from(v, 4) == <u16 as LLRPValue>::wire(v.t) + Self::wire_from(v, 5),
            Self::wire_from(v, 5) == <u64 as LLRPValue>::wire(v.timeout) + Self::wire_from(v, 6),
            Self::wire_from(v, 6) == Seq::<u8>::empty(),
    {
        reveal(TagObservationTriggerValue::wire_from);
    }

    /// Whether the fields fit the format, each before the fields behind it.
    #[verifier::opaque]
    pub open spec fn fits(v: TagObservationTriggerValue) -> bool {
        true
    }

    /// The first fields read in order, or the first error.
    #[verifier::opaque]
    pub open spec fn read_front(s: DecoderState) -> Result<((u8, u8, u16), DecoderState), Error> {
        match <u8 as LLRPValue>::parse(s) {
            Err(e) => Err(e),
            Ok((trigger_type, s)) => match <u8 as LLRPValue>::parse(s) {
                Err(e) => Err(e),
                Ok((_reserved, s)) => match <u16 as LLRPValue>::parse(s) {
                    Err(e) => Err(e),
                    Ok((number_of_tags, s)) => Ok(((trigger_type, _reserved, number_of_tags), s)),
                },
            },
        }
    }

    /// The other fields read in order behind the first, or the first error.
    #[verifier::opaque]
    pub open spec fn read_back(front: (u8, u8, u16), s: DecoderState) -> Result<
        (TagObservationTriggerValue, DecoderState),
        Error,
    > {
        match <u16 as LLRPValue>::parse(s) {
            Err(e) => Err(e),
            Ok((number_of_attempts, s)) => match <u16 as LLRPValue>::parse(s) {
                Err(e) => Err(e),
                Ok((t, s)) => match <u64 as LLRPValue>::parse(s) {
                    Err(e) => Err(e),
                    Ok((timeout, s)) => Ok((TagObservationTriggerValue { trigger_type: front.0, _reserved: front.1, number_of_tags: front.2, number_of_attempts, t, timeout }, s)),
                },
            },
        }
    }

    /// The fields read in order, or the first error.
    #[verifier::opaque]
    pub open spec fn read_fields(s: DecoderState) -> Result<
        (TagObservationTriggerValue, DecoderState),
        Error,
    > {
        match Self::read_front(s) {
            Err(e) => Err(e),
            Ok((front, s)) => Self::read_back(front, s),
        }
    }

    /// The state after the fields have been written in order.
    #[verifier::opaque]
    pub open spec fn write_fields(v: TagObservationTriggerValue, s: EncoderState) -> EncoderState {
        let s = <u8 as LLRPValue>::emit(v.trigger_type, s);
        let s = <u8 as LLRPValue>::emit(v._reserved, s);
        let s = <u16 as LLRPValue>::emit(v.number_of_tags, s);
        let s = <u16 as LLRPValue>::emit(v.number_of_attempts, s);
        let s = <u16 as LLRPValue>::emit(v.t, s);
        let s = <u64 as LLRPValue>::emit(v.timeout, s);
        s
    }

    fn decode_front(decoder: &mut Decoder) -> (r: Result<(u8, u8, u16), Error>)
        ensures
            match Self::read_front(old(decoder)@) {
                Ok((front, s)) => {
                    &&& r is Ok
                    &&& r->Ok_0.0 == front.0
                    &&& r->Ok_0.1 == front.1
                    &&& r->Ok_0.2 == front.2
                    &&& final(decoder)@ == s
                },
                Err(e) => r == Err::<(u8, u8, u16), Error>(e),
            },
    {
        proof {
            reveal(TagObservationTriggerValue::read_front);
        }
        let trigger_type = decoder.read::<u8>()?;
        let _reserved = decoder.read::<u8>()?;
        let number_of_tags = decoder.read::<u16>()?;
        Ok((trigger_type, _reserved, number_of_tags))
    }

    fn decode_back(front: (u8, u8, u16), decoder: &mut Decoder) -> (r: Result<TagObservationTriggerValue, Error>)
        ensures
            decoded::<TagObservationTriggerValue>(
                Self::read_back((front.0, front.1, front.2), old(decoder)@),
                r,
                final(decoder)@,
            ),
    {
        proof {
            reveal(TagObservationTriggerValue::read_back);
        }
        let number_of_attempts = decoder.read::<u16>()?;
        let t = decoder.read::<u16>()?;
        let timeout = decoder.read::<u64>()?;
        Ok(TagObservationTriggerValue { trigger_type: front.0, _reserved: front.1, number_of_tags: front.2, number_of_attempts, t, timeout })
    }

    /// The first fields are read back from the bytes of all.
    pub proof fn lemma_parse_front(v: TagObservationTriggerValue)
        ensures
            Self::fits(v) ==> Self::read_front(DecoderState::start(Self::wire_from(v, 0))) == Ok::<
                ((u8, u8, u16), DecoderState),
                Error,
            >(((v.trigger_type, v._reserved, v.number_of_tags), DecoderState::start(Self::wire_from(v, 3)))),
    {
        reveal(TagObservationTriggerValue::fits);
        reveal(TagObservationTriggerValue::read_front);
        if Self::fits(v) {
            TagObservationTriggerValue::lemma_wire_from(v);
            assert(<u8 as LLRPValue>::parse(DecoderState::start(Self::wire_from(v, 0))) == Ok::<(u8, DecoderState), Error>((v.trigger_type, DecoderState::start(Self::wire_from(v, 1))))) by {
                <u8 as LLRPValue>::lemma_parse(v.trigger_type, Self::wire_from(v, 1));
            }
            assert(<u8 as LLRPValue>::parse(DecoderState::start(Self::wire_from(v, 1))) == Ok::<(u8, DecoderState), Error>((v._reserved, DecoderState::start(Self::wire_from(v, 2))))) by {
                <u8 as LLRPValue>::lemma_parse(v._reserved, Self::wire_from(v, 2));
            }
            assert(<u16 as LLRPValue>::parse(DecoderState::start(Self::wire_from(v, 2))) == Ok::<(u16, DecoderState), Error>((v.number_of_tags, DecoderState::start(Self::wire_from(v, 3))))) by {
                <u16 as LLRPValue>::lemma_parse(v.number_of_tags, Self::wire_from(v, 3));
            }
        }
    }

    /// The other fields are read back from the bytes behind the first.
    pub proof fn lemma_parse_back(v: TagObservationTriggerValue)
        ensures
            Self::fits(
                v) ==> Self::read_back((v.trigger_type,
                v._reserved,
                v.number_of_tags), DecoderState::start(Self::wire_from(v, 3)),
            )
                == Ok::<(
                    TagObservationTriggerValue,
                    DecoderState), Error>((v,
                    DecoderState::start(Seq::empty())),
                ),
    {
        reveal(TagObservationTriggerValue::fits);
        reveal(TagObservationTriggerValue::read_back);
        if Self::fits(v) {
            TagObservationTriggerValue::lemma_wire_from(v);
            assert(<u16 as LLRPValue>::parse(DecoderState::start(Self::wire_from(v, 3))) == Ok::<(u16, DecoderState), Error>((v.number_of_attempts, DecoderState::start(Self::wire_from(v, 4))))) by {
                <u16 as LLRPValue>::lemma_parse(v.number_of_attempts, Self::wire_from(v, 4));
            }
            assert(<u16 as LLRPValue>::parse(DecoderState::start(Self::wire_from(v, 4))) == Ok::<(u16, DecoderState), Error>((v.t, DecoderState::start(Self::wire_from(v, 5))))) by {
                <u16 as LLRPValue>::lemma_parse(v.t, Self::wire_from(v, 5));
            }
            assert(<u64 as LLRPValue>::parse(DecoderState::start(Self::wire_from(v, 5))) == Ok::<(u64, DecoderState), Error>((v.timeout, DecoderState::start(Self::wire_from(v, 6))))) by {
                <u64 as LLRPValue>::lemma_parse(v.timeout, Self::wire_from(v, 6));
            }
        }
    }
}

impl TlvParameter for TagObservationTriggerValue {
    const ID: u16 = 185;

    open spec fn parse_body(s: DecoderState) -> Result<
        (TagObservationTriggerValue, DecoderState),
        Error,
    > {
        Self::read_fields(s)
    }

    open spec fn emit_body(v: TagObservationTriggerValue, s: EncoderState) -> EncoderState {
        Self::write_fields(v, s)
    }

    open spec fn wire_body(v: TagObservationTriggerValue) -> Seq<u8> {
        Self::wire_from(v, 0)
    }

    open spec fn canonical_body(v: TagObservationTriggerValue) -> bool {
        Self::fits(v)
    }

    proof fn lemma_emit_body(v: TagObservationTriggerValue, s: EncoderState) {
        reveal(TagObservationTriggerValue::write_fields);
        TagObservationTriggerValue::lemma_wire_from(v);
        <u8 as LLRPValue>::lemma_emit(v.trigger_type, s);
        let s1 = s.write_bytes(<u8 as LLRPValue>::wire(v.trigger_type));
        <u8 as LLRPValue>::lemma_emit(v._reserved, s1);
        let s2 = s1.write_bytes(<u8 as LLRPValue>::wire(v._reserved));
        <u16 as LLRPValue>::lemma_emit(v.number_of_tags, s2);
        let s3 = s2.write_bytes(<u16 as LLRPValue>::wire(v.number_of_tags));
        <u16 as LLRPValue>::lemma_emit(v.number_of_attempts, s3);
        let s4 = s3.write_bytes(<u16 as LLRPValue>::wire(v.number_of_attempts));
        <u16 as LLRPValue>::lemma_emit(v.t, s4);
        let s5 = s4.write_bytes(<u16 as LLRPValue>::wire(v.t));
        <u64 as LLRPValue>::lemma_emit(v.timeout, s5);
        let s6 = s5.write_bytes(<u64 as LLRPValue>::wire(v.timeout));
        lemma_concat_empty(s6.bytes);
        lemma_concat_assoc(
            s5.bytes,
            <u64 as LLRPValue>::wire(v.timeout),
            TagObservationTriggerValue::wire_from(v, 6),
        );
        lemma_concat_assoc(
            s4.bytes,
            <u16 as LLRPValue>::wire(v.t),
            TagObservationTriggerValue::wire_from(v, 5),
        );
        lemma_concat_assoc(
            s3.bytes,
            <u16 as LLRPValue>::wire(v.number_of_attempts),
            TagObservationTriggerValue::wire_from(v, 4),
        );
        lemma_concat_assoc(
            s2.bytes,
            <u16 as LLRPValue>::wire(v.number_of_tags),
            TagObservationTriggerValue::wire_from(v, 3),
        );
        lemma_concat_assoc(
            s1.bytes,
            <u8 as LLRPValue>::wire(v._reserved),
            TagObservationTriggerValue::wire_from(v, 2),
        );
        lemma_concat_assoc(
            s.bytes,
            <u8 as LLRPValue>::wire(v.trigger_type),
            TagObservationTriggerValue::wire_from(v, 1),
        );
    }

    proof fn lemma_parse_body(v: TagObservationTriggerValue) {
        TagObservationTriggerValue::lemma_parse_front(v);
        TagObservationTriggerValue::lemma_parse_back(v);
        reveal(TagObservationTriggerValue::read_fields);
    }

    fn decode_body(decoder: &mut Decoder) -> (r: Result<Self, Error>) {
        proof {
            reveal(TagObservationTriggerValue::read_fields);
        }
        let front = Self::decode_front(decoder)?;
        Self::decode_back(front, decoder)
    }

    fn encode_body(&self, encoder: &mut Encoder) {
        proof {
            reveal(TagObservationTriggerValue::write_fields);
        }
        encoder.write(&self.trigger_type);
        encoder.write(&self._reserved);
        encoder.write(&self.number_of_tags);
        encoder.write(&self.number_of_attempts);
        encoder.write(&self.t);
        encoder.write(&self.timeout);
    }
}

/// One inventory: an air protocol and the antenna settings to run it with.
#[derive(Debug, PartialEq, Eq)]
pub struct InventorySpec {
    pub spec_id: u16,
    pub protocol_id: u8,
    pub antenna_configuration: Vec<AntennaConfiguration>,
    pub custom: Vec<CustomParameter>,
}

/// The model of a `InventorySpec`.
pub struct InventorySpecView {
    pub spec_id: u16,
    pub protocol_id: u8,
    pub antenna_configuration: Seq<AntennaConfigurationView>,
    pub custom: Seq<CustomParameter>,
}

impl DeepView for InventorySpec {
    type V = InventorySpecView;

    open spec fn deep_view(&self) -> InventorySpecView {
        InventorySpecView {
            spec_id: self.spec_id,
            protocol_id: self.protocol_id,
            antenna_configuration: self.antenna_configuration.deep_view(),
            custom: self.custom.deep_view(),
        }
    }
}

impl InventorySpec {
    /// The bytes of the fields from the `k`-th on.
    #[verifier::opaque]
    pub open spec fn wire_from(v: InventorySpecView, k: nat) -> Seq<u8>
        decreases 4 - k,
    {
        if k == 0 {
            <u16 as LLRPValue>::wire(v.spec_id) + Self::wire_from(v, 1)
        } else if k == 1 {
            <u8 as LLRPValue>::wire(v.protocol_id) + Self::wire_from(v, 2)
        } else if k == 2 {
            <Vec<AntennaConfiguration> as LLRPValue>::wire(v.antenna_configuration)
                + Self::wire_from(v, 3)
        } else if k == 3 {
            <Vec<CustomParameter> as LLRPValue>::wire(v.custom) + Self::wire_from(v, 4)
        } else {
            Seq::empty()
        }
    }

    /// The bytes of the fields, one field at a time.
    pub proof fn lemma_wire_from(v: InventorySpecView)
        ensures
            Self::wire_from(v, 0) == <u16 as LLRPValue>::wire(v.spec_id) + Self::wire_from(v, 1),
            Self::wire_from(v, 1) == <u8 as LLRPValue>::wire(v.protocol_id) + Self::wire_from(v, 2),
            Self::wire_from(v, 2) == <Vec<AntennaConfiguration> as LLRPValue>::wire(v.antenna_configuration)
                + Self::wire_from(v, 3),
            Self::wire_from(v, 3) == <Vec<CustomParameter> as LLRPValue>::wire(v.custom)
                + Self::wire_from(v, 4),
            Self::wire_from(v, 4) == Seq::<u8>::empty(),
    {
        reveal(InventorySpec::wire_from);
    }

    /// Whether the fields fit the format, each before the fields behind it.
    #[verifier::opaque]
    pub open spec fn fits(v: InventorySpecView) -> bool {
        &&& <Vec<AntennaConfiguration> as LLRPValue>::canonical(v.antenna_configuration)
        &&& <Vec<AntennaConfiguration> as LLRPValue>::follow_ok(
            v.antenna_configuration,
            Self::wire_from(v, 3),
        )
        &&& <Vec<CustomParameter> as LLRPValue>::canonical(v.custom)
        &&& <Vec<CustomParameter> as LLRPValue>::follow_ok(v.custom, Self::wire_from(v, 4))
    }

    /// The fields read in order, or the first error.
    #[verifier::opaque]
    pub open spec fn read_fields(s: DecoderState) -> Result<
        (InventorySpecView, DecoderState),
        Error,
    > {
        match <u16 as LLRPValue>::parse(s) {
            Err(e) => Err(e),
            Ok((spec_id, s)) => match <u8 as LLRPValue>::parse(s) {
                Err(e) => Err(e),
                Ok((protocol_id, s)) => match <Vec<AntennaConfiguration> as LLRPValue>::parse(s) {
                    Err(e) => Err(e),
                    Ok((antenna_configuration, s)) => match <Vec<CustomParameter> as LLRPValue>::parse(s) {
                        Err(e) => Err(e),
                        Ok((custom, s)) => Ok(
                            (
                                InventorySpecView {
                                    spec_id,
                                    protocol_id,
                                    antenna_configuration,
                                    custom,
                                },
                                s,
                            ),
                        ),
                    },
                },
            },
        }
    }

    /// The state after the fields have been written in order.
    #[verifier::opaque]
    pub open spec fn write_fields(v: InventorySpecView, s: EncoderState) -> EncoderState {
        let s = <u16 as LLRPValue>::emit(v.spec_id, s);
        let s = <u8 as LLRPValue>::emit(v.protocol_id, s);
        let s = <Vec<AntennaConfiguration> as LLRPValue>::emit(v.antenna_configuration, s);
        let s = <Vec<CustomParameter> as LLRPValue>::emit(v.custom, s);
        s
    }
}

impl TlvParameter for InventorySpec {
    const ID: u16 = 186;

    open spec fn parse_body(s: DecoderState) -> Result<(InventorySpecView, DecoderState), Error> {
        Self::read_fields(s)
    }

    open spec fn emit_body(v: InventorySpecView, s: EncoderState) -> EncoderState {
        Self::write_fields(v, s)
    }

    open spec fn wire_body(v: InventorySpecView) -> Seq<u8> {
        Self::wire_from(v, 0)
    }

    open spec fn canonical_body(v: InventorySpecView) -> bool {
        Self::fits(v)
    }

    proof fn lemma_emit_body(v: InventorySpecView, s: EncoderState) {
        reveal(InventorySpec::write_fields);
        InventorySpec::lemma_wire_from(v);
        <u16 as LLRPValue>::lemma_emit(v.spec_id, s);
        let s1 = s.write_bytes(<u16 as LLRPValue>::wire(v.spec_id));
        <u8 as LLRPValue>::lemma_emit(v.protocol_id, s1);
        let s2 = s1.write_bytes(<u8 as LLRPValue>::wire(v.protocol_id));
        <Vec<AntennaConfiguration> as LLRPValue>::lemma_emit(v.antenna_configuration, s2);
        let s3 = s2.write_bytes(
            <Vec<AntennaConfiguration> as LLRPValue>::wire(v.antenna_configuration),
        );
        <Vec<CustomParameter> as LLRPValue>::lemma_emit(v.custom, s3);
        let s4 = s3.write_bytes(<Vec<CustomParameter> as LLRPValue>::wire(v.custom));
        lemma_concat_empty(s4.bytes);
        lemma_concat_assoc(
            s3.bytes,
            <Vec<CustomParameter> as LLRPValue>::wire(v.custom),
            InventorySpec::wire_from(v, 4),
        );
        lemma_concat_assoc(
            s2.bytes,
            <Vec<AntennaConfiguration> as LLRPValue>::wire(v.antenna_configuration),
            InventorySpec::wire_from(v, 3),
        );
        lemma_concat_assoc(
            s1.bytes,
            <u8 as LLRPValue>::wire(v.protocol_id),
            InventorySpec::wire_from(v, 2),
        );
        lemma_concat_assoc(
            s.bytes,
            <u16 as LLRPValue>::wire(v.spec_id),
            InventorySpec::wire_from(v, 1),
        );
    }

    proof fn lemma_parse_body(v: InventorySpecView) {
        reveal(InventorySpec::fits);
        reveal(InventorySpec::read_fields);
        if Self::canonical_body(v) {
            InventorySpec::lemma_wire_from(v);
            assert(<u16 as LLRPValue>::parse(DecoderState::start(Self::wire_from(v, 0))) == Ok::<(u16, DecoderState), Error>((v.spec_id, DecoderState::start(Self::wire_from(v, 1))))) by {
                <u16 as LLRPValue>::lemma_parse(v.spec_id, Self::wire_from(v, 1));
            }
            assert(<u8 as LLRPValue>::parse(DecoderState::start(Self::wire_from(v, 1))) == Ok::<(u8, DecoderState), Error>((v.protocol_id, DecoderState::start(Self::wire_from(v, 2))))) by {
                <u8 as LLRPValue>::lemma_parse(v.protocol_id, Self::wire_from(v, 2));
            }
            assert(<Vec<AntennaConfiguration> as LLRPValue>::parse(DecoderState::start(Self::wire_from(v, 2))) == Ok::<(Seq<AntennaConfigurationView>, DecoderState), Error>((v.antenna_configuration, DecoderState::start(Self::wire_from(v, 3))))) by {
                <Vec<AntennaConfiguration> as LLRPValue>::lemma_parse(
                    v.antenna_configuration,
                    Self::wire_from(v, 3),
                );
            }
            assert(<Vec<CustomParameter> as LLRPValue>::parse(DecoderState::start(Self::wire_from(v, 3))) == Ok::<(Seq<CustomParameter>, DecoderState), Error>((v.custom, DecoderState::start(Self::wire_from(v, 4))))) by {
                <Vec<CustomParameter> as LLRPValue>::lemma_parse(v.custom, Self::wire_from(v, 4));
            }
        }
    }

    fn decode_body(decoder: &mut Decoder) -> (r: Result<Self, Error>) {
        proof {
            reveal(InventorySpec::read_fields);
        }
        let spec_id = decoder.read::<u16>()?;
        let protocol_id = decoder.read::<u8>()?;
        let antenna_configuration = decoder.read::<Vec<AntennaConfiguration>>()?;
        let custom = decoder.read::<Vec<CustomParameter>>()?;
        Ok(InventorySpec { spec_id, protocol_id, antenna_configuration, custom })
    }

    fn encode_body(&self, encoder: &mut Encoder) {
        proof {
            reveal(InventorySpec::write_fields);
        }
        encoder.write(&self.spec_id);
        encoder.write(&self.protocol_id);
        encoder.write(&self.antenna_configuration);
        encoder.write(&self.custom);
    }
}

/// A tag access operation: which tags to address and what to do with them.
#[derive(Debug, PartialEq, Eq)]
pub struct AccessSpec {
    pub id: u32,
    pub antenna_id: u16,
    pub protocol_id: u8,
    pub current_state: bool,
    pub ro_spec_id: u32,
    pub stop_trigger: AccessSpecStopTrigger,
    pub command: AccessCommand,
    pub report_spec: Option<AccessReportSpec>,
    pub custom: Vec<CustomParameter>,
}

/// The model of a `AccessSpec`.
pub struct AccessSpecView {
    pub id: u32,
    pub antenna_id: u16,
    pub protocol_id: u8,
    pub current_state: bool,
    pub ro_spec_id: u32,
    pub stop_trigger: AccessSpecStopTrigger,
    pub command: AccessCommandView,
    pub report_spec: Option<AccessReportSpec>,
    pub custom: Seq<CustomParameter>,
}

impl DeepView for AccessSpec {
    type V = AccessSpecView;

    open spec fn deep_view(&self) -> AccessSpecView {
        AccessSpecView {
            id: self.id,
            antenna_id: self.antenna_id,
            protocol_id: self.protocol_id,
            current_state: self.current_state,
            ro_spec_id: self.ro_spec_id,
            stop_trigger: self.stop_trigger.deep_view(),
            command: self.command.deep_view(),
            report_spec: self.report_spec.deep_view(),
            custom: self.custom.deep_view(),
        }
    }
}

impl AccessSpec {
    /// The bytes of the fields from the `k`-th on.
    #[verifier::opaque]
    pub open spec fn wire_from(v: AccessSpecView, k: nat) -> Seq<u8>
        decreases 9 - k,
    {
        if k == 0 {
            <u32 as LLRPValue>::wire(v.id) + Self::wire_from(v, 1)
        } else if k == 1 {
            <u16 as LLRPValue>::wire(v.antenna_id) + Self::wire_from(v, 2)
        } else if k == 2 {
            <u8 as LLRPValue>::wire(v.protocol_id) + Self::wire_from(v, 3)
        } else if k == 3 {
            seq![flag_byte(v.current_state)] + Self::wire_from(v, 4)
        } else if k == 4 {
            <u32 as LLRPValue>::wire(v.ro_spec_id) + Self::wire_from(v, 5)
        } else if k == 5 {
            <AccessSpecStopTrigger as LLRPValue>::wire(v.stop_trigger) + Self::wire_from(v, 6)
        } else if k == 6 {
            <AccessCommand as LLRPValue>::wire(v.command) + Self::wire_from(v, 7)
        } else if k == 7 {
            <Option<AccessReportSpec> as LLRPValue>::wire(v.report_spec) + Self::wire_from(v, 8)
        } else if k == 8 {
            <Vec<CustomParameter> as LLRPValue>::wire(v.custom) + Self::wire_from(v, 9)
        } else {
            Seq::empty()
        }
    }

    /// The bytes of the fields, one field at a time.
    pub proof fn lemma_wire_from(v: AccessSpecView)
        ensures
            Self::wire_from(v, 0) == <u32 as LLRPValue>::wire(v.id) + Self::wire_from(v, 1),
            Self::wire_from(v, 1) == <u16 as LLRPValue>::wire(v.antenna_id) + Self::wire_from(v, 2),
            Self::wire_from(v, 2) == <u8 as LLRPValue>::wire(v.protocol_id) + Self::wire_from(v, 3),
            Self::wire_from(v, 3) == seq![flag_byte(v.current_state)] + Self::wire_from(v, 4),
            Self::wire_from(v, 4) == <u32 as LLRPValue>::wire(v.ro_spec_id) + Self::wire_from(v, 5),
            Self::wire_from(v, 5) == <AccessSpecStopTrigger as LLRPValue>::wire(v.stop_trigger)
                + Self::wire_from(v, 6),
            Self::wire_from(v, 6) == <AccessCommand as LLRPValue>::wire(v.command)
                + Self::wire_from(v, 7),
            Self::wire_from(v, 7) == <Option<AccessReportSpec> as LLRPValue>::wire(v.report_spec)
                + Self::wire_from(v, 8),
            Self::wire_from(v, 8) == <Vec<CustomParameter> as LLRPValue>::wire(v.custom)
                + Self::wire_from(v, 9),
            Self::wire_from(v, 9) == Seq::<u8>::empty(),
    {
        reveal(AccessSpec::wire_from);
    }

    /// Whether the fields fit the format, each before the fields behind it.
    #[verifier::opaque]
    pub open spec fn fits(v: AccessSpecView) -> bool {
        &&& <AccessSpecStopTrigger as LLRPValue>::canonical(v.stop_trigger)
        &&& <AccessCommand as LLRPValue>::canonical(v.command)
        &&& <Option<AccessReportSpec> as LLRPValue>::canonical(v.report_spec)
        &&& <Option<AccessReportSpec> as LLRPValue>::follow_ok(v.report_spec, Self::wire_from(v, 8))
        &&& <Vec<CustomParameter> as LLRPValue>::canonical(v.custom)
        &&& <Vec<CustomParameter> as LLRPValue>::follow_ok(v.custom, Self::wire_from(v, 9))
    }

    /// The first fields read in order, or the first error.
    #[verifier::opaque]
    pub open spec fn read_front(s: DecoderState) -> Result<
        ((u32, u16, u8, bool), DecoderState),
        Error,
    > {
        match <u32 as LLRPValue>::parse(s) {
            Err(e) => Err(e),
            Ok((id, s)) => match <u16 as LLRPValue>::parse(s) {
                Err(e) => Err(e),
                Ok((antenna_id, s)) => match <u8 as LLRPValue>::parse(s) {
                    Err(e) => Err(e),
                    Ok((protocol_id, s)) => match s.read_bits(1) {
                        Err(e) => Err(e),
                        Ok((current_state, s)) => match s.read_bits(7) {
                            Err(e) => Err(e),
                            Ok((_, s)) => Ok(((id, antenna_id, protocol_id, <bool as Bits>::of_bits(current_state as u32)), s)),
                        },
                    },
                },
            },
        }
    }

    /// The other fields read in order behind the first, or the first error.
    #[verifier::opaque]
    pub open spec fn read_back(front: (u32, u16, u8, bool), s: DecoderState) -> Result<
        (AccessSpecView, DecoderState),
        Error,
    > {
        match <u32 as LLRPValue>::parse(s) {
            Err(e) => Err(e),
            Ok((ro_spec_id, s)) => match <AccessSpecStopTrigger as LLRPValue>::parse(s) {
                Err(e) => Err(e),
                Ok((stop_trigger, s)) => match <AccessCommand as LLRPValue>::parse(s) {
                    Err(e) => Err(e),
                    Ok((command, s)) => match <Option<AccessReportSpec> as LLRPValue>::parse(s) {
                        Err(e) => Err(e),
                        Ok((report_spec, s)) => match <Vec<CustomParameter> as LLRPValue>::parse(s) {
                            Err(e) => Err(e),
                            Ok((custom, s)) => Ok((AccessSpecView { id: front.0, antenna_id: front.1, protocol_id: front.2, current_state: front.3, ro_spec_id, stop_trigger, command, report_spec, custom }, s)),
                        },
                    },
                },
            },
        }
    }

    /// The fields read in order, or the first error.
    #[verifier::opaque]
    pub open spec fn read_fields(s: DecoderState) -> Result<(AccessSpecView, DecoderState), Error> {
        match Self::read_front(s) {
            Err(e) => Err(e),
            Ok((front, s)) => Self::read_back(front, s),
        }
    }

    /// The state after the fields have been written in order.
    #[verifier::opaque]
    pub open spec fn write_fields(v: AccessSpecView, s: EncoderState) -> EncoderState {
        let s = <u32 as LLRPValue>::emit(v.id, s);
        let s = <u16 as LLRPValue>::emit(v.antenna_id, s);
        let s = <u8 as LLRPValue>::emit(v.protocol_id, s);
        let s = s.write_bits(v.current_state.as_bits() as nat, 1);
        let s = s.write_bits(0, 7);
        let s = <u32 as LLRPValue>::emit(v.ro_spec_id, s);
        let s = <AccessSpecStopTrigger as LLRPValue>::emit(v.stop_trigger, s);
        let s = <AccessCommand as LLRPValue>::emit(v.command, s);
        let s = <Option<AccessReportSpec> as LLRPValue>::emit(v.report_spec, s);
        let s = <Vec<CustomParameter> as LLRPValue>::emit(v.custom, s);
        s
    }

    fn decode_front(decoder: &mut Decoder) -> (r: Result<(u32, u16, u8, bool), Error>)
        ensures
            match Self::read_front(old(decoder)@) {
                Ok((front, s)) => {
                    &&& r is Ok
                    &&& r->Ok_0.0 == front.0
                    &&& r->Ok_0.1 == front.1
                    &&& r->Ok_0.2 == front.2
                    &&& r->Ok_0.3 == front.3
                    &&& final(decoder)@ == s
                },
                Err(e) => r == Err::<(u32, u16, u8, bool), Error>(e),
            },
    {
        proof {
            reveal(AccessSpec::read_front);
        }
        let id = decoder.read::<u32>()?;
        let antenna_id = decoder.read::<u16>()?;
        let protocol_id = decoder.read::<u8>()?;
        let current_state = decoder.read_bits::<bool>(1)?;
        decoder.read_raw_bits(7)?;
        Ok((id, antenna_id, protocol_id, current_state))
    }

    fn decode_back(front: (u32, u16, u8, bool), decoder: &mut Decoder) -> (r: Result<AccessSpec, Error>)
        ensures
            decoded::<AccessSpec>(
                Self::read_back((front.0, front.1, front.2, front.3), old(decoder)@),
                r,
                final(decoder)@,
            ),
    {
        proof {
            reveal(AccessSpec::read_back);
        }
        let ro_spec_id = decoder.read::<u32>()?;
        let stop_trigger = decoder.read::<AccessSpecStopTrigger>()?;
        let command = decoder.read::<AccessCommand>()?;
        let report_spec = decoder.read::<Option<AccessReportSpec>>()?;
        let custom = decoder.read::<Vec<CustomParameter>>()?;
        Ok(AccessSpec { id: front.0, antenna_id: front.1, protocol_id: front.2, current_state: front.3, ro_spec_id, stop_trigger, command, report_spec, custom })
    }

    /// The first fields are read back from the bytes of all.
    pub proof fn lemma_parse_front(v: AccessSpecView)
        ensures
            Self::fits(v) ==> Self::read_front(DecoderState::start(Self::wire_from(v, 0))) == Ok::<
                ((u32, u16, u8, bool), DecoderState),
                Error,
            >(((v.id, v.antenna_id, v.protocol_id, v.current_state), DecoderState::start(Self::wire_from(v, 4)))),
    {
        reveal(AccessSpec::fits);
        reveal(AccessSpec::read_front);
        if Self::fits(v) {
            AccessSpec::lemma_wire_from(v);
            assert(<u32 as LLRPValue>::parse(DecoderState::start(Self::wire_from(v, 0))) == Ok::<(u32, DecoderState), Error>((v.id, DecoderState::start(Self::wire_from(v, 1))))) by {
                <u32 as LLRPValue>::lemma_parse(v.id, Self::wire_from(v, 1));
            }
            assert(<u16 as LLRPValue>::parse(DecoderState::start(Self::wire_from(v, 1))) == Ok::<(u16, DecoderState), Error>((v.antenna_id, DecoderState::start(Self::wire_from(v, 2))))) by {
                <u16 as LLRPValue>::lemma_parse(v.antenna_id, Self::wire_from(v, 2));
            }
            assert(<u8 as LLRPValue>::parse(DecoderState::start(Self::wire_from(v, 2))) == Ok::<(u8, DecoderState), Error>((v.protocol_id, DecoderState::start(Self::wire_from(v, 3))))) by {
                <u8 as LLRPValue>::lemma_parse(v.protocol_id, Self::wire_from(v, 3));
            }
            lemma_flag_front(v.current_state, Self::wire_from(v, 4));
        }
    }

    /// The other fields are read back from the bytes behind the first.
    pub proof fn lemma_parse_back(v: AccessSpecView)
        ensures
            Self::fits(
                v) ==> Self::read_back((v.id,
                v.antenna_id,
                v.protocol_id,
                v.current_state), DecoderState::start(Self::wire_from(v, 4)),
            )
                == Ok::<(
                    AccessSpecView,
                    DecoderState), Error>((v,
                    DecoderState::start(Seq::empty())),
                ),
    {
        reveal(AccessSpec::fits);
        reveal(AccessSpec::read_back);
        if Self::fits(v) {
            AccessSpec::lemma_wire_from(v);
            assert(<u32 as LLRPValue>::parse(DecoderState::start(Self::wire_from(v, 4))) == Ok::<(u32, DecoderState), Error>((v.ro_spec_id, DecoderState::start(Self::wire_from(v, 5))))) by {
                <u32 as LLRPValue>::lemma_parse(v.ro_spec_id, Self::wire_from(v, 5));
            }
            assert(<AccessSpecStopTrigger as LLRPValue>::parse(DecoderState::start(Self::wire_from(v, 5))) == Ok::<(AccessSpecStopTrigger, DecoderState), Error>((v.stop_trigger, DecoderState::start(Self::wire_from(v, 6))))) by {
                <AccessSpecStopTrigger as LLRPValue>::lemma_parse(
                    v.stop_trigger,
                    Self::wire_from(v, 6),
                );
            }
            assert(<AccessCommand as LLRPValue>::parse(DecoderState::start(Self::wire_from(v, 6))) == Ok::<(AccessCommandView, DecoderState), Error>((v.command, DecoderState::start(Self::wire_from(v, 7))))) by {
                <AccessCommand as LLRPValue>::lemma_parse(v.command, Self::wire_from(v, 7));
            }
            assert(<Option<AccessReportSpec> as LLRPValue>::parse(DecoderState::start(Self::wire_from(v, 7))) == Ok::<(Option<AccessReportSpec>, DecoderState), Error>((v.report_spec, DecoderState::start(Self::wire_from(v, 8))))) by {
                <Option<AccessReportSpec> as LLRPValue>::lemma_parse(
                    v.report_spec,
                    Self::wire_from(v, 8),
                );
            }
            assert(<Vec<CustomParameter> as LLRPValue>::parse(DecoderState::start(Self::wire_from(v, 8))) == Ok::<(Seq<CustomParameter>, DecoderState), Error>((v.custom, DecoderState::start(Self::wire_from(v, 9))))) by {
                <Vec<CustomParameter> as LLRPValue>::lemma_parse(v.custom, Self::wire_from(v, 9));
            }
        }
    }
}

impl TlvParameter for AccessSpec {
    const ID: u16 = 207;

    open spec fn parse_body(s: DecoderState) -> Result<(AccessSpecView, DecoderState), Error> {
        Self::read_fields(s)
    }

    open spec fn emit_body(v: AccessSpecView, s: EncoderState) -> EncoderState {
        Self::write_fields(v, s)
    }

    open spec fn wire_body(v: AccessSpecView) -> Seq<u8> {
        Self::wire_from(v, 0)
    }

    open spec fn canonical_body(v: AccessSpecView) -> bool {
        Self::fits(v)
    }

    proof fn lemma_emit_body(v: AccessSpecView, s: EncoderState) {
        reveal(AccessSpec::write_fields);
        AccessSpec::lemma_wire_from(v);
        <u32 as LLRPValue>::lemma_emit(v.id, s);
        let s1 = s.write_bytes(<u32 as LLRPValue>::wire(v.id));
        <u16 as LLRPValue>::lemma_emit(v.antenna_id, s1);
        let s2 = s1.write_bytes(<u16 as LLRPValue>::wire(v.antenna_id));
        <u8 as LLRPValue>::lemma_emit(v.protocol_id, s2);
        let s3 = s2.write_bytes(<u8 as LLRPValue>::wire(v.protocol_id));
        lemma_flag_written(s3, v.current_state);
        let s4 = s3.write_bytes(seq![flag_byte(v.current_state)]);
        <u32 as LLRPValue>::lemma_emit(v.ro_spec_id, s4);
        let s5 = s4.write_bytes(<u32 as LLRPValue>::wire(v.ro_spec_id));
        <AccessSpecStopTrigger as LLRPValue>::lemma_emit(v.stop_trigger, s5);
        let s6 = s5.write_bytes(<AccessSpecStopTrigger as LLRPValue>::wire(v.stop_trigger));
        <AccessCommand as LLRPValue>::lemma_emit(v.command, s6);
        let s7 = s6.write_bytes(<AccessCommand as LLRPValue>::wire(v.command));
        <Option<AccessReportSpec> as LLRPValue>::lemma_emit(v.report_spec, s7);
        let s8 = s7.write_bytes(<Option<AccessReportSpec> as LLRPValue>::wire(v.report_spec));
        <Vec<CustomParameter> as LLRPValue>::lemma_emit(v.custom, s8);
        let s9 = s8.write_bytes(<Vec<CustomParameter> as LLRPValue>::wire(v.custom));
        lemma_concat_empty(s9.bytes);
        lemma_concat_assoc(
            s8.bytes,
            <Vec<CustomParameter> as LLRPValue>::wire(v.custom),
            AccessSpec::wire_from(v, 9),
        );
        lemma_concat_assoc(
            s7.bytes,
            <Option<AccessReportSpec> as LLRPValue>::wire(v.report_spec),
            AccessSpec::wire_from(v, 8),
        );
        lemma_concat_assoc(
            s6.bytes,
            <AccessCommand as LLRPValue>::wire(v.command),
            AccessSpec::wire_from(v, 7),
        );
        lemma_concat_assoc(
            s5.bytes,
            <AccessSpecStopTrigger as LLRPValue>::wire(v.stop_trigger),
            AccessSpec::wire_from(v, 6),
        );
        lemma_concat_assoc(
            s4.bytes,
            <u32 as LLRPValue>::wire(v.ro_spec_id),
            AccessSpec::wire_from(v, 5),
        );
        lemma_concat_assoc(s3.bytes, seq![flag_byte(v.current_state)], AccessSpec::wire_from(v, 4));
        lemma_concat_assoc(
            s2.bytes,
            <u8 as LLRPValue>::wire(v.protocol_id),
            AccessSpec::wire_from(v, 3),
        );
        lemma_concat_assoc(
            s1.bytes,
            <u16 as LLRPValue>::wire(v.antenna_id),
            AccessSpec::wire_from(v, 2),
        );
        lemma_concat_assoc(s.bytes, <u32 as LLRPValue>::wire(v.id), AccessSpec::wire_from(v, 1));
    }

    proof fn lemma_parse_body(v: AccessSpecView) {
        AccessSpec::lemma_parse_front(v);
        AccessSpec::lemma_parse_back(v);
        reveal(AccessSpec::read_fields);
    }

    fn decode_body(decoder: &mut Decoder) -> (r: Result<Self, Error>) {
        proof {
            reveal(AccessSpec::read_fields);
        }
        let front = Self::decode_front(decoder)?;
        Self::decode_back(front, decoder)
    }

    fn encode_body(&self, encoder: &mut Encoder) {
        proof {
            reveal(AccessSpec::write_fields);
        }
        encoder.write(&self.id);
        encoder.write(&self.antenna_id);
        encoder.write(&self.protocol_id);
        encoder.write_bits(&self.current_state, 1);
        encoder.write_raw_bits(0, 7);
        encoder.write(&self.ro_spec_id);
        encoder.write(&self.stop_trigger);
        encoder.write(&self.command);
        encoder.write(&self.report_spec);
        encoder.write(&self.custom);
    }
}

/// What ends a tag access operation.
#[derive(Debug, PartialEq, Eq)]
pub struct AccessSpecStopTrigger {
    pub trigger_type: u8,
    pub operation_count: u16,
}

impl DeepView for AccessSpecStopTrigger {
    type V = AccessSpecStopTrigger;

    open spec fn deep_view(&self) -> AccessSpecStopTrigger {
        *self
    }
}

impl AccessSpecStopTrigger {
    /// The bytes of the fields from the `k`-th on.
    #[verifier::opaque]
    pub open spec fn wire_from(v: AccessSpecStopTrigger, k: nat) -> Seq<u8>
        decreases 2 - k,
    {
        if k == 0 {
            <u8 as LLRPValue>::wire(v.trigger_type) + Self::wire_from(v, 1)
        } else if k == 1 {
            <u16 as LLRPValue>::wire(v.operation_count) + Self::wire_from(v, 2)
        } else {
            Seq::empty()
        }
    }

    /// The bytes of the fields, one field at a time.
    pub proof fn lemma_wire_from(v: AccessSpecStopTrigger)
        ensures
            Self::wire_from(v, 0) == <u8 as LLRPValue>::wire(v.trigger_type)
                + Self::wire_from(v, 1),
            Self::wire_from(v, 1) == <u16 as LLRPValue>::wire(v.operation_count)
                + Self::wire_from(v, 2),
            Self::wire_from(v, 2) == Seq::<u8>::empty(),
    {
        reveal(AccessSpecStopTrigger::wire_from);
    }

    /// Whether the fields fit the format, each before the fields behind it.
    #[verifier::opaque]
    pub open spec fn fits(v: AccessSpecStopTrigger) -> bool {
        true
    }

    /// The fields read in order, or the first error.
    #[verifier::opaque]
    pub open spec fn read_fields(s: DecoderState) -> Result<
        (AccessSpecStopTrigger, DecoderState),
        Error,
    > {
        match <u8 as LLRPValue>::parse(s) {
            Err(e) => Err(e),
            Ok((trigger_type, s)) => match <u16 as LLRPValue>::parse(s) {
                Err(e) => Err(e),
                Ok((operation_count, s)) => Ok((AccessSpecStopTrigger { trigger_type, operation_count }, s)),
            },
        }
    }

    /// The state after the fields have been written in order.
    #[verifier::opaque]
    pub open spec fn write_fields(v: AccessSpecStopTrigger, s: EncoderState) -> EncoderState {
        let s = <u8 as LLRPValue>::emit(v.trigger_type, s);
        let s = <u16 as LLRPValue>::emit(v.operation_count, s);
        s
    }
}

impl TlvParameter for AccessSpecStopTrigger {
    const ID: u16 = 208;

    open spec fn parse_body(s: DecoderState) -> Result<
        (AccessSpecStopTrigger, DecoderState),
        Error,
    > {
        Self::read_fields(s)
    }

    open spec fn emit_body(v: AccessSpecStopTrigger, s: EncoderState) -> EncoderState {
        Self::write_fields(v, s)
    }

    open spec fn wire_body(v: AccessSpecStopTrigger) -> Seq<u8> {
        Self::wire_from(v, 0)
    }

    open spec fn canonical_body(v: AccessSpecStopTrigger) -> bool {
        Self::fits(v)
    }

    proof fn lemma_emit_body(v: AccessSpecStopTrigger, s: EncoderState) {
        reveal(AccessSpecStopTrigger::write_fields);
        AccessSpecStopTrigger::lemma_wire_from(v);
        <u8 as LLRPValue>::lemma_emit(v.trigger_type, s);
        let s1 = s.write_bytes(<u8 as LLRPValue>::wire(v.trigger_type));
        <u16 as LLRPValue>::lemma_emit(v.operation_count, s1);
        let s2 = s1.write_bytes(<u16 as LLRPValue>::wire(v.operation_count));
        lemma_concat_empty(s2.bytes);
        lemma_concat_assoc(
            s1.bytes,
            <u16 as LLRPValue>::wire(v.operation_count),
            AccessSpecStopTrigger::wire_from(v, 2),
        );
        lemma_concat_assoc(
            s.bytes,
            <u8 as LLRPValue>::wire(v.trigger_type),
            AccessSpecStopTrigger::wire_from(v, 1),
        );
    }

    proof fn lemma_parse_body(v: AccessSpecStopTrigger) {
        reveal(AccessSpecStopTrigger::fits);
        reveal(AccessSpecStopTrigger::read_fields);
        if Self::canonical_body(v) {
            AccessSpecStopTrigger::lemma_wire_from(v);
            assert(<u8 as LLRPValue>::parse(DecoderState::start(Self::wire_from(v, 0))) == Ok::<(u8, DecoderState), Error>((v.trigger_type, DecoderState::start(Self::wire_from(v, 1))))) by {
                <u8 as LLRPValue>::lemma_parse(v.trigger_type, Self::wire_from(v, 1));
            }
            assert(<u16 as LLRPValue>::parse(DecoderState::start(Self::wire_from(v, 1))) == Ok::<(u16, DecoderState), Error>((v.operation_count, DecoderState::start(Self::wire_from(v, 2))))) by {
                <u16 as LLRPValue>::lemma_parse(v.operation_count, Self::wire_from(v, 2));
            }
        }
    }

    fn decode_body(decoder: &mut Decoder) -> (r: Result<Self, Error>) {
        proof {
            reveal(AccessSpecStopTrigger::read_fields);
        }
        let trigger_type = decoder.read::<u8>()?;
        let operation_count = decoder.read::<u16>()?;
        Ok(AccessSpecStopTrigger { trigger_type, operation_count })
    }

    fn encode_body(&self, encoder: &mut Encoder) {
        proof {
            reveal(AccessSpecStopTrigger::write_fields);
        }
        encoder.write(&self.trigger_type);
        encoder.write(&self.operation_count);
    }
}

/// The tags that an access operation addresses and the operations on them.
#[derive(Debug, PartialEq, Eq)]
pub struct AccessCommand {
    pub tag_spec: C1G2TagSpec,
    pub op_spec: Vec<OpSpec>,
    pub custom: Vec<CustomParameter>,
}

/// The model of a `AccessCommand`.
pub struct AccessCommandView {
    pub tag_spec: C1G2TagSpecView,
    pub op_spec: Seq<OpSpecView>,
    pub custom: Seq<CustomParameter>,
}

impl DeepView for AccessCommand {
    type V = AccessCommandView;

    open spec fn deep_view(&self) -> AccessCommandView {
        AccessCommandView {
            tag_spec: self.tag_spec.deep_view(),
            op_spec: self.op_spec.deep_view(),
            custom: self.custom.deep_view(),
        }
    }
}

impl AccessCommand {
    /// The bytes of the fields from the `k`-th on.
    #[verifier::opaque]
    pub open spec fn wire_from(v: AccessCommandView, k: nat) -> Seq<u8>
        decreases 3 - k,
    {
        if k == 0 {
            <C1G2TagSpec as LLRPValue>::wire(v.tag_spec) + Self::wire_from(v, 1)
        } else if k == 1 {
            <Vec<OpSpec> as LLRPValue>::wire(v.op_spec) + Self::wire_from(v, 2)
        } else if k == 2 {
            <Vec<CustomParameter> as LLRPValue>::wire(v.custom) + Self::wire_from(v, 3)
        } else {
            Seq::empty()
        }
    }

    /// The bytes of the fields, one field at a time.
    pub proof fn lemma_wire_from(v: AccessCommandView)
        ensures
            Self::wire_from(v, 0) == <C1G2TagSpec as LLRPValue>::wire(v.tag_spec)
                + Self::wire_from(v, 1),
            Self::wire_from(v, 1) == <Vec<OpSpec> as LLRPValue>::wire(v.op_spec)
                + Self::wire_from(v, 2),
            Self::wire_from(v, 2) == <Vec<CustomParameter> as LLRPValue>::wire(v.custom)
                + Self::wire_from(v, 3),
            Self::wire_from(v, 3) == Seq::<u8>::empty(),
    {
        reveal(AccessCommand::wire_from);
    }

    /// Whether the fields fit the format, each before the fields behind it.
    #[verifier::opaque]
    pub open spec fn fits(v: AccessCommandView) -> bool {
        &&& <C1G2TagSpec as LLRPValue>::canonical(v.tag_spec)
        &&& <Vec<OpSpec> as LLRPValue>::canonical(v.op_spec)
        &&& <Vec<OpSpec> as LLRPValue>::follow_ok(v.op_spec, Self::wire_from(v, 2))
        &&& <Vec<CustomParameter> as LLRPValue>::canonical(v.custom)
        &&& <Vec<CustomParameter> as LLRPValue>::follow_ok(v.custom, Self::wire_from(v, 3))
    }

    /// The fields read in order, or the first error.
    #[verifier::opaque]
    pub open spec fn read_fields(s: DecoderState) -> Result<
        (AccessCommandView, DecoderState),
        Error,
    > {
        match <C1G2TagSpec as LLRPValue>::parse(s) {
            Err(e) => Err(e),
            Ok((tag_spec, s)) => match <Vec<OpSpec> as LLRPValue>::parse(s) {
                Err(e) => Err(e),
                Ok((op_spec, s)) => match <Vec<CustomParameter> as LLRPValue>::parse(s) {
                    Err(e) => Err(e),
                    Ok((custom, s)) => Ok((AccessCommandView { tag_spec, op_spec, custom }, s)),
                },
            },
        }
    }

    /// The state after the fields have been written in order.
    #[verifier::opaque]
    pub open spec fn write_fields(v: AccessCommandView, s: EncoderState) -> EncoderState {
        let s = <C1G2TagSpec as LLRPValue>::emit(v.tag_spec, s);
        let s = <Vec<OpSpec> as LLRPValue>::emit(v.op_spec, s);
        let s = <Vec<CustomParameter> as LLRPValue>::emit(v.custom, s);
        s
    }
}

impl TlvParameter for AccessCommand {
    const ID: u16 = 209;

    open spec fn parse_body(s: DecoderState) -> Result<(AccessCommandView, DecoderState), Error> {
        Self::read_fields(s)
    }

    open spec fn emit_body(v: AccessCommandView, s: EncoderState) -> EncoderState {
        Self::write_fields(v, s)
    }

    open spec fn wire_body(v: AccessCommandView) -> Seq<u8> {
        Self::wire_from(v, 0)
    }

    open spec fn canonical_body(v: AccessCommandView) -> bool {
        Self::fits(v)
    }

    proof fn lemma_emit_body(v: AccessCommandView, s: EncoderState) {
        reveal(AccessCommand::write_fields);
        AccessCommand::lemma_wire_from(v);
        <C1G2TagSpec as LLRPValue>::lemma_emit(v.tag_spec, s);
        let s1 = s.write_bytes(<C1G2TagSpec as LLRPValue>::wire(v.tag_spec));
        <Vec<OpSpec> as LLRPValue>::lemma_emit(v.op_spec, s1);
        let s2 = s1.write_bytes(<Vec<OpSpec> as LLRPValue>::wire(v.op_spec));
        <Vec<CustomParameter> as LLRPValue>::lemma_emit(v.custom, s2);
        let s3 = s2.write_bytes(<Vec<CustomParameter> as LLRPValue>::wire(v.custom));
        lemma_concat_empty(s3.bytes);
        lemma_concat_assoc(
            s2.bytes,
            <Vec<CustomParameter> as LLRPValue>::wire(v.custom),
            AccessCommand::wire_from(v, 3),
        );
        lemma_concat_assoc(
            s1.bytes,
            <Vec<OpSpec> as LLRPValue>::wire(v.op_spec),
            AccessCommand::wire_from(v, 2),
        );
        lemma_concat_assoc(
            s.bytes,
            <C1G2TagSpec as LLRPValue>::wire(v.tag_spec),
            AccessCommand::wire_from(v, 1),
        );
    }

    proof fn lemma_parse_body(v: AccessCommandView) {
        reveal(AccessCommand::fits);
        reveal(AccessCommand::read_fields);
        if Self::canonical_body(v) {
            AccessCommand::lemma_wire_from(v);
            assert(<C1G2TagSpec as LLRPValue>::parse(DecoderState::start(Self::wire_from(v, 0))) == Ok::<(C1G2TagSpecView, DecoderState), Error>((v.tag_spec, DecoderState::start(Self::wire_from(v, 1))))) by {
                <C1G2TagSpec as LLRPValue>::lemma_parse(v.tag_spec, Self::wire_from(v, 1));
            }
            assert(<Vec<OpSpec> as LLRPValue>::parse(DecoderState::start(Self::wire_from(v, 1))) == Ok::<(Seq<OpSpecView>, DecoderState), Error>((v.op_spec, DecoderState::start(Self::wire_from(v, 2))))) by {
                <Vec<OpSpec> as LLRPValue>::lemma_parse(v.op_spec, Self::wire_from(v, 2));
            }
            assert(<Vec<CustomParameter> as LLRPValue>::parse(DecoderState::start(Self::wire_from(v, 2))) == Ok::<(Seq<CustomParameter>, DecoderState), Error>((v.custom, DecoderState::start(Self::wire_from(v, 3))))) by {
                <Vec<CustomParameter> as LLRPValue>::lemma_parse(v.custom, Self::wire_from(v, 3));
            }
        }
    }

    fn decode_body(decoder: &mut Decoder) -> (r: Result<Self, Error>) {
        proof {
            reveal(AccessCommand::read_fields);
        }
        let tag_spec = decoder.read::<C1G2TagSpec>()?;
        let op_spec = decoder.read::<Vec<OpSpec>>()?;
        let custom = decoder.read::<Vec<CustomParameter>>()?;
        Ok(AccessCommand { tag_spec, op_spec, custom })
    }

    fn encode_body(&self, encoder: &mut Encoder) {
        proof {
            reveal(AccessCommand::write_fields);
        }
        encoder.write(&self.tag_spec);
        encoder.write(&self.op_spec);
        encoder.write(&self.custom);
    }
}

/// When the results of an access operation are reported.
#[derive(Debug, PartialEq, Eq)]
pub struct AccessReportSpec {
    pub trigger: u8,
}

impl DeepView for AccessReportSpec {
    type V = AccessReportSpec;

    open spec fn deep_view(&self) -> AccessReportSpec {
        *self
    }
}

impl AccessReportSpec {
    /// The bytes of the fields from the `k`-th on.
    #[verifier::opaque]
    pub open spec fn wire_from(v: AccessReportSpec, k: nat) -> Seq<u8>
        decreases 1 - k,
    {
        if k == 0 {
            <u8 as LLRPValue>::wire(v.trigger) + Self::wire_from(v, 1)
        } else {
            Seq::empty()
        }
    }

    /// The bytes of the fields, one field at a time.
    pub proof fn lemma_wire_from(v: AccessReportSpec)
        ensures
            Self::wire_from(v, 0) == <u8 as LLRPValue>::wire(v.trigger) + Self::wire_from(v, 1),
            Self::wire_from(v, 1) == Seq::<u8>::empty(),
    {
        reveal(AccessReportSpec::wire_from);
    }

    /// Whether the fields fit the format, each before the fields behind it.
    #[verifier::opaque]
    pub open spec fn fits(v: AccessReportSpec) -> bool {
        true
    }

    /// The fields read in order, or the first error.
    #[verifier::opaque]
    pub open spec fn read_fields(s: DecoderState) -> Result<
        (AccessReportSpec, DecoderState),
        Error,
    > {
        match <u8 as LLRPValue>::parse(s) {
            Err(e) => Err(e),
            Ok((trigger, s)) => Ok((AccessReportSpec { trigger }, s)),
        }
    }

    /// The state after the fields have been written in order.
    #[verifier::opaque]
    pub open spec fn write_fields(v: AccessReportSpec, s: EncoderState) -> EncoderState {
        let s = <u8 as LLRPValue>::emit(v.trigger, s);
        s
    }
}

impl TlvParameter for AccessReportSpec {
    const ID: u16 = 239;

    open spec fn parse_body(s: DecoderState) -> Result<(AccessReportSpec, DecoderState), Error> {
        Self::read_fields(s)
    }

    open spec fn emit_body(v: AccessReportSpec, s: EncoderState) -> EncoderState {
        Self::write_fields(v, s)
    }

    open spec fn wire_body(v: AccessReportSpec) -> Seq<u8> {
        Self::wire_from(v, 0)
    }

    open spec fn canonical_body(v: AccessReportSpec) -> bool {
        Self::fits(v)
    }

    proof fn lemma_emit_body(v: AccessReportSpec, s: EncoderState) {
        reveal(AccessReportSpec::write_fields);
        AccessReportSpec::lemma_wire_from(v);
        <u8 as LLRPValue>::lemma_emit(v.trigger, s);
        let s1 = s.write_bytes(<u8 as LLRPValue>::wire(v.trigger));
        lemma_concat_empty(s1.bytes);
        lemma_concat_assoc(
            s.bytes,
            <u8 as LLRPValue>::wire(v.trigger),
            AccessReportSpec::wire_from(v, 1),
        );
    }

    proof fn lemma_parse_body(v: AccessReportSpec) {
        reveal(AccessReportSpec::fits);
        reveal(AccessReportSpec::read_fields);
        if Self::canonical_body(v) {
            AccessReportSpec::lemma_wire_from(v);
            assert(<u8 as LLRPValue>::parse(DecoderState::start(Self::wire_from(v, 0))) == Ok::<(u8, DecoderState), Error>((v.trigger, DecoderState::start(Self::wire_from(v, 1))))) by {
                <u8 as LLRPValue>::lemma_parse(v.trigger, Self::wire_from(v, 1));
            }
        }
    }

    fn decode_body(decoder: &mut Decoder) -> (r: Result<Self, Error>) {
        proof {
            reveal(AccessReportSpec::read_fields);
        }
        let trigger = decoder.read::<u8>()?;
        Ok(AccessReportSpec { trigger })
    }

    fn encode_body(&self, encoder: &mut Encoder) {
        proof {
            reveal(AccessReportSpec::write_fields);
        }
        encoder.write(&self.trigger);
    }
}

/// What a reader has seen of one tag.
#[derive(Debug, PartialEq, Eq)]
pub struct TagReportData {
    pub epc_data: EpcDataParameter,
    pub ro_spec_id: Option<u16>,
    pub spec_index: Option<u16>,
    pub inventory_param_spec_id: Option<u16>,
    pub antenna_id: Option<u16>,
    pub peak_rssi: Option<u8>,
    pub channel_index: Option<u16>,
    pub first_seen_timestamp_utc: Option<u64>,
    pub first_seen_timestamp_uptime: Option<u64>,
    pub last_seen_timestamp_utc: Option<u64>,
    pub last_seen_timestamp_uptime: Option<u64>,
    pub tag_seen_count: Option<u16>,
    pub air_protocol_tag_data: C1G2AirProtocolTagData,
    pub access_spec_id: Option<u32>,
    pub op_spec_result: Vec<OpSpecResult>,
    pub custom: Vec<CustomParameter>,
}

/// The model of a `TagReportData`.
pub struct TagReportDataView {
    pub epc_data: EpcDataParameterView,
    pub ro_spec_id: Option<u16>,
    pub spec_index: Option<u16>,
    pub inventory_param_spec_id: Option<u16>,
    pub antenna_id: Option<u16>,
    pub peak_rssi: Option<u8>,
    pub channel_index: Option<u16>,
    pub first_seen_timestamp_utc: Option<u64>,
    pub first_seen_timestamp_uptime: Option<u64>,
    pub last_seen_timestamp_utc: Option<u64>,
    pub last_seen_timestamp_uptime: Option<u64>,
    pub tag_seen_count: Option<u16>,
    pub air_protocol_tag_data: C1G2AirProtocolTagData,
    pub access_spec_id: Option<u32>,
    pub op_spec_result: Seq<OpSpecResultView>,
    pub custom: Seq<CustomParameter>,
}

impl DeepView for TagReportData {
    type V = TagReportDataView;

    open spec fn deep_view(&self) -> TagReportDataView {
        TagReportDataView {
            epc_data: self.epc_data.deep_view(),
            ro_spec_id: self.ro_spec_id,
            spec_index: self.spec_index,
            inventory_param_spec_id: self.inventory_param_spec_id,
            antenna_id: self.antenna_id,
            peak_rssi: self.peak_rssi,
            channel_index: self.channel_index,
            first_seen_timestamp_utc: self.first_seen_timestamp_utc,
            first_seen_timestamp_uptime: self.first_seen_timestamp_uptime,
            last_seen_timestamp_utc: self.last_seen_timestamp_utc,
            last_seen_timestamp_uptime: self.last_seen_timestamp_uptime,
            tag_seen_count: self.tag_seen_count,
            air_protocol_tag_data: self.air_protocol_tag_data.deep_view(),
            access_spec_id: self.access_spec_id,
            op_spec_result: self.op_spec_result.deep_view(),
            custom: self.custom.deep_view(),
        }
    }
}

impl TagReportData {
    /// The bytes of the fields from the `k`-th on.
    #[verifier::opaque]
    pub open spec fn wire_from(v: TagReportDataView, k: nat) -> Seq<u8>
        decreases 16 - k,
    {
        if k == 0 {
            <EpcDataParameter as LLRPValue>::wire(v.epc_data) + Self::wire_from(v, 1)
        } else if k == 1 {
            tv_wire::<u16>(v.ro_spec_id, 9) + Self::wire_from(v, 2)
        } else if k == 2 {
            tv_wire::<u16>(v.spec_index, 14) + Self::wire_from(v, 3)
        } else if k == 3 {
            tv_wire::<u16>(v.inventory_param_spec_id, 10) + Self::wire_from(v, 4)
        } else if k == 4 {
            tv_wire::<u16>(v.antenna_id, 1) + Self::wire_from(v, 5)
        } else if k == 5 {
            tv_wire::<u8>(v.peak_rssi, 6) + Self::wire_from(v, 6)
        } else if k == 6 {
            tv_wire::<u16>(v.channel_index, 7) + Self::wire_from(v, 7)
        } else if k == 7 {
            tv_wire::<u64>(v.first_seen_timestamp_utc, 2) + Self::wire_from(v, 8)
        } else if k == 8 {
            tv_wire::<u64>(v.first_seen_timestamp_uptime, 3) + Self::wire_from(v, 9)
        } else if k == 9 {
            tv_wire::<u64>(v.last_seen_timestamp_utc, 4) + Self::wire_from(v, 10)
        } else if k == 10 {
            tv_wire::<u64>(v.last_seen_timestamp_uptime, 5) + Self::wire_from(v, 11)
        } else if k == 11 {
            tv_wire::<u16>(v.tag_seen_count, 8) + Self::wire_from(v, 12)
        } else if k == 12 {
            <C1G2AirProtocolTagData as LLRPValue>::wire(v.air_protocol_tag_data)
                + Self::wire_from(v, 13)
        } else if k == 13 {
            tv_wire::<u32>(v.access_spec_id, 16) + Self::wire_from(v, 14)
        } else if k == 14 {
            <Vec<OpSpecResult> as LLRPValue>::wire(v.op_spec_result) + Self::wire_from(v, 15)
        } else if k == 15 {
            <Vec<CustomParameter> as LLRPValue>::wire(v.custom) + Self::wire_from(v, 16)
        } else {
            Seq::empty()
        }
    }

    /// The bytes of the fields, one field at a time.
    pub proof fn lemma_wire_from(v: TagReportDataView)
        ensures
            Self::wire_from(v, 0) == <EpcDataParameter as LLRPValue>::wire(v.epc_data)
                + Self::wire_from(v, 1),
            Self::wire_from(v, 1) == tv_wire::<u16>(v.ro_spec_id, 9) + Self::wire_from(v, 2),
            Self::wire_from(v, 2) == tv_wire::<u16>(v.spec_index, 14) + Self::wire_from(v, 3),
            Self::wire_from(v, 3) == tv_wire::<u16>(v.inventory_param_spec_id, 10)
                + Self::wire_from(v, 4),
            Self::wire_from(v, 4) == tv_wire::<u16>(v.antenna_id, 1) + Self::wire_from(v, 5),
            Self::wire_from(v, 5) == tv_wire::<u8>(v.peak_rssi, 6) + Self::wire_from(v, 6),
            Self::wire_from(v, 6) == tv_wire::<u16>(v.channel_index, 7) + Self::wire_from(v, 7),
            Self::wire_from(v, 7) == tv_wire::<u64>(v.first_seen_timestamp_utc, 2)
                + Self::wire_from(v, 8),
            Self::wire_from(v, 8) == tv_wire::<u64>(v.first_seen_timestamp_uptime, 3)
                + Self::wire_from(v, 9),
            Self::wire_from(v, 9) == tv_wire::<u64>(v.last_seen_timestamp_utc, 4)
                + Self::wire_from(v, 10),
            Self::wire_from(v, 10) == tv_wire::<u64>(v.last_seen_timestamp_uptime, 5)
                + Self::wire_from(v, 11),
            Self::wire_from(v, 11) == tv_wire::<u16>(v.tag_seen_count, 8) + Self::wire_from(v, 12),
            Self::wire_from(v, 12) == <C1G2AirProtocolTagData as LLRPValue>::wire(v.air_protocol_tag_data)
                + Self::wire_from(v, 13),
            Self::wire_from(v, 13) == tv_wire::<u32>(v.access_spec_id, 16) + Self::wire_from(v, 14),
            Self::wire_from(v, 14) == <Vec<OpSpecResult> as LLRPValue>::wire(v.op_spec_result)
                + Self::wire_from(v, 15),
            Self::wire_from(v, 15) == <Vec<CustomParameter> as LLRPValue>::wire(v.custom)
                + Self::wire_from(v, 16),
            Self::wire_from(v, 16) == Seq::<u8>::empty(),
    {
        reveal(TagReportData::wire_from);
    }

    /// Whether the fields fit the format, each before the fields behind it.
    #[verifier::opaque]
    pub open spec fn fits(v: TagReportDataView) -> bool {
        &&& <EpcDataParameter as LLRPValue>::canonical(v.epc_data)
        &&& <EpcDataParameter as LLRPValue>::follow_ok(v.epc_data, Self::wire_from(v, 1))
        &&& tv_follow_ok(v.ro_spec_id is Some, 9, Self::wire_from(v, 2))
        &&& tv_follow_ok(v.spec_index is Some, 14, Self::wire_from(v, 3))
        &&& tv_follow_ok(v.inventory_param_spec_id is Some, 10, Self::wire_from(v, 4))
        &&& tv_follow_ok(v.antenna_id is Some, 1, Self::wire_from(v, 5))
        &&& tv_follow_ok(v.peak_rssi is Some, 6, Self::wire_from(v, 6))
        &&& tv_follow_ok(v.channel_index is Some, 7, Self::wire_from(v, 7))
        &&& tv_follow_ok(v.first_seen_timestamp_utc is Some, 2, Self::wire_from(v, 8))
        &&& tv_follow_ok(v.first_seen_timestamp_uptime is Some, 3, Self::wire_from(v, 9))
        &&& tv_follow_ok(v.last_seen_timestamp_utc is Some, 4, Self::wire_from(v, 10))
        &&& tv_follow_ok(v.last_seen_timestamp_uptime is Some, 5, Self::wire_from(v, 11))
        &&& tv_follow_ok(v.tag_seen_count is Some, 8, Self::wire_from(v, 12))
        &&& <C1G2AirProtocolTagData as LLRPValue>::canonical(v.air_protocol_tag_data)
        &&& <C1G2AirProtocolTagData as LLRPValue>::follow_ok(
            v.air_protocol_tag_data,
            Self::wire_from(v, 13),
        )
        &&& tv_follow_ok(v.access_spec_id is Some, 16, Self::wire_from(v, 14))
        &&& <Vec<OpSpecResult> as LLRPValue>::canonical(v.op_spec_result)
        &&& <Vec<OpSpecResult> as LLRPValue>::follow_ok(v.op_spec_result, Self::wire_from(v, 15))
        &&& <Vec<CustomParameter> as LLRPValue>::canonical(v.custom)
        &&& <Vec<CustomParameter> as LLRPValue>::follow_ok(v.custom, Self::wire_from(v, 16))
    }

    /// The first fields read in order, or the first error.
    #[verifier::opaque]
    pub open spec fn read_front(s: DecoderState) -> Result<
        ((EpcDataParameterView, Option<u16>, Option<u16>, Option<u16>, Option<u16>, Option<u8>, Option<u16>, Option<u64>), DecoderState),
        Error,
    > {
        match <EpcDataParameter as LLRPValue>::parse(s) {
            Err(e) => Err(e),
            Ok((epc_data, s)) => match <Option<u16> as LLRPValue>::parse_tv(s, 9) {
                Err(e) => Err(e),
                Ok((ro_spec_id, s)) => match <Option<u16> as LLRPValue>::parse_tv(s, 14) {
                    Err(e) => Err(e),
                    Ok((spec_index, s)) => match <Option<u16> as LLRPValue>::parse_tv(s, 10) {
                        Err(e) => Err(e),
                        Ok((inventory_param_spec_id, s)) => match <Option<u16> as LLRPValue>::parse_tv(s, 1) {
                            Err(e) => Err(e),
                            Ok((antenna_id, s)) => match <Option<u8> as LLRPValue>::parse_tv(s, 6) {
                                Err(e) => Err(e),
                                Ok((peak_rssi, s)) => match <Option<u16> as LLRPValue>::parse_tv(s, 7) {
                                    Err(e) => Err(e),
                                    Ok((channel_index, s)) => match <Option<u64> as LLRPValue>::parse_tv(s, 2) {
                                        Err(e) => Err(e),
                                        Ok((first_seen_timestamp_utc, s)) => Ok(((epc_data, ro_spec_id, spec_index, inventory_param_spec_id, antenna_id, peak_rssi, channel_index, first_seen_timestamp_utc), s)),
                                    },
                                },
                            },
                        },
                    },
                },
            },
        }
    }

    /// The other fields read in order behind the first, or the first error.
    #[verifier::opaque]
    pub open spec fn read_back(front: (EpcDataParameterView, Option<u16>, Option<u16>, Option<u16>, Option<u16>, Option<u8>, Option<u16>, Option<u64>), s: DecoderState) -> Result<
        (TagReportDataView, DecoderState),
        Error,
    > {
        match <Option<u64> as LLRPValue>::parse_tv(s, 3) {
            Err(e) => Err(e),
            Ok((first_seen_timestamp_uptime, s)) => match <Option<u64> as LLRPValue>::parse_tv(s, 4) {
                Err(e) => Err(e),
                Ok((last_seen_timestamp_utc, s)) => match <Option<u64> as LLRPValue>::parse_tv(s, 5) {
                    Err(e) => Err(e),
                    Ok((last_seen_timestamp_uptime, s)) => match <Option<u16> as LLRPValue>::parse_tv(s, 8) {
                        Err(e) => Err(e),
                        Ok((tag_seen_count, s)) => match <C1G2AirProtocolTagData as LLRPValue>::parse(s) {
                            Err(e) => Err(e),
                            Ok((air_protocol_tag_data, s)) => match <Option<u32> as LLRPValue>::parse_tv(s, 16) {
                                Err(e) => Err(e),
                                Ok((access_spec_id, s)) => match <Vec<OpSpecResult> as LLRPValue>::parse(s) {
                                    Err(e) => Err(e),
                                    Ok((op_spec_result, s)) => match <Vec<CustomParameter> as LLRPValue>::parse(s) {
                                        Err(e) => Err(e),
                                        Ok((custom, s)) => Ok((TagReportDataView { epc_data: front.0, ro_spec_id: front.1, spec_index: front.2, inventory_param_spec_id: front.3, antenna_id: front.4, peak_rssi: front.5, channel_index: front.6, first_seen_timestamp_utc: front.7, first_seen_timestamp_uptime, last_seen_timestamp_utc, last_seen_timestamp_uptime, tag_seen_count, air_protocol_tag_data, access_spec_id, op_spec_result, custom }, s)),
                                    },
                                },
                            },
                        },
                    },
                },
            },
        }
    }

    /// The fields read in order, or the first error.
    #[verifier::opaque]
    pub open spec fn read_fields(s: DecoderState) -> Result<
        (TagReportDataView, DecoderState),
        Error,
    > {
        match Self::read_front(s) {
            Err(e) => Err(e),
            Ok((front, s)) => Self::read_back(front, s),
        }
    }

    /// The state after the fields have been written in order.
    #[verifier::opaque]
    pub open spec fn write_fields(v: TagReportDataView, s: EncoderState) -> EncoderState {
        let s = <EpcDataParameter as LLRPValue>::emit(v.epc_data, s);
        let s = <Option<u16> as LLRPValue>::emit_tv(v.ro_spec_id, s, 9);
        let s = <Option<u16> as LLRPValue>::emit_tv(v.spec_index, s, 14);
        let s = <Option<u16> as LLRPValue>::emit_tv(v.inventory_param_spec_id, s, 10);
        let s = <Option<u16> as LLRPValue>::emit_tv(v.antenna_id, s, 1);
        let s = <Option<u8> as LLRPValue>::emit_tv(v.peak_rssi, s, 6);
        let s = <Option<u16> as LLRPValue>::emit_tv(v.channel_index, s, 7);
        let s = <Option<u64> as LLRPValue>::emit_tv(v.first_seen_timestamp_utc, s, 2);
        let s = <Option<u64> as LLRPValue>::emit_tv(v.first_seen_timestamp_uptime, s, 3);
        let s = <Option<u64> as LLRPValue>::emit_tv(v.last_seen_timestamp_utc, s, 4);
        let s = <Option<u64> as LLRPValue>::emit_tv(v.last_seen_timestamp_uptime, s, 5);
        let s = <Option<u16> as LLRPValue>::emit_tv(v.tag_seen_count, s, 8);
        let s = <C1G2AirProtocolTagData as LLRPValue>::emit(v.air_protocol_tag_data, s);
        let s = <Option<u32> as LLRPValue>::emit_tv(v.access_spec_id, s, 16);
        let s = <Vec<OpSpecResult> as LLRPValue>::emit(v.op_spec_result, s);
        let s = <Vec<CustomParameter> as LLRPValue>::emit(v.custom, s);
        s
    }

    fn decode_front(decoder: &mut Decoder) -> (r: Result<(EpcDataParameter, Option<u16>, Option<u16>, Option<u16>, Option<u16>, Option<u8>, Option<u16>, Option<u64>), Error>)
        ensures
            match Self::read_front(old(decoder)@) {
                Ok((front, s)) => {
                    &&& r is Ok
                    &&& r->Ok_0.0.deep_view() == front.0
                    &&& r->Ok_0.1 == front.1
                    &&& r->Ok_0.2 == front.2
                    &&& r->Ok_0.3 == front.3
                    &&& r->Ok_0.4 == front.4
                    &&& r->Ok_0.5 == front.5
                    &&& r->Ok_0.6 == front.6
                    &&& r->Ok_0.7 == front.7
                    &&& final(decoder)@ == s
                },
                Err(
                    e) => r == Err::<(EpcDataParameter,
                    Option<u16>,
                    Option<u16>,
                    Option<u16>,
                    Option<u16>,
                    Option<u8>,
                    Option<u16>,
                    Option<u64>), Error>(e,
                ),
            },
    {
        proof {
            reveal(TagReportData::read_front);
        }
        let epc_data = decoder.read::<EpcDataParameter>()?;
        let ro_spec_id = decoder.read_tv::<Option<u16>>(9)?;
        let spec_index = decoder.read_tv::<Option<u16>>(14)?;
        let inventory_param_spec_id = decoder.read_tv::<Option<u16>>(10)?;
        let antenna_id = decoder.read_tv::<Option<u16>>(1)?;
        let peak_rssi = decoder.read_tv::<Option<u8>>(6)?;
        let channel_index = decoder.read_tv::<Option<u16>>(7)?;
        let first_seen_timestamp_utc = decoder.read_tv::<Option<u64>>(2)?;
        Ok((epc_data, ro_spec_id, spec_index, inventory_param_spec_id, antenna_id, peak_rssi, channel_index, first_seen_timestamp_utc))
    }

    fn decode_back(front: (EpcDataParameter, Option<u16>, Option<u16>, Option<u16>, Option<u16>, Option<u8>, Option<u16>, Option<u64>), decoder: &mut Decoder) -> (r: Result<TagReportData, Error>)
        ensures
            decoded::<TagReportData>(Self::read_back((front.0.deep_view(), front.1, front.2, front.3, front.4, front.5, front.6, front.7), old(decoder)@), r, final(decoder)@),
    {
        proof {
            reveal(TagReportData::read_back);
        }
        let first_seen_timestamp_uptime = decoder.read_tv::<Option<u64>>(3)?;
        let last_seen_timestamp_utc = decoder.read_tv::<Option<u64>>(4)?;
        let last_seen_timestamp_uptime = decoder.read_tv::<Option<u64>>(5)?;
        let tag_seen_count = decoder.read_tv::<Option<u16>>(8)?;
        let air_protocol_tag_data = decoder.read::<C1G2AirProtocolTagData>()?;
        let access_spec_id = decoder.read_tv::<Option<u32>>(16)?;
        let op_spec_result = decoder.read::<Vec<OpSpecResult>>()?;
        let custom = decoder.read::<Vec<CustomParameter>>()?;
        Ok(TagReportData { epc_data: front.0, ro_spec_id: front.1, spec_index: front.2, inventory_param_spec_id: front.3, antenna_id: front.4, peak_rssi: front.5, channel_index: front.6, first_seen_timestamp_utc: front.7, first_seen_timestamp_uptime, last_seen_timestamp_utc, last_seen_timestamp_uptime, tag_seen_count, air_protocol_tag_data, access_spec_id, op_spec_result, custom })
    }

    /// The first fields are read back from the bytes of all.
    #[verifier::rlimit(40)]
    pub proof fn lemma_parse_front(v: TagReportDataView)
        ensures
            Self::fits(v) ==> Self::read_front(DecoderState::start(Self::wire_from(v, 0))) == Ok::<
                ((EpcDataParameterView, Option<u16>, Option<u16>, Option<u16>, Option<u16>, Option<u8>, Option<u16>, Option<u64>), DecoderState),
                Error,
            >(((v.epc_data, v.ro_spec_id, v.spec_index, v.inventory_param_spec_id, v.antenna_id, v.peak_rssi, v.channel_index, v.first_seen_timestamp_utc), DecoderState::start(Self::wire_from(v, 8)))),
    {
        reveal(TagReportData::fits);
        reveal(TagReportData::read_front);
        if Self::fits(v) {
            TagReportData::lemma_wire_from(v);
            assert(<EpcDataParameter as LLRPValue>::parse(DecoderState::start(Self::wire_from(v, 0))) == Ok::<(EpcDataParameterView, DecoderState), Error>((v.epc_data, DecoderState::start(Self::wire_from(v, 1))))) by {
                <EpcDataParameter as LLRPValue>::lemma_parse(v.epc_data, Self::wire_from(v, 1));
            }
            assert(<Option<u16> as LLRPValue>::parse_tv(DecoderState::start(Self::wire_from(v, 1)), 9) == Ok::<(Option<u16>, DecoderState), Error>((v.ro_spec_id, DecoderState::start(Self::wire_from(v, 2))))) by {
                lemma_tv_front_u16(v.ro_spec_id, 9, Self::wire_from(v, 2));
            }
            assert(<Option<u16> as LLRPValue>::parse_tv(DecoderState::start(Self::wire_from(v, 2)), 14) == Ok::<(Option<u16>, DecoderState), Error>((v.spec_index, DecoderState::start(Self::wire_from(v, 3))))) by {
                lemma_tv_front_u16(v.spec_index, 14, Self::wire_from(v, 3));
            }
            assert(<Option<u16> as LLRPValue>::parse_tv(DecoderState::start(Self::wire_from(v, 3)), 10) == Ok::<(Option<u16>, DecoderState), Error>((v.inventory_param_spec_id, DecoderState::start(Self::wire_from(v, 4))))) by {
                lemma_tv_front_u16(v.inventory_param_spec_id, 10, Self::wire_from(v, 4));
            }
            assert(<Option<u16> as LLRPValue>::parse_tv(DecoderState::start(Self::wire_from(v, 4)), 1) == Ok::<(Option<u16>, DecoderState), Error>((v.antenna_id, DecoderState::start(Self::wire_from(v, 5))))) by {
                lemma_tv_front_u16(v.antenna_id, 1, Self::wire_from(v, 5));
            }
            assert(<Option<u8> as LLRPValue>::parse_tv(DecoderState::start(Self::wire_from(v, 5)), 6) == Ok::<(Option<u8>, DecoderState), Error>((v.peak_rssi, DecoderState::start(Self::wire_from(v, 6))))) by {
                lemma_tv_front_u8(v.peak_rssi, 6, Self::wire_from(v, 6));
            }
            assert(<Option<u16> as LLRPValue>::parse_tv(DecoderState::start(Self::wire_from(v, 6)), 7) == Ok::<(Option<u16>, DecoderState), Error>((v.channel_index, DecoderState::start(Self::wire_from(v, 7))))) by {
                lemma_tv_front_u16(v.channel_index, 7, Self::wire_from(v, 7));
            }
            assert(<Option<u64> as LLRPValue>::parse_tv(DecoderState::start(Self::wire_from(v, 7)), 2) == Ok::<(Option<u64>, DecoderState), Error>((v.first_seen_timestamp_utc, DecoderState::start(Self::wire_from(v, 8))))) by {
                lemma_tv_front_u64(v.first_seen_timestamp_utc, 2, Self::wire_from(v, 8));
            }
        }
    }

    /// The other fields are read back from the bytes behind the first.
    #[verifier::rlimit(40)]
    pub proof fn lemma_parse_back(v: TagReportDataView)
        ensures
            Self::fits(
                v) ==> Self::read_back((v.epc_data,
                v.ro_spec_id,
                v.spec_index,
                v.inventory_param_spec_id,
                v.antenna_id,
                v.peak_rssi,
                v.channel_index,
                v.first_seen_timestamp_utc), DecoderState::start(Self::wire_from(v, 8)),
            )
                == Ok::<(
                    TagReportDataView,
                    DecoderState), Error>((v,
                    DecoderState::start(Seq::empty())),
                ),
    {
        reveal(TagReportData::fits);
        reveal(TagReportData::read_back);
        if Self::fits(v) {
            TagReportData::lemma_wire_from(v);
            assert(<Option<u64> as LLRPValue>::parse_tv(DecoderState::start(Self::wire_from(v, 8)), 3) == Ok::<(Option<u64>, DecoderState), Error>((v.first_seen_timestamp_uptime, DecoderState::start(Self::wire_from(v, 9))))) by {
                lemma_tv_front_u64(v.first_seen_timestamp_uptime, 3, Self::wire_from(v, 9));
            }
            assert(<Option<u64> as LLRPValue>::parse_tv(DecoderState::start(Self::wire_from(v, 9)), 4) == Ok::<(Option<u64>, DecoderState), Error>((v.last_seen_timestamp_utc, DecoderState::start(Self::wire_from(v, 10))))) by {
                lemma_tv_front_u64(v.last_seen_timestamp_utc, 4, Self::wire_from(v, 10));
            }
            assert(<Option<u64> as LLRPValue>::parse_tv(DecoderState::start(Self::wire_from(v, 10)), 5) == Ok::<(Option<u64>, DecoderState), Error>((v.last_seen_timestamp_uptime, DecoderState::start(Self::wire_from(v, 11))))) by {
                lemma_tv_front_u64(v.last_seen_timestamp_uptime, 5, Self::wire_from(v, 11));
            }
            assert(<Option<u16> as LLRPValue>::parse_tv(DecoderState::start(Self::wire_from(v, 11)), 8) == Ok::<(Option<u16>, DecoderState), Error>((v.tag_seen_count, DecoderState::start(Self::wire_from(v, 12))))) by {
                lemma_tv_front_u16(v.tag_seen_count, 8, Self::wire_from(v, 12));
            }
            assert(<C1G2AirProtocolTagData as LLRPValue>::parse(DecoderState::start(Self::wire_from(v, 12))) == Ok::<(C1G2AirProtocolTagData, DecoderState), Error>((v.air_protocol_tag_data, DecoderState::start(Self::wire_from(v, 13))))) by {
                <C1G2AirProtocolTagData as LLRPValue>::lemma_parse(
                    v.air_protocol_tag_data,
                    Self::wire_from(v, 13),
                );
            }
            assert(<Option<u32> as LLRPValue>::parse_tv(DecoderState::start(Self::wire_from(v, 13)), 16) == Ok::<(Option<u32>, DecoderState), Error>((v.access_spec_id, DecoderState::start(Self::wire_from(v, 14))))) by {
                lemma_tv_front_u32(v.access_spec_id, 16, Self::wire_from(v, 14));
            }
            assert(<Vec<OpSpecResult> as LLRPValue>::parse(DecoderState::start(Self::wire_from(v, 14))) == Ok::<(Seq<OpSpecResultView>, DecoderState), Error>((v.op_spec_result, DecoderState::start(Self::wire_from(v, 15))))) by {
                <Vec<OpSpecResult> as LLRPValue>::lemma_parse(
                    v.op_spec_result,
                    Self::wire_from(v, 15),
                );
            }
            assert(<Vec<CustomParameter> as LLRPValue>::parse(DecoderState::start(Self::wire_from(v, 15))) == Ok::<(Seq<CustomParameter>, DecoderState), Error>((v.custom, DecoderState::start(Self::wire_from(v, 16))))) by {
                <Vec<CustomParameter> as LLRPValue>::lemma_parse(v.custom, Self::wire_from(v, 16));
            }
        }
    }
}

impl TlvParameter for TagReportData {
    const ID: u16 = 240;

    open spec fn parse_body(s: DecoderState) -> Result<(TagReportDataView, DecoderState), Error> {
        Self::read_fields(s)
    }

    open spec fn emit_body(v: TagReportDataView, s: EncoderState) -> EncoderState {
        Self::write_fields(v, s)
    }

    open spec fn wire_body(v: TagReportDataView) -> Seq<u8> {
        Self::wire_from(v, 0)
    }

    open spec fn canonical_body(v: TagReportDataView) -> bool {
        Self::fits(v)
    }

    proof fn lemma_emit_body(v: TagReportDataView, s: EncoderState) {
        reveal(TagReportData::write_fields);
        TagReportData::lemma_wire_from(v);
        <EpcDataParameter as LLRPValue>::lemma_emit(v.epc_data, s);
        let s1 = s.write_bytes(<EpcDataParameter as LLRPValue>::wire(v.epc_data));
        lemma_tv_written_u16(v.ro_spec_id, 9, s1);
        let s2 = s1.write_bytes(tv_wire::<u16>(v.ro_spec_id, 9));
        lemma_tv_written_u16(v.spec_index, 14, s2);
        let s3 = s2.write_bytes(tv_wire::<u16>(v.spec_index, 14));
        lemma_tv_written_u16(v.inventory_param_spec_id, 10, s3);
        let s4 = s3.write_bytes(tv_wire::<u16>(v.inventory_param_spec_id, 10));
        lemma_tv_written_u16(v.antenna_id, 1, s4);
        let s5 = s4.write_bytes(tv_wire::<u16>(v.antenna_id, 1));
        lemma_tv_written_u8(v.peak_rssi, 6, s5);
        let s6 = s5.write_bytes(tv_wire::<u8>(v.peak_rssi, 6));
        lemma_tv_written_u16(v.channel_index, 7, s6);
        let s7 = s6.write_bytes(tv_wire::<u16>(v.channel_index, 7));
        lemma_tv_written_u64(v.first_seen_timestamp_utc, 2, s7);
        let s8 = s7.write_bytes(tv_wire::<u64>(v.first_seen_timestamp_utc, 2));
        lemma_tv_written_u64(v.first_seen_timestamp_uptime, 3, s8);
        let s9 = s8.write_bytes(tv_wire::<u64>(v.first_seen_timestamp_uptime, 3));
        lemma_tv_written_u64(v.last_seen_timestamp_utc, 4, s9);
        let s10 = s9.write_bytes(tv_wire::<u64>(v.last_seen_timestamp_utc, 4));
        lemma_tv_written_u64(v.last_seen_timestamp_uptime, 5, s10);
        let s11 = s10.write_bytes(tv_wire::<u64>(v.last_seen_timestamp_uptime, 5));
        lemma_tv_written_u16(v.tag_seen_count, 8, s11);
        let s12 = s11.write_bytes(tv_wire::<u16>(v.tag_seen_count, 8));
        <C1G2AirProtocolTagData as LLRPValue>::lemma_emit(v.air_protocol_tag_data, s12);
        let s13 = s12.write_bytes(
            <C1G2AirProtocolTagData as LLRPValue>::wire(v.air_protocol_tag_data),
        );
        lemma_tv_written_u32(v.access_spec_id, 16, s13);
        let s14 = s13.write_bytes(tv_wire::<u32>(v.access_spec_id, 16));
        <Vec<OpSpecResult> as LLRPValue>::lemma_emit(v.op_spec_result, s14);
        let s15 = s14.write_bytes(<Vec<OpSpecResult> as LLRPValue>::wire(v.op_spec_result));
        <Vec<CustomParameter> as LLRPValue>::lemma_emit(v.custom, s15);
        let s16 = s15.write_bytes(<Vec<CustomParameter> as LLRPValue>::wire(v.custom));
        lemma_concat_empty(s16.bytes);
        lemma_concat_assoc(
            s15.bytes,
            <Vec<CustomParameter> as LLRPValue>::wire(v.custom),
            TagReportData::wire_from(v, 16),
        );
        lemma_concat_assoc(
            s14.bytes,
            <Vec<OpSpecResult> as LLRPValue>::wire(v.op_spec_result),
            TagReportData::wire_from(v, 15),
        );
        lemma_concat_assoc(
            s13.bytes,
            tv_wire::<u32>(v.access_spec_id, 16),
            TagReportData::wire_from(v, 14),
        );
        lemma_concat_assoc(
            s12.bytes,
            <C1G2AirProtocolTagData as LLRPValue>::wire(v.air_protocol_tag_data),
            TagReportData::wire_from(v, 13),
        );
        lemma_concat_assoc(
            s11.bytes,
            tv_wire::<u16>(v.tag_seen_count, 8),
            TagReportData::wire_from(v, 12),
        );
        lemma_concat_assoc(
            s10.bytes,
            tv_wire::<u64>(v.last_seen_timestamp_uptime, 5),
            TagReportData::wire_from(v, 11),
        );
        lemma_concat_assoc(
            s9.bytes,
            tv_wire::<u64>(v.last_seen_timestamp_utc, 4),
            TagReportData::wire_from(v, 10),
        );
        lemma_concat_assoc(
            s8.bytes,
            tv_wire::<u64>(v.first_seen_timestamp_uptime, 3),
            TagReportData::wire_from(v, 9),
        );
        lemma_concat_assoc(
            s7.bytes,
            tv_wire::<u64>(v.first_seen_timestamp_utc, 2),
            TagReportData::wire_from(v, 8),
        );
        lemma_concat_assoc(
            s6.bytes,
            tv_wire::<u16>(v.channel_index, 7),
            TagReportData::wire_from(v, 7),
        );
        lemma_concat_assoc(s5.bytes, tv_wire::<u8>(v.peak_rssi, 6), TagReportData::wire_from(v, 6));
        lemma_concat_assoc(
            s4.bytes,
            tv_wire::<u16>(v.antenna_id, 1),
            TagReportData::wire_from(v, 5),
        );
        lemma_concat_assoc(
            s3.bytes,
            tv_wire::<u16>(v.inventory_param_spec_id, 10),
            TagReportData::wire_from(v, 4),
        );
        lemma_concat_assoc(
            s2.bytes,
            tv_wire::<u16>(v.spec_index, 14),
            TagReportData::wire_from(v, 3),
        );
        lemma_concat_assoc(
            s1.bytes,
            tv_wire::<u16>(v.ro_spec_id, 9),
            TagReportData::wire_from(v, 2),
        );
        lemma_concat_assoc(
            s.bytes,
            <EpcDataParameter as LLRPValue>::wire(v.epc_data),
            TagReportData::wire_from(v, 1),
        );
    }

    proof fn lemma_parse_body(v: TagReportDataView) {
        TagReportData::lemma_parse_front(v);
        TagReportData::lemma_parse_back(v);
        reveal(TagReportData::read_fields);
    }

    fn decode_body(decoder: &mut Decoder) -> (r: Result<Self, Error>) {
        proof {
            reveal(TagReportData::read_fields);
        }
        let front = Self::decode_front(decoder)?;
        Self::decode_back(front, decoder)
    }

    fn encode_body(&self, encoder: &mut Encoder) {
        proof {
            reveal(TagReportData::write_fields);
        }
        encoder.write(&self.epc_data);
        encoder.write_tv(&self.ro_spec_id, 9);
        encoder.write_tv(&self.spec_index, 14);
        encoder.write_tv(&self.inventory_param_spec_id, 10);
        encoder.write_tv(&self.antenna_id, 1);
        encoder.write_tv(&self.peak_rssi, 6);
        encoder.write_tv(&self.channel_index, 7);
        encoder.write_tv(&self.first_seen_timestamp_utc, 2);
        encoder.write_tv(&self.first_seen_timestamp_uptime, 3);
        encoder.write_tv(&self.last_seen_timestamp_utc, 4);
        encoder.write_tv(&self.last_seen_timestamp_uptime, 5);
        encoder.write_tv(&self.tag_seen_count, 8);
        encoder.write(&self.air_protocol_tag_data);
        encoder.write_tv(&self.access_spec_id, 16);
        encoder.write(&self.op_spec_result);
        encoder.write(&self.custom);
    }
}

/// What a reader has measured on the air.
#[derive(Debug, PartialEq, Eq)]
pub struct RfSurveyReport {
    pub ro_spec_id: Option<u16>,
    pub spec_index: Option<u16>,
    pub frequency_power_level: Vec<FrequencyPowerLevel>,
    pub custom: Vec<CustomParameter>,
}

/// The model of a `RfSurveyReport`.
pub struct RfSurveyReportView {
    pub ro_spec_id: Option<u16>,
    pub spec_index: Option<u16>,
    pub frequency_power_level: Seq<FrequencyPowerLevel>,
    pub custom: Seq<CustomParameter>,
}

impl DeepView for RfSurveyReport {
    type V = RfSurveyReportView;

    open spec fn deep_view(&self) -> RfSurveyReportView {
        RfSurveyReportView {
            ro_spec_id: self.ro_spec_id,
            spec_index: self.spec_index,
            frequency_power_level: self.frequency_power_level.deep_view(),
            custom: self.custom.deep_view(),
        }
    }
}

impl RfSurveyReport {
    /// The bytes of the fields from the `k`-th on.
    #[verifier::opaque]
    pub open spec fn wire_from(v: RfSurveyReportView, k: nat) -> Seq<u8>
        decreases 4 - k,
    {
        if k == 0 {
            tv_wire::<u16>(v.ro_spec_id, 9) + Self::wire_from(v, 1)
        } else if k == 1 {
            tv_wire::<u16>(v.spec_index, 14) + Self::wire_from(v, 2)
        } else if k == 2 {
            <Vec<FrequencyPowerLevel> as LLRPValue>::wire(v.frequency_power_level)
                + Self::wire_from(v, 3)
        } else if k == 3 {
            <Vec<CustomParameter> as LLRPValue>::wire(v.custom) + Self::wire_from(v, 4)
        } else {
            Seq::empty()
        }
    }

    /// The bytes of the fields, one field at a time.
    pub proof fn lemma_wire_from(v: RfSurveyReportView)
        ensures
            Self::wire_from(v, 0) == tv_wire::<u16>(v.ro_spec_id, 9) + Self::wire_from(v, 1),
            Self::wire_from(v, 1) == tv_wire::<u16>(v.spec_index, 14) + Self::wire_from(v, 2),
            Self::wire_from(v, 2) == <Vec<FrequencyPowerLevel> as LLRPValue>::wire(v.frequency_power_level)
                + Self::wire_from(v, 3),
            Self::wire_from(v, 3) == <Vec<CustomParameter> as LLRPValue>::wire(v.custom)
                + Self::wire_from(v, 4),
            Self::wire_from(v, 4) == Seq::<u8>::empty(),
    {
        reveal(RfSurveyReport::wire_from);
    }

    /// Whether the fields fit the format, each before the fields behind it.
    #[verifier::opaque]
    pub open spec fn fits(v: RfSurveyReportView) -> bool {
        &&& tv_follow_ok(v.ro_spec_id is Some, 9, Self::wire_from(v, 1))
        &&& tv_follow_ok(v.spec_index is Some, 14, Self::wire_from(v, 2))
        &&& <Vec<FrequencyPowerLevel> as LLRPValue>::canonical(v.frequency_power_level)
        &&& <Vec<FrequencyPowerLevel> as LLRPValue>::follow_ok(
            v.frequency_power_level,
            Self::wire_from(v, 3),
        )
        &&& <Vec<CustomParameter> as LLRPValue>::canonical(v.custom)
        &&& <Vec<CustomParameter> as LLRPValue>::follow_ok(v.custom, Self::wire_from(v, 4))
    }

    /// The fields read in order, or the first error.
    #[verifier::opaque]
    pub open spec fn read_fields(s: DecoderState) -> Result<
        (RfSurveyReportView, DecoderState),
        Error,
    > {
        match <Option<u16> as LLRPValue>::parse_tv(s, 9) {
            Err(e) => Err(e),
            Ok((ro_spec_id, s)) => match <Option<u16> as LLRPValue>::parse_tv(s, 14) {
                Err(e) => Err(e),
                Ok((spec_index, s)) => match <Vec<FrequencyPowerLevel> as LLRPValue>::parse(s) {
                    Err(e) => Err(e),
                    Ok((frequency_power_level, s)) => match <Vec<CustomParameter> as LLRPValue>::parse(s) {
                        Err(e) => Err(e),
                        Ok((custom, s)) => Ok(
                            (
                                RfSurveyReportView {
                                    ro_spec_id,
                                    spec_index,
                                    frequency_power_level,
                                    custom,
                                },
                                s,
                            ),
                        ),
                    },
                },
            },
        }
    }

    /// The state after the fields have been written in order.
    #[verifier::opaque]
    pub open spec fn write_fields(v: RfSurveyReportView, s: EncoderState) -> EncoderState {
        let s = <Option<u16> as LLRPValue>::emit_tv(v.ro_spec_id, s, 9);
        let s = <Option<u16> as LLRPValue>::emit_tv(v.spec_index, s, 14);
        let s = <Vec<FrequencyPowerLevel> as LLRPValue>::emit(v.frequency_power_level, s);
        let s = <Vec<CustomParameter> as LLRPValue>::emit(v.custom, s);
        s
    }
}

impl TlvParameter for RfSurveyReport {
    const ID: u16 = 242;

    open spec fn parse_body(s: DecoderState) -> Result<(RfSurveyReportView, DecoderState), Error> {
        Self::read_fields(s)
    }

    open spec fn emit_body(v: RfSurveyReportView, s: EncoderState) -> EncoderState {
        Self::write_fields(v, s)
    }

    open spec fn wire_body(v: RfSurveyReportView) -> Seq<u8> {
        Self::wire_from(v, 0)
    }

    open spec fn canonical_body(v: RfSurveyReportView) -> bool {
        Self::fits(v)
    }

    proof fn lemma_emit_body(v: RfSurveyReportView, s: EncoderState) {
        reveal(RfSurveyReport::write_fields);
        RfSurveyReport::lemma_wire_from(v);
        lemma_tv_written_u16(v.ro_spec_id, 9, s);
        let s1 = s.write_bytes(tv_wire::<u16>(v.ro_spec_id, 9));
        lemma_tv_written_u16(v.spec_index, 14, s1);
        let s2 = s1.write_bytes(tv_wire::<u16>(v.spec_index, 14));
        <Vec<FrequencyPowerLevel> as LLRPValue>::lemma_emit(v.frequency_power_level, s2);
        let s3 = s2.write_bytes(
            <Vec<FrequencyPowerLevel> as LLRPValue>::wire(v.frequency_power_level),
        );
        <Vec<CustomParameter> as LLRPValue>::lemma_emit(v.custom, s3);
        let s4 = s3.write_bytes(<Vec<CustomParameter> as LLRPValue>::wire(v.custom));
        lemma_concat_empty(s4.bytes);
        lemma_concat_assoc(
            s3.bytes,
            <Vec<CustomParameter> as LLRPValue>::wire(v.custom),
            RfSurveyReport::wire_from(v, 4),
        );
        lemma_concat_assoc(
            s2.bytes,
            <Vec<FrequencyPowerLevel> as LLRPValue>::wire(v.frequency_power_level),
            RfSurveyReport::wire_from(v, 3),
        );
        lemma_concat_assoc(
            s1.bytes,
            tv_wire::<u16>(v.spec_index, 14),
            RfSurveyReport::wire_from(v, 2),
        );
        lemma_concat_assoc(
            s.bytes,
            tv_wire::<u16>(v.ro_spec_id, 9),
            RfSurveyReport::wire_from(v, 1),
        );
    }

    proof fn lemma_parse_body(v: RfSurveyReportView) {
        reveal(RfSurveyReport::fits);
        reveal(RfSurveyReport::read_fields);
        if Self::canonical_body(v) {
            RfSurveyReport::lemma_wire_from(v);
            assert(<Option<u16> as LLRPValue>::parse_tv(DecoderState::start(Self::wire_from(v, 0)), 9) == Ok::<(Option<u16>, DecoderState), Error>((v.ro_spec_id, DecoderState::start(Self::wire_from(v, 1))))) by {
                lemma_tv_front_u16(v.ro_spec_id, 9, Self::wire_from(v, 1));
            }
            assert(<Option<u16> as LLRPValue>::parse_tv(DecoderState::start(Self::wire_from(v, 1)), 14) == Ok::<(Option<u16>, DecoderState), Error>((v.spec_index, DecoderState::start(Self::wire_from(v, 2))))) by {
                lemma_tv_front_u16(v.spec_index, 14, Self::wire_from(v, 2));
            }
            assert(<Vec<FrequencyPowerLevel> as LLRPValue>::parse(DecoderState::start(Self::wire_from(v, 2))) == Ok::<(Seq<FrequencyPowerLevel>, DecoderState), Error>((v.frequency_power_level, DecoderState::start(Self::wire_from(v, 3))))) by {
                <Vec<FrequencyPowerLevel> as LLRPValue>::lemma_parse(
                    v.frequency_power_level,
                    Self::wire_from(v, 3),
                );
            }
            assert(<Vec<CustomParameter> as LLRPValue>::parse(DecoderState::start(Self::wire_from(v, 3))) == Ok::<(Seq<CustomParameter>, DecoderState), Error>((v.custom, DecoderState::start(Self::wire_from(v, 4))))) by {
                <Vec<CustomParameter> as LLRPValue>::lemma_parse(v.custom, Self::wire_from(v, 4));
            }
        }
    }

    fn decode_body(decoder: &mut Decoder) -> (r: Result<Self, Error>) {
        proof {
            reveal(RfSurveyReport::read_fields);
        }
        let ro_spec_id = decoder.read_tv::<Option<u16>>(9)?;
        let spec_index = decoder.read_tv::<Option<u16>>(14)?;
        let frequency_power_level = decoder.read::<Vec<FrequencyPowerLevel>>()?;
        let custom = decoder.read::<Vec<CustomParameter>>()?;
        Ok(RfSurveyReport { ro_spec_id, spec_index, frequency_power_level, custom })
    }

    fn encode_body(&self, encoder: &mut Encoder) {
        proof {
            reveal(RfSurveyReport::write_fields);
        }
        encoder.write_tv(&self.ro_spec_id, 9);
        encoder.write_tv(&self.spec_index, 14);
        encoder.write(&self.frequency_power_level);
        encoder.write(&self.custom);
    }
}

/// The power measured in one band.
#[derive(Debug, PartialEq, Eq)]
pub struct FrequencyPowerLevel {
    pub frequency: u32,
    pub bandwidth: u32,
    pub average_rssi: u8,
    pub peak_rssi: u8,
    pub timestamp: UTCTimestamp,
}

impl DeepView for FrequencyPowerLevel {
    type V = FrequencyPowerLevel;

    open spec fn deep_view(&self) -> FrequencyPowerLevel {
        *self
    }
}

impl FrequencyPowerLevel {
    /// The bytes of the fields from the `k`-th on.
    #[verifier::opaque]
    pub open spec fn wire_from(v: FrequencyPowerLevel, k: nat) -> Seq<u8>
        decreases 5 - k,
    {
        if k == 0 {
            <u32 as LLRPValue>::wire(v.frequency) + Self::wire_from(v, 1)
        } else if k == 1 {
            <u32 as LLRPValue>::wire(v.bandwidth) + Self::wire_from(v, 2)
        } else if k == 2 {
            <u8 as LLRPValue>::wire(v.average_rssi) + Self::wire_from(v, 3)
        } else if k == 3 {
            <u8 as LLRPValue>::wire(v.peak_rssi) + Self::wire_from(v, 4)
        } else if k == 4 {
            <UTCTimestamp as LLRPValue>::wire(v.timestamp) + Self::wire_from(v, 5)
        } else {
            Seq::empty()
        }
    }

    /// The bytes of the fields, one field at a time.
    pub proof fn lemma_wire_from(v: FrequencyPowerLevel)
        ensures
            Self::wire_from(v, 0) == <u32 as LLRPValue>::wire(v.frequency) + Self::wire_from(v, 1),
            Self::wire_from(v, 1) == <u32 as LLRPValue>::wire(v.bandwidth) + Self::wire_from(v, 2),
            Self::wire_from(v, 2) == <u8 as LLRPValue>::wire(v.average_rssi)
                + Self::wire_from(v, 3),
            Self::wire_from(v, 3) == <u8 as LLRPValue>::wire(v.peak_rssi) + Self::wire_from(v, 4),
            Self::wire_from(v, 4) == <UTCTimestamp as LLRPValue>::wire(v.timestamp)
                + Self::wire_from(v, 5),
            Self::wire_from(v, 5) == Seq::<u8>::empty(),
    {
        reveal(FrequencyPowerLevel::wire_from);
    }

    /// Whether the fields fit the format, each before the fields behind it.
    #[verifier::opaque]
    pub open spec fn fits(v: FrequencyPowerLevel) -> bool {
        &&& <UTCTimestamp as LLRPValue>::canonical(v.timestamp)
    }

    /// The first fields read in order, or the first error.
    #[verifier::opaque]
    pub open spec fn read_front(s: DecoderState) -> Result<((u32, u32), DecoderState), Error> {
        match <u32 as LLRPValue>::parse(s) {
            Err(e) => Err(e),
            Ok((frequency, s)) => match <u32 as LLRPValue>::parse(s) {
                Err(e) => Err(e),
                Ok((bandwidth, s)) => Ok(((frequency, bandwidth), s)),
            },
        }
    }

    /// The other fields read in order behind the first, or the first error.
    #[verifier::opaque]
    pub open spec fn read_back(front: (u32, u32), s: DecoderState) -> Result<
        (FrequencyPowerLevel, DecoderState),
        Error,
    > {
        match <u8 as LLRPValue>::parse(s) {
            Err(e) => Err(e),
            Ok((average_rssi, s)) => match <u8 as LLRPValue>::parse(s) {
                Err(e) => Err(e),
                Ok((peak_rssi, s)) => match <UTCTimestamp as LLRPValue>::parse(s) {
                    Err(e) => Err(e),
                    Ok((timestamp, s)) => Ok((FrequencyPowerLevel { frequency: front.0, bandwidth: front.1, average_rssi, peak_rssi, timestamp }, s)),
                },
            },
        }
    }

    /// The fields read in order, or the first error.
    #[verifier::opaque]
    pub open spec fn read_fields(s: DecoderState) -> Result<
        (FrequencyPowerLevel, DecoderState),
        Error,
    > {
        match Self::read_front(s) {
            Err(e) => Err(e),
            Ok((front, s)) => Self::read_back(front, s),
        }
    }

    /// The state after the fields have been written in order.
    #[verifier::opaque]
    pub open spec fn write_fields(v: FrequencyPowerLevel, s: EncoderState) -> EncoderState {
        let s = <u32 as LLRPValue>::emit(v.frequency, s);
        let s = <u32 as LLRPValue>::emit(v.bandwidth, s);
        let s = <u8 as LLRPValue>::emit(v.average_rssi, s);
        let s = <u8 as LLRPValue>::emit(v.peak_rssi, s);
        let s = <UTCTimestamp as LLRPValue>::emit(v.timestamp, s);
        s
    }

    fn decode_front(decoder: &mut Decoder) -> (r: Result<(u32, u32), Error>)
        ensures
            match Self::read_front(old(decoder)@) {
                Ok((front, s)) => {
                    &&& r is Ok
                    &&& r->Ok_0.0 == front.0
                    &&& r->Ok_0.1 == front.1
                    &&& final(decoder)@ == s
                },
                Err(e) => r == Err::<(u32, u32), Error>(e),
            },
    {
        proof {
            reveal(FrequencyPowerLevel::read_front);
        }
        let frequency = decoder.read::<u32>()?;
        let bandwidth = decoder.read::<u32>()?;
        Ok((frequency, bandwidth))
    }

    fn decode_back(front: (u32, u32), decoder: &mut Decoder) -> (r: Result<FrequencyPowerLevel, Error>)
        ensures
            decoded::<FrequencyPowerLevel>(
                Self::read_back((front.0, front.1), old(decoder)@),
                r,
                final(decoder)@,
            ),
    {
        proof {
            reveal(FrequencyPowerLevel::read_back);
        }
        let average_rssi = decoder.read::<u8>()?;
        let peak_rssi = decoder.read::<u8>()?;
        let timestamp = decoder.read::<UTCTimestamp>()?;
        Ok(FrequencyPowerLevel { frequency: front.0, bandwidth: front.1, average_rssi, peak_rssi, timestamp })
    }

    /// The first fields are read back from the bytes of all.
    pub proof fn lemma_parse_front(v: FrequencyPowerLevel)
        ensures
            Self::fits(v) ==> Self::read_front(DecoderState::start(Self::wire_from(v, 0))) == Ok::<
                ((u32, u32), DecoderState),
                Error,
            >(((v.frequency, v.bandwidth), DecoderState::start(Self::wire_from(v, 2)))),
    {
        reveal(FrequencyPowerLevel::fits);
        reveal(FrequencyPowerLevel::read_front);
        if Self::fits(v) {
            FrequencyPowerLevel::lemma_wire_from(v);
            assert(<u32 as LLRPValue>::parse(DecoderState::start(Self::wire_from(v, 0))) == Ok::<(u32, DecoderState), Error>((v.frequency, DecoderState::start(Self::wire_from(v, 1))))) by {
                <u32 as LLRPValue>::lemma_parse(v.frequency, Self::wire_from(v, 1));
            }
            assert(<u32 as LLRPValue>::parse(DecoderState::start(Self::wire_from(v, 1))) == Ok::<(u32, DecoderState), Error>((v.bandwidth, DecoderState::start(Self::wire_from(v, 2))))) by {
                <u32 as LLRPValue>::lemma_parse(v.bandwidth, Self::wire_from(v, 2));
            }
        }
    }

    /// The other fields are read back from the bytes behind the first.
    pub proof fn lemma_parse_back(v: FrequencyPowerLevel)
        ensures
            Self::fits(
                v) ==> Self::read_back((v.frequency,
                v.bandwidth), DecoderState::start(Self::wire_from(v, 2)),
            )
                == Ok::<(
                    FrequencyPowerLevel,
                    DecoderState), Error>((v,
                    DecoderState::start(Seq::empty())),
                ),
    {
        reveal(FrequencyPowerLevel::fits);
        reveal(FrequencyPowerLevel::read_back);
        if Self::fits(v) {
            FrequencyPowerLevel::lemma_wire_from(v);
            assert(<u8 as LLRPValue>::parse(DecoderState::start(Self::wire_from(v, 2))) == Ok::<(u8, DecoderState), Error>((v.average_rssi, DecoderState::start(Self::wire_from(v, 3))))) by {
                <u8 as LLRPValue>::lemma_parse(v.average_rssi, Self::wire_from(v, 3));
            }
            assert(<u8 as LLRPValue>::parse(DecoderState::start(Self::wire_from(v, 3))) == Ok::<(u8, DecoderState), Error>((v.peak_rssi, DecoderState::start(Self::wire_from(v, 4))))) by {
                <u8 as LLRPValue>::lemma_parse(v.peak_rssi, Self::wire_from(v, 4));
            }
            assert(<UTCTimestamp as LLRPValue>::parse(DecoderState::start(Self::wire_from(v, 4))) == Ok::<(UTCTimestamp, DecoderState), Error>((v.timestamp, DecoderState::start(Self::wire_from(v, 5))))) by {
                <UTCTimestamp as LLRPValue>::lemma_parse(v.timestamp, Self::wire_from(v, 5));
            }
        }
    }
}

impl TlvParameter for FrequencyPowerLevel {
    const ID: u16 = 243;

    open spec fn parse_body(s: DecoderState) -> Result<(FrequencyPowerLevel, DecoderState), Error> {
        Self::read_fields(s)
    }

    open spec fn emit_body(v: FrequencyPowerLevel, s: EncoderState) -> EncoderState {
        Self::write_fields(v, s)
    }

    open spec fn wire_body(v: FrequencyPowerLevel) -> Seq<u8> {
        Self::wire_from(v, 0)
    }

    open spec fn canonical_body(v: FrequencyPowerLevel) -> bool {
        Self::fits(v)
    }

    proof fn lemma_emit_body(v: FrequencyPowerLevel, s: EncoderState) {
        reveal(FrequencyPowerLevel::write_fields);
        FrequencyPowerLevel::lemma_wire_from(v);
        <u32 as LLRPValue>::lemma_emit(v.frequency, s);
        let s1 = s.write_bytes(<u32 as LLRPValue>::wire(v.frequency));
        <u32 as LLRPValue>::lemma_emit(v.bandwidth, s1);
        let s2 = s1.write_bytes(<u32 as LLRPValue>::wire(v.bandwidth));
        <u8 as LLRPValue>::lemma_emit(v.average_rssi, s2);
        let s3 = s2.write_bytes(<u8 as LLRPValue>::wire(v.average_rssi));
        <u8 as LLRPValue>::lemma_emit(v.peak_rssi, s3);
        let s4 = s3.write_bytes(<u8 as LLRPValue>::wire(v.peak_rssi));
        <UTCTimestamp as LLRPValue>::lemma_emit(v.timestamp, s4);
        let s5 = s4.write_bytes(<UTCTimestamp as LLRPValue>::wire(v.timestamp));
        lemma_concat_empty(s5.bytes);
        lemma_concat_assoc(
            s4.bytes,
            <UTCTimestamp as LLRPValue>::wire(v.timestamp),
            FrequencyPowerLevel::wire_from(v, 5),
        );
        lemma_concat_assoc(
            s3.bytes,
            <u8 as LLRPValue>::wire(v.peak_rssi),
            FrequencyPowerLevel::wire_from(v, 4),
        );
        lemma_concat_assoc(
            s2.bytes,
            <u8 as LLRPValue>::wire(v.average_rssi),
            FrequencyPowerLevel::wire_from(v, 3),
        );
        lemma_concat_assoc(
            s1.bytes,
            <u32 as LLRPValue>::wire(v.bandwidth),
            FrequencyPowerLevel::wire_from(v, 2),
        );
        lemma_concat_assoc(
            s.bytes,
            <u32 as LLRPValue>::wire(v.frequency),
            FrequencyPowerLevel::wire_from(v, 1),
        );
    }

    proof fn lemma_parse_body(v: FrequencyPowerLevel) {
        FrequencyPowerLevel::lemma_parse_front(v);
        FrequencyPowerLevel::lemma_parse_back(v);
        reveal(FrequencyPowerLevel::read_fields);
    }

    fn decode_body(decoder: &mut Decoder) -> (r: Result<Self, Error>) {
        proof {
            reveal(FrequencyPowerLevel::read_fields);
        }
        let front = Self::decode_front(decoder)?;
        Self::decode_back(front, decoder)
    }

    fn encode_body(&self, encoder: &mut Encoder) {
        proof {
            reveal(FrequencyPowerLevel::write_fields);
        }
        encoder.write(&self.frequency);
        encoder.write(&self.bandwidth);
        encoder.write(&self.average_rssi);
        encoder.write(&self.peak_rssi);
        encoder.write(&self.timestamp);
    }
}

/// The outcome of a read.
#[derive(Debug, PartialEq, Eq)]
pub struct C1G2ReadOpSpecResult {
    pub result: u8,
    pub op_spec_id: u16,
    pub read_data: Vec<u16>,
}

/// The model of a `C1G2ReadOpSpecResult`.
pub struct C1G2ReadOpSpecResultView {
    pub result: u8,
    pub op_spec_id: u16,
    pub read_data: Seq<u16>,
}

impl DeepView for C1G2ReadOpSpecResult {
    type V = C1G2ReadOpSpecResultView;

    open spec fn deep_view(&self) -> C1G2ReadOpSpecResultView {
        C1G2ReadOpSpecResultView {
            result: self.result,
            op_spec_id: self.op_spec_id,
            read_data: self.read_data.deep_view(),
        }
    }
}

impl C1G2ReadOpSpecResult {
    /// The bytes of the fields from the `k`-th on.
    #[verifier::opaque]
    pub open spec fn wire_from(v: C1G2ReadOpSpecResultView, k: nat) -> Seq<u8>
        decreases 3 - k,
    {
        if k == 0 {
            <u8 as LLRPValue>::wire(v.result) + Self::wire_from(v, 1)
        } else if k == 1 {
            <u16 as LLRPValue>::wire(v.op_spec_id) + Self::wire_from(v, 2)
        } else if k == 2 {
            array_wire::<u16>(v.read_data) + Self::wire_from(v, 3)
        } else {
            Seq::empty()
        }
    }

    /// The bytes of the fields, one field at a time.
    pub proof fn lemma_wire_from(v: C1G2ReadOpSpecResultView)
        ensures
            Self::wire_from(v, 0) == <u8 as LLRPValue>::wire(v.result) + Self::wire_from(v, 1),
            Self::wire_from(v, 1) == <u16 as LLRPValue>::wire(v.op_spec_id) + Self::wire_from(v, 2),
            Self::wire_from(v, 2) == array_wire::<u16>(v.read_data) + Self::wire_from(v, 3),
            Self::wire_from(v, 3) == Seq::<u8>::empty(),
    {
        reveal(C1G2ReadOpSpecResult::wire_from);
    }

    /// Whether the fields fit the format, each before the fields behind it.
    #[verifier::opaque]
    pub open spec fn fits(v: C1G2ReadOpSpecResultView) -> bool {
        &&& array_canonical::<u16>(v.read_data)
    }

    /// The fields read in order, or the first error.
    #[verifier::opaque]
    pub open spec fn read_fields(s: DecoderState) -> Result<
        (C1G2ReadOpSpecResultView, DecoderState),
        Error,
    > {
        match <u8 as LLRPValue>::parse(s) {
            Err(e) => Err(e),
            Ok((result, s)) => match <u16 as LLRPValue>::parse(s) {
                Err(e) => Err(e),
                Ok((op_spec_id, s)) => match parse_array::<u16>(s) {
                    Err(e) => Err(e),
                    Ok((read_data, s)) => Ok((C1G2ReadOpSpecResultView { result, op_spec_id, read_data }, s)),
                },
            },
        }
    }

    /// The state after the fields have been written in order.
    #[verifier::opaque]
    pub open spec fn write_fields(v: C1G2ReadOpSpecResultView, s: EncoderState) -> EncoderState {
        let s = <u8 as LLRPValue>::emit(v.result, s);
        let s = <u16 as LLRPValue>::emit(v.op_spec_id, s);
        let s = emit_array::<u16>(v.read_data, s);
        s
    }
}

impl TlvParameter for C1G2ReadOpSpecResult {
    const ID: u16 = 349;

    open spec fn parse_body(s: DecoderState) -> Result<
        (C1G2ReadOpSpecResultView, DecoderState),
        Error,
    > {
        Self::read_fields(s)
    }

    open spec fn emit_body(v: C1G2ReadOpSpecResultView, s: EncoderState) -> EncoderState {
        Self::write_fields(v, s)
    }

    open spec fn wire_body(v: C1G2ReadOpSpecResultView) -> Seq<u8> {
        Self::wire_from(v, 0)
    }

    open spec fn canonical_body(v: C1G2ReadOpSpecResultView) -> bool {
        Self::fits(v)
    }

    proof fn lemma_emit_body(v: C1G2ReadOpSpecResultView, s: EncoderState) {
        reveal(C1G2ReadOpSpecResult::write_fields);
        C1G2ReadOpSpecResult::lemma_wire_from(v);
        <u8 as LLRPValue>::lemma_emit(v.result, s);
        let s1 = s.write_bytes(<u8 as LLRPValue>::wire(v.result));
        <u16 as LLRPValue>::lemma_emit(v.op_spec_id, s1);
        let s2 = s1.write_bytes(<u16 as LLRPValue>::wire(v.op_spec_id));
        lemma_array_written::<u16>(v.read_data, s2);
        let s3 = s2.write_bytes(array_wire::<u16>(v.read_data));
        lemma_concat_empty(s3.bytes);
        lemma_concat_assoc(
            s2.bytes,
            array_wire::<u16>(v.read_data),
            C1G2ReadOpSpecResult::wire_from(v, 3),
        );
        lemma_concat_assoc(
            s1.bytes,
            <u16 as LLRPValue>::wire(v.op_spec_id),
            C1G2ReadOpSpecResult::wire_from(v, 2),
        );
        lemma_concat_assoc(
            s.bytes,
            <u8 as LLRPValue>::wire(v.result),
            C1G2ReadOpSpecResult::wire_from(v, 1),
        );
    }

    proof fn lemma_parse_body(v: C1G2ReadOpSpecResultView) {
        reveal(C1G2ReadOpSpecResult::fits);
        reveal(C1G2ReadOpSpecResult::read_fields);
        if Self::canonical_body(v) {
            C1G2ReadOpSpecResult::lemma_wire_from(v);
            assert(<u8 as LLRPValue>::parse(DecoderState::start(Self::wire_from(v, 0))) == Ok::<(u8, DecoderState), Error>((v.result, DecoderState::start(Self::wire_from(v, 1))))) by {
                <u8 as LLRPValue>::lemma_parse(v.result, Self::wire_from(v, 1));
            }
            assert(<u16 as LLRPValue>::parse(DecoderState::start(Self::wire_from(v, 1))) == Ok::<(u16, DecoderState), Error>((v.op_spec_id, DecoderState::start(Self::wire_from(v, 2))))) by {
                <u16 as LLRPValue>::lemma_parse(v.op_spec_id, Self::wire_from(v, 2));
            }
            assert(parse_array::<u16>(DecoderState::start(Self::wire_from(v, 2))) == Ok::<(Seq<u16>, DecoderState), Error>((v.read_data, DecoderState::start(Self::wire_from(v, 3))))) by {
                lemma_array_front::<u16>(v.read_data, Self::wire_from(v, 3));
            }
        }
    }

    fn decode_body(decoder: &mut Decoder) -> (r: Result<Self, Error>) {
        proof {
            reveal(C1G2ReadOpSpecResult::read_fields);
        }
        let result = decoder.read::<u8>()?;
        let op_spec_id = decoder.read::<u16>()?;
        let read_read_data = |d: &mut Decoder| -> (r: Result<u16, Error>)
            ensures
                decoded::<u16>(<u16 as LLRPValue>::parse(old(d)@), r, final(d)@),
            {
                d.read::<u16>()
            };
        let ghost read_data_reader = read_read_data;
        let ghost read_data_start = decoder@;
        let read_data = decoder.array(read_read_data);
        proof {
            lemma_array_decoded::<u16, _>(read_data_reader, read_data_start, read_data, decoder@);
        }
        let read_data = read_data?;
        Ok(C1G2ReadOpSpecResult { result, op_spec_id, read_data })
    }

    fn encode_body(&self, encoder: &mut Encoder) {
        proof {
            reveal(C1G2ReadOpSpecResult::write_fields);
        }
        encoder.write(&self.result);
        encoder.write(&self.op_spec_id);
        let write_read_data = |e: &mut Encoder, x: &u16|
            ensures
                final(e)@ == <u16 as LLRPValue>::emit(x.deep_view(), old(e)@),
            {
                e.write(x)
            };
        let ghost read_data_writer = write_read_data;
        let ghost read_data_start = encoder@;
        encoder.array(self.read_data.as_slice(), write_read_data);
        proof {
            lemma_array_encoded::<u16, _>(
                read_data_writer,
                read_data_start,
                self.read_data@,
                encoder@,
            );
        }
    }
}

/// The outcome of a write.
#[derive(Debug, PartialEq, Eq)]
pub struct C1G2WriteOpSpecResult {
    pub result: u8,
    pub op_spec_id: u16,
    pub words_written: u16,
}

impl DeepView for C1G2WriteOpSpecResult {
    type V = C1G2WriteOpSpecResult;

    open spec fn deep_view(&self) -> C1G2WriteOpSpecResult {
        *self
    }
}

impl C1G2WriteOpSpecResult {
    /// The bytes of the fields from the `k`-th on.
    #[verifier::opaque]
    pub open spec fn wire_from(v: C1G2WriteOpSpecResult, k: nat) -> Seq<u8>
        decreases 3 - k,
    {
        if k == 0 {
            <u8 as LLRPValue>::wire(v.result) + Self::wire_from(v, 1)
        } else if k == 1 {
            <u16 as LLRPValue>::wire(v.op_spec_id) + Self::wire_from(v, 2)
        } else if k == 2 {
            <u16 as LLRPValue>::wire(v.words_written) + Self::wire_from(v, 3)
        } else {
            Seq::empty()
        }
    }

    /// The bytes of the fields, one field at a time.
    pub proof fn lemma_wire_from(v: C1G2WriteOpSpecResult)
        ensures
            Self::wire_from(v, 0) == <u8 as LLRPValue>::wire(v.result) + Self::wire_from(v, 1),
            Self::wire_from(v, 1) == <u16 as LLRPValue>::wire(v.op_spec_id) + Self::wire_from(v, 2),
            Self::wire_from(v, 2) == <u16 as LLRPValue>::wire(v.words_written)
                + Self::wire_from(v, 3),
            Self::wire_from(v, 3) == Seq::<u8>::empty(),
    {
        reveal(C1G2WriteOpSpecResult::wire_from);
    }

    /// Whether the fields fit the format, each before the fields behind it.
    #[verifier::opaque]
    pub open spec fn fits(v: C1G2WriteOpSpecResult) -> bool {
        true
    }

    /// The fields read in order, or the first error.
    #[verifier::opaque]
    pub open spec fn read_fields(s: DecoderState) -> Result<
        (C1G2WriteOpSpecResult, DecoderState),
        Error,
    > {
        match <u8 as LLRPValue>::parse(s) {
            Err(e) => Err(e),
            Ok((result, s)) => match <u16 as LLRPValue>::parse(s) {
                Err(e) => Err(e),
                Ok((op_spec_id, s)) => match <u16 as LLRPValue>::parse(s) {
                    Err(e) => Err(e),
                    Ok((words_written, s)) => Ok((C1G2WriteOpSpecResult { result, op_spec_id, words_written }, s)),
                },
            },
        }
    }

    /// The state after the fields have been written in order.
    #[verifier::opaque]
    pub open spec fn write_fields(v: C1G2WriteOpSpecResult, s: EncoderState) -> EncoderState {
        let s = <u8 as LLRPValue>::emit(v.result, s);
        let s = <u16 as LLRPValue>::emit(v.op_spec_id, s);
        let s = <u16 as LLRPValue>::emit(v.words_written, s);
        s
    }
}

impl TlvParameter for C1G2WriteOpSpecResult {
    const ID: u16 = 350;

    open spec fn parse_body(s: DecoderState) -> Result<
        (C1G2WriteOpSpecResult, DecoderState),
        Error,
    > {
        Self::read_fields(s)
    }

    open spec fn emit_body(v: C1G2WriteOpSpecResult, s: EncoderState) -> EncoderState {
        Self::write_fields(v, s)
    }

    open spec fn wire_body(v: C1G2WriteOpSpecResult) -> Seq<u8> {
        Self::wire_from(v, 0)
    }

    open spec fn canonical_body(v: C1G2WriteOpSpecResult) -> bool {
        Self::fits(v)
    }

    proof fn lemma_emit_body(v: C1G2WriteOpSpecResult, s: EncoderState) {
        reveal(C1G2WriteOpSpecResult::write_fields);
        C1G2WriteOpSpecResult::lemma_wire_from(v);
        <u8 as LLRPValue>::lemma_emit(v.result, s);
        let s1 = s.write_bytes(<u8 as LLRPValue>::wire(v.result));
        <u16 as LLRPValue>::lemma_emit(v.op_spec_id, s1);
        let s2 = s1.write_bytes(<u16 as LLRPValue>::wire(v.op_spec_id));
        <u16 as LLRPValue>::lemma_emit(v.words_written, s2);
        let s3 = s2.write_bytes(<u16 as LLRPValue>::wire(v.words_written));
        lemma_concat_empty(s3.bytes);
        lemma_concat_assoc(
            s2.bytes,
            <u16 as LLRPValue>::wire(v.words_written),
            C1G2WriteOpSpecResult::wire_from(v, 3),
        );
        lemma_concat_assoc(
            s1.bytes,
            <u16 as LLRPValue>::wire(v.op_spec_id),
            C1G2WriteOpSpecResult::wire_from(v, 2),
        );
        lemma_concat_assoc(
            s.bytes,
            <u8 as LLRPValue>::wire(v.result),
            C1G2WriteOpSpecResult::wire_from(v, 1),
        );
    }

    proof fn lemma_parse_body(v: C1G2WriteOpSpecResult) {
        reveal(C1G2WriteOpSpecResult::fits);
        reveal(C1G2WriteOpSpecResult::read_fields);
        if Self::canonical_body(v) {
            C1G2WriteOpSpecResult::lemma_wire_from(v);
            assert(<u8 as LLRPValue>::parse(DecoderState::start(Self::wire_from(v, 0))) == Ok::<(u8, DecoderState), Error>((v.result, DecoderState::start(Self::wire_from(v, 1))))) by {
                <u8 as LLRPValue>::lemma_parse(v.result, Self::wire_from(v, 1));
            }
            assert(<u16 as LLRPValue>::parse(DecoderState::start(Self::wire_from(v, 1))) == Ok::<(u16, DecoderState), Error>((v.op_spec_id, DecoderState::start(Self::wire_from(v, 2))))) by {
                <u16 as LLRPValue>::lemma_parse(v.op_spec_id, Self::wire_from(v, 2));
            }
            assert(<u16 as LLRPValue>::parse(DecoderState::start(Self::wire_from(v, 2))) == Ok::<(u16, DecoderState), Error>((v.words_written, DecoderState::start(Self::wire_from(v, 3))))) by {
                <u16 as LLRPValue>::lemma_parse(v.words_written, Self::wire_from(v, 3));
            }
        }
    }

    fn decode_body(decoder: &mut Decoder) -> (r: Result<Self, Error>) {
        proof {
            reveal(C1G2WriteOpSpecResult::read_fields);
        }
        let result = decoder.read::<u8>()?;
        let op_spec_id = decoder.read::<u16>()?;
        let words_written = decoder.read::<u16>()?;
        Ok(C1G2WriteOpSpecResult { result, op_spec_id, words_written })
    }

    fn encode_body(&self, encoder: &mut Encoder) {
        proof {
            reveal(C1G2WriteOpSpecResult::write_fields);
        }
        encoder.write(&self.result);
        encoder.write(&self.op_spec_id);
        encoder.write(&self.words_written);
    }
}

/// The outcome of a kill.
#[derive(Debug, PartialEq, Eq)]
pub struct C1G2KillOpSpecResult {
    pub result: u8,
    pub op_spec_id: u16,
}

impl DeepView for C1G2KillOpSpecResult {
    type V = C1G2KillOpSpecResult;

    open spec fn deep_view(&self) -> C1G2KillOpSpecResult {
        *self
    }
}

impl C1G2KillOpSpecResult {
    /// The bytes of the fields from the `k`-th on.
    #[verifier::opaque]
    pub open spec fn wire_from(v: C1G2KillOpSpecResult, k: nat) -> Seq<u8>
        decreases 2 - k,
    {
        if k == 0 {
            <u8 as LLRPValue>::wire(v.result) + Self::wire_from(v, 1)
        } else if k == 1 {
            <u16 as LLRPValue>::wire(v.op_spec_id) + Self::wire_from(v, 2)
        } else {
            Seq::empty()
        }
    }

    /// The bytes of the fields, one field at a time.
    pub proof fn lemma_wire_from(v: C1G2KillOpSpecResult)
        ensures
            Self::wire_from(v, 0) == <u8 as LLRPValue>::wire(v.result) + Self::wire_from(v, 1),
            Self::wire_from(v, 1) == <u16 as LLRPValue>::wire(v.op_spec_id) + Self::wire_from(v, 2),
            Self::wire_from(v, 2) == Seq::<u8>::empty(),
    {
        reveal(C1G2KillOpSpecResult::wire_from);
    }

    /// Whether the fields fit the format, each before the fields behind it.
    #[verifier::opaque]
    pub open spec fn fits(v: C1G2KillOpSpecResult) -> bool {
        true
    }

    /// The fields read in order, or the first error.
    #[verifier::opaque]
    pub open spec fn read_fields(s: DecoderState) -> Result<
        (C1G2KillOpSpecResult, DecoderState),
        Error,
    > {
        match <u8 as LLRPValue>::parse(s) {
            Err(e) => Err(e),
            Ok((result, s)) => match <u16 as LLRPValue>::parse(s) {
                Err(e) => Err(e),
                Ok((op_spec_id, s)) => Ok((C1G2KillOpSpecResult { result, op_spec_id }, s)),
            },
        }
    }

    /// The state after the fields have been written in order.
    #[verifier::opaque]
    pub open spec fn write_fields(v: C1G2KillOpSpecResult, s: EncoderState) -> EncoderState {
        let s = <u8 as LLRPValue>::emit(v.result, s);
        let s = <u16 as LLRPValue>::emit(v.op_spec_id, s);
        s
    }
}

impl TlvParameter for C1G2KillOpSpecResult {
    const ID: u16 = 351;

    open spec fn parse_body(s: DecoderState) -> Result<
        (C1G2KillOpSpecResult, DecoderState),
        Error,
    > {
        Self::read_fields(s)
    }

    open spec fn emit_body(v: C1G2KillOpSpecResult, s: EncoderState) -> EncoderState {
        Self::write_fields(v, s)
    }

    open spec fn wire_body(v: C1G2KillOpSpecResult) -> Seq<u8> {
        Self::wire_from(v, 0)
    }

    open spec fn canonical_body(v: C1G2KillOpSpecResult) -> bool {
        Self::fits(v)
    }

    proof fn lemma_emit_body(v: C1G2KillOpSpecResult, s: EncoderState) {
        reveal(C1G2KillOpSpecResult::write_fields);
        C1G2KillOpSpecResult::lemma_wire_from(v);
        <u8 as LLRPValue>::lemma_emit(v.result, s);
        let s1 = s.write_bytes(<u8 as LLRPValue>::wire(v.result));
        <u16 as LLRPValue>::lemma_emit(v.op_spec_id, s1);
        let s2 = s1.write_bytes(<u16 as LLRPValue>::wire(v.op_spec_id));
        lemma_concat_empty(s2.bytes);
        lemma_concat_assoc(
            s1.bytes,
            <u16 as LLRPValue>::wire(v.op_spec_id),
            C1G2KillOpSpecResult::wire_from(v, 2),
        );
        lemma_concat_assoc(
            s.bytes,
            <u8 as LLRPValue>::wire(v.result),
            C1G2KillOpSpecResult::wire_from(v, 1),
        );
    }

    proof fn lemma_parse_body(v: C1G2KillOpSpecResult) {
        reveal(C1G2KillOpSpecResult::fits);
        reveal(C1G2KillOpSpecResult::read_fields);
        if Self::canonical_body(v) {
            C1G2KillOpSpecResult::lemma_wire_from(v);
            assert(<u8 as LLRPValue>::parse(DecoderState::start(Self::wire_from(v, 0))) == Ok::<(u8, DecoderState), Error>((v.result, DecoderState::start(Self::wire_from(v, 1))))) by {
                <u8 as LLRPValue>::lemma_parse(v.result, Self::wire_from(v, 1));
            }
            assert(<u16 as LLRPValue>::parse(DecoderState::start(Self::wire_from(v, 1))) == Ok::<(u16, DecoderState), Error>((v.op_spec_id, DecoderState::start(Self::wire_from(v, 2))))) by {
                <u16 as LLRPValue>::lemma_parse(v.op_spec_id, Self::wire_from(v, 2));
            }
        }
    }

    fn decode_body(decoder: &mut Decoder) -> (r: Result<Self, Error>) {
        proof {
            reveal(C1G2KillOpSpecResult::read_fields);
        }
        let result = decoder.read::<u8>()?;
        let op_spec_id = decoder.read::<u16>()?;
        Ok(C1G2KillOpSpecResult { result, op_spec_id })
    }

    fn encode_body(&self, encoder: &mut Encoder) {
        proof {
            reveal(C1G2KillOpSpecResult::write_fields);
        }
        encoder.write(&self.result);
        encoder.write(&self.op_spec_id);
    }
}

/// The outcome of a recommission.
#[derive(Debug, PartialEq, Eq)]
pub struct C1G2RecommissionOpSpecResult {
    pub result: u8,
    pub op_spec_id: u16,
}

impl DeepView for C1G2RecommissionOpSpecResult {
    type V = C1G2RecommissionOpSpecResult;

    open spec fn deep_view(&self) -> C1G2RecommissionOpSpecResult {
        *self
    }
}

impl C1G2RecommissionOpSpecResult {
    /// The bytes of the fields from the `k`-th on.
    #[verifier::opaque]
    pub open spec fn wire_from(v: C1G2RecommissionOpSpecResult, k: nat) -> Seq<u8>
        decreases 2 - k,
    {
        if k == 0 {
            <u8 as LLRPValue>::wire(v.result) + Self::wire_from(v, 1)
        } else if k == 1 {
            <u16 as LLRPValue>::wire(v.op_spec_id) + Self::wire_from(v, 2)
        } else {
            Seq::empty()
        }
    }

    /// The bytes of the fields, one field at a time.
    pub proof fn lemma_wire_from(v: C1G2RecommissionOpSpecResult)
        ensures
            Self::wire_from(v, 0) == <u8 as LLRPValue>::wire(v.result) + Self::wire_from(v, 1),
            Self::wire_from(v, 1) == <u16 as LLRPValue>::wire(v.op_spec_id) + Self::wire_from(v, 2),
            Self::wire_from(v, 2) == Seq::<u8>::empty(),
    {
        reveal(C1G2RecommissionOpSpecResult::wire_from);
    }

    /// Whether the fields fit the format, each before the fields behind it.
    #[verifier::opaque]
    pub open spec fn fits(v: C1G2RecommissionOpSpecResult) -> bool {
        true
    }

    /// The fields read in order, or the first error.
    #[verifier::opaque]
    pub open spec fn read_fields(s: DecoderState) -> Result<
        (C1G2RecommissionOpSpecResult, DecoderState),
        Error,
    > {
        match <u8 as LLRPValue>::parse(s) {
            Err(e) => Err(e),
            Ok((result, s)) => match <u16 as LLRPValue>::parse(s) {
                Err(e) => Err(e),
                Ok((op_spec_id, s)) => Ok((C1G2RecommissionOpSpecResult { result, op_spec_id }, s)),
            },
        }
    }

    /// The state after the fields have been written in order.
    #[verifier::opaque]
    pub open spec fn write_fields(v: C1G2RecommissionOpSpecResult, s: EncoderState) -> EncoderState {
        let s = <u8 as LLRPValue>::emit(v.result, s);
        let s = <u16 as LLRPValue>::emit(v.op_spec_id, s);
        s
    }
}

impl TlvParameter for C1G2RecommissionOpSpecResult {
    const ID: u16 = 360;

    open spec fn parse_body(s: DecoderState) -> Result<
        (C1G2RecommissionOpSpecResult, DecoderState),
        Error,
    > {
        Self::read_fields(s)
    }

    open spec fn emit_body(v: C1G2RecommissionOpSpecResult, s: EncoderState) -> EncoderState {
        Self::write_fields(v, s)
    }

    open spec fn wire_body(v: C1G2RecommissionOpSpecResult) -> Seq<u8> {
        Self::wire_from(v, 0)
    }

    open spec fn canonical_body(v: C1G2RecommissionOpSpecResult) -> bool {
        Self::fits(v)
    }

    proof fn lemma_emit_body(v: C1G2RecommissionOpSpecResult, s: EncoderState) {
        reveal(C1G2RecommissionOpSpecResult::write_fields);
        C1G2RecommissionOpSpecResult::lemma_wire_from(v);
        <u8 as LLRPValue>::lemma_emit(v.result, s);
        let s1 = s.write_bytes(<u8 as LLRPValue>::wire(v.result));
        <u16 as LLRPValue>::lemma_emit(v.op_spec_id, s1);
        let s2 = s1.write_bytes(<u16 as LLRPValue>::wire(v.op_spec_id));
        lemma_concat_empty(s2.bytes);
        lemma_concat_assoc(
            s1.bytes,
            <u16 as LLRPValue>::wire(v.op_spec_id),
            C1G2RecommissionOpSpecResult::wire_from(v, 2),
        );
        lemma_concat_assoc(
            s.bytes,
            <u8 as LLRPValue>::wire(v.result),
            C1G2RecommissionOpSpecResult::wire_from(v, 1),
        );
    }

    proof fn lemma_parse_body(v: C1G2RecommissionOpSpecResult) {
        reveal(C1G2RecommissionOpSpecResult::fits);
        reveal(C1G2RecommissionOpSpecResult::read_fields);
        if Self::canonical_body(v) {
            C1G2RecommissionOpSpecResult::lemma_wire_from(v);
            assert(<u8 as LLRPValue>::parse(DecoderState::start(Self::wire_from(v, 0))) == Ok::<(u8, DecoderState), Error>((v.result, DecoderState::start(Self::wire_from(v, 1))))) by {
                <u8 as LLRPValue>::lemma_parse(v.result, Self::wire_from(v, 1));
            }
            assert(<u16 as LLRPValue>::parse(DecoderState::start(Self::wire_from(v, 1))) == Ok::<(u16, DecoderState), Error>((v.op_spec_id, DecoderState::start(Self::wire_from(v, 2))))) by {
                <u16 as LLRPValue>::lemma_parse(v.op_spec_id, Self::wire_from(v, 2));
            }
        }
    }

    fn decode_body(decoder: &mut Decoder) -> (r: Result<Self, Error>) {
        proof {
            reveal(C1G2RecommissionOpSpecResult::read_fields);
        }
        let result = decoder.read::<u8>()?;
        let op_spec_id = decoder.read::<u16>()?;
        Ok(C1G2RecommissionOpSpecResult { result, op_spec_id })
    }

    fn encode_body(&self, encoder: &mut Encoder) {
        proof {
            reveal(C1G2RecommissionOpSpecResult::write_fields);
        }
        encoder.write(&self.result);
        encoder.write(&self.op_spec_id);
    }
}

/// The outcome of a lock.
#[derive(Debug, PartialEq, Eq)]
pub struct C1G2LockOpSpecResult {
    pub result: u8,
    pub op_spec_id: u16,
}

impl DeepView for C1G2LockOpSpecResult {
    type V = C1G2LockOpSpecResult;

    open spec fn deep_view(&self) -> C1G2LockOpSpecResult {
        *self
    }
}

impl C1G2LockOpSpecResult {
    /// The bytes of the fields from the `k`-th on.
    #[verifier::opaque]
    pub open spec fn wire_from(v: C1G2LockOpSpecResult, k: nat) -> Seq<u8>
        decreases 2 - k,
    {
        if k == 0 {
            <u8 as LLRPValue>::wire(v.result) + Self::wire_from(v, 1)
        } else if k == 1 {
            <u16 as LLRPValue>::wire(v.op_spec_id) + Self::wire_from(v, 2)
        } else {
            Seq::empty()
        }
    }

    /// The bytes of the fields, one field at a time.
    pub proof fn lemma_wire_from(v: C1G2LockOpSpecResult)
        ensures
            Self::wire_from(v, 0) == <u8 as LLRPValue>::wire(v.result) + Self::wire_from(v, 1),
            Self::wire_from(v, 1) == <u16 as LLRPValue>::wire(v.op_spec_id) + Self::wire_from(v, 2),
            Self::wire_from(v, 2) == Seq::<u8>::empty(),
    {
        reveal(C1G2LockOpSpecResult::wire_from);
    }

    /// Whether the fields fit the format, each before the fields behind it.
    #[verifier::opaque]
    pub open spec fn fits(v: C1G2LockOpSpecResult) -> bool {
        true
    }

    /// The fields read in order, or the first error.
    #[verifier::opaque]
    pub open spec fn read_fields(s: DecoderState) -> Result<
        (C1G2LockOpSpecResult, DecoderState),
        Error,
    > {
        match <u8 as LLRPValue>::parse(s) {
            Err(e) => Err(e),
            Ok((result, s)) => match <u16 as LLRPValue>::parse(s) {
                Err(e) => Err(e),
                Ok((op_spec_id, s)) => Ok((C1G2LockOpSpecResult { result, op_spec_id }, s)),
            },
        }
    }

    /// The state after the fields have been written in order.
    #[verifier::opaque]
    pub open spec fn write_fields(v: C1G2LockOpSpecResult, s: EncoderState) -> EncoderState {
        let s = <u8 as LLRPValue>::emit(v.result, s);
        let s = <u16 as LLRPValue>::emit(v.op_spec_id, s);
        s
    }
}

impl TlvParameter for C1G2LockOpSpecResult {
    const ID: u16 = 352;

    open spec fn parse_body(s: DecoderState) -> Result<
        (C1G2LockOpSpecResult, DecoderState),
        Error,
    > {
        Self::read_fields(s)
    }

    open spec fn emit_body(v: C1G2LockOpSpecResult, s: EncoderState) -> EncoderState {
        Self::write_fields(v, s)
    }

    open spec fn wire_body(v: C1G2LockOpSpecResult) -> Seq<u8> {
        Self::wire_from(v, 0)
    }

    open spec fn canonical_body(v: C1G2LockOpSpecResult) -> bool {
        Self::fits(v)
    }

    proof fn lemma_emit_body(v: C1G2LockOpSpecResult, s: EncoderState) {
        reveal(C1G2LockOpSpecResult::write_fields);
        C1G2LockOpSpecResult::lemma_wire_from(v);
        <u8 as LLRPValue>::lemma_emit(v.result, s);
        let s1 = s.write_bytes(<u8 as LLRPValue>::wire(v.result));
        <u16 as LLRPValue>::lemma_emit(v.op_spec_id, s1);
        let s2 = s1.write_bytes(<u16 as LLRPValue>::wire(v.op_spec_id));
        lemma_concat_empty(s2.bytes);
        lemma_concat_assoc(
            s1.bytes,
            <u16 as LLRPValue>::wire(v.op_spec_id),
            C1G2LockOpSpecResult::wire_from(v, 2),
        );
        lemma_concat_assoc(
            s.bytes,
            <u8 as LLRPValue>::wire(v.result),
            C1G2LockOpSpecResult::wire_from(v, 1),
        );
    }

    proof fn lemma_parse_body(v: C1G2LockOpSpecResult) {
        reveal(C1G2LockOpSpecResult::fits);
        reveal(C1G2LockOpSpecResult::read_fields);
        if Self::canonical_body(v) {
            C1G2LockOpSpecResult::lemma_wire_from(v);
            assert(<u8 as LLRPValue>::parse(DecoderState::start(Self::wire_from(v, 0))) == Ok::<(u8, DecoderState), Error>((v.result, DecoderState::start(Self::wire_from(v, 1))))) by {
                <u8 as LLRPValue>::lemma_parse(v.result, Self::wire_from(v, 1));
            }
            assert(<u16 as LLRPValue>::parse(DecoderState::start(Self::wire_from(v, 1))) == Ok::<(u16, DecoderState), Error>((v.op_spec_id, DecoderState::start(Self::wire_from(v, 2))))) by {
                <u16 as LLRPValue>::lemma_parse(v.op_spec_id, Self::wire_from(v, 2));
            }
        }
    }

    fn decode_body(decoder: &mut Decoder) -> (r: Result<Self, Error>) {
        proof {
            reveal(C1G2LockOpSpecResult::read_fields);
        }
        let result = decoder.read::<u8>()?;
        let op_spec_id = decoder.read::<u16>()?;
        Ok(C1G2LockOpSpecResult { result, op_spec_id })
    }

    fn encode_body(&self, encoder: &mut Encoder) {
        proof {
            reveal(C1G2LockOpSpecResult::write_fields);
        }
        encoder.write(&self.result);
        encoder.write(&self.op_spec_id);
    }
}

/// The outcome of a block erase.
#[derive(Debug, PartialEq, Eq)]
pub struct C1G2BlockEraseOpSpecResult {
    pub result: u8,
    pub op_spec_id: u16,
}

impl DeepView for C1G2BlockEraseOpSpecResult {
    type V = C1G2BlockEraseOpSpecResult;

    open spec fn deep_view(&self) -> C1G2BlockEraseOpSpecResult {
        *self
    }
}

impl C1G2BlockEraseOpSpecResult {
    /// The bytes of the fields from the `k`-th on.
    #[verifier::opaque]
    pub open spec fn wire_from(v: C1G2BlockEraseOpSpecResult, k: nat) -> Seq<u8>
        decreases 2 - k,
    {
        if k == 0 {
            <u8 as LLRPValue>::wire(v.result) + Self::wire_from(v, 1)
        } else if k == 1 {
            <u16 as LLRPValue>::wire(v.op_spec_id) + Self::wire_from(v, 2)
        } else {
            Seq::empty()
        }
    }

    /// The bytes of the fields, one field at a time.
    pub proof fn lemma_wire_from(v: C1G2BlockEraseOpSpecResult)
        ensures
            Self::wire_from(v, 0) == <u8 as LLRPValue>::wire(v.result) + Self::wire_from(v, 1),
            Self::wire_from(v, 1) == <u16 as LLRPValue>::wire(v.op_spec_id) + Self::wire_from(v, 2),
            Self::wire_from(v, 2) == Seq::<u8>::empty(),
    {
        reveal(C1G2BlockEraseOpSpecResult::wire_from);
    }

    /// Whether the fields fit the format, each before the fields behind it.
    #[verifier::opaque]
    pub open spec fn fits(v: C1G2BlockEraseOpSpecResult) -> bool {
        true
    }

    /// The fields read in order, or the first error.
    #[verifier::opaque]
    pub open spec fn read_fields(s: DecoderState) -> Result<
        (C1G2BlockEraseOpSpecResult, DecoderState),
        Error,
    > {
        match <u8 as LLRPValue>::parse(s) {
            Err(e) => Err(e),
            Ok((result, s)) => match <u16 as LLRPValue>::parse(s) {
                Err(e) => Err(e),
                Ok((op_spec_id, s)) => Ok((C1G2BlockEraseOpSpecResult { result, op_spec_id }, s)),
            },
        }
    }

    /// The state after the fields have been written in order.
    #[verifier::opaque]
    pub open spec fn write_fields(v: C1G2BlockEraseOpSpecResult, s: EncoderState) -> EncoderState {
        let s = <u8 as LLRPValue>::emit(v.result, s);
        let s = <u16 as LLRPValue>::emit(v.op_spec_id, s);
        s
    }
}

impl TlvParameter for C1G2BlockEraseOpSpecResult {
    const ID: u16 = 353;

    open spec fn parse_body(s: DecoderState) -> Result<
        (C1G2BlockEraseOpSpecResult, DecoderState),
        Error,
    > {
        Self::read_fields(s)
    }

    open spec fn emit_body(v: C1G2BlockEraseOpSpecResult, s: EncoderState) -> EncoderState {
        Self::write_fields(v, s)
    }

    open spec fn wire_body(v: C1G2BlockEraseOpSpecResult) -> Seq<u8> {
        Self::wire_from(v, 0)
    }

    open spec fn canonical_body(v: C1G2BlockEraseOpSpecResult) -> bool {
        Self::fits(v)
    }

    proof fn lemma_emit_body(v: C1G2BlockEraseOpSpecResult, s: EncoderState) {
        reveal(C1G2BlockEraseOpSpecResult::write_fields);
        C1G2BlockEraseOpSpecResult::lemma_wire_from(v);
        <u8 as LLRPValue>::lemma_emit(v.result, s);
        let s1 = s.write_bytes(<u8 as LLRPValue>::wire(v.result));
        <u16 as LLRPValue>::lemma_emit(v.op_spec_id, s1);
        let s2 = s1.write_bytes(<u16 as LLRPValue>::wire(v.op_spec_id));
        lemma_concat_empty(s2.bytes);
        lemma_concat_assoc(
            s1.bytes,
            <u16 as LLRPValue>::wire(v.op_spec_id),
            C1G2BlockEraseOpSpecResult::wire_from(v, 2),
        );
        lemma_concat_assoc(
            s.bytes,
            <u8 as LLRPValue>::wire(v.result),
            C1G2BlockEraseOpSpecResult::wire_from(v, 1),
        );
    }

    proof fn lemma_parse_body(v: C1G2BlockEraseOpSpecResult) {
        reveal(C1G2BlockEraseOpSpecResult::fits);
        reveal(C1G2BlockEraseOpSpecResult::read_fields);
        if Self::canonical_body(v) {
            C1G2BlockEraseOpSpecResult::lemma_wire_from(v);
            assert(<u8 as LLRPValue>::parse(DecoderState::start(Self::wire_from(v, 0))) == Ok::<(u8, DecoderState), Error>((v.result, DecoderState::start(Self::wire_from(v, 1))))) by {
                <u8 as LLRPValue>::lemma_parse(v.result, Self::wire_from(v, 1));
            }
            assert(<u16 as LLRPValue>::parse(DecoderState::start(Self::wire_from(v, 1))) == Ok::<(u16, DecoderState), Error>((v.op_spec_id, DecoderState::start(Self::wire_from(v, 2))))) by {
                <u16 as LLRPValue>::lemma_parse(v.op_spec_id, Self::wire_from(v, 2));
            }
        }
    }

    fn decode_body(decoder: &mut Decoder) -> (r: Result<Self, Error>) {
        proof {
            reveal(C1G2BlockEraseOpSpecResult::read_fields);
        }
        let result = decoder.read::<u8>()?;
        let op_spec_id = decoder.read::<u16>()?;
        Ok(C1G2BlockEraseOpSpecResult { result, op_spec_id })
    }

    fn encode_body(&self, encoder: &mut Encoder) {
        proof {
            reveal(C1G2BlockEraseOpSpecResult::write_fields);
        }
        encoder.write(&self.result);
        encoder.write(&self.op_spec_id);
    }
}

/// The outcome of a block write.
#[derive(Debug, PartialEq, Eq)]
pub struct C1G2BlockWriteOpSpecResult {
    pub result: u8,
    pub op_spec_id: u16,
    pub words_written: u16,
}

impl DeepView for C1G2BlockWriteOpSpecResult {
    type V = C1G2BlockWriteOpSpecResult;

    open spec fn deep_view(&self) -> C1G2BlockWriteOpSpecResult {
        *self
    }
}

impl C1G2BlockWriteOpSpecResult {
    /// The bytes of the fields from the `k`-th on.
    #[verifier::opaque]
    pub open spec fn wire_from(v: C1G2BlockWriteOpSpecResult, k: nat) -> Seq<u8>
        decreases 3 - k,
    {
        if k == 0 {
            <u8 as LLRPValue>::wire(v.result) + Self::wire_from(v, 1)
        } else if k == 1 {
            <u16 as LLRPValue>::wire(v.op_spec_id) + Self::wire_from(v, 2)
        } else if k == 2 {
            <u16 as LLRPValue>::wire(v.words_written) + Self::wire_from(v, 3)
        } else {
            Seq::empty()
        }
    }

    /// The bytes of the fields, one field at a time.
    pub proof fn lemma_wire_from(v: C1G2BlockWriteOpSpecResult)
        ensures
            Self::wire_from(v, 0) == <u8 as LLRPValue>::wire(v.result) + Self::wire_from(v, 1),
            Self::wire_from(v, 1) == <u16 as LLRPValue>::wire(v.op_spec_id) + Self::wire_from(v, 2),
            Self::wire_from(v, 2) == <u16 as LLRPValue>::wire(v.words_written)
                + Self::wire_from(v, 3),
            Self::wire_from(v, 3) == Seq::<u8>::empty(),
    {
        reveal(C1G2BlockWriteOpSpecResult::wire_from);
    }

    /// Whether the fields fit the format, each before the fields behind it.
    #[verifier::opaque]
    pub open spec fn fits(v: C1G2BlockWriteOpSpecResult) -> bool {
        true
    }

    /// The fields read in order, or the first error.
    #[verifier::opaque]
    pub open spec fn read_fields(s: DecoderState) -> Result<
        (C1G2BlockWriteOpSpecResult, DecoderState),
        Error,
    > {
        match <u8 as LLRPValue>::parse(s) {
            Err(e) => Err(e),
            Ok((result, s)) => match <u16 as LLRPValue>::parse(s) {
                Err(e) => Err(e),
                Ok((op_spec_id, s)) => match <u16 as LLRPValue>::parse(s) {
                    Err(e) => Err(e),
                    Ok((words_written, s)) => Ok((C1G2BlockWriteOpSpecResult { result, op_spec_id, words_written }, s)),
                },
            },
        }
    }

    /// The state after the fields have been written in order.
    #[verifier::opaque]
    pub open spec fn write_fields(v: C1G2BlockWriteOpSpecResult, s: EncoderState) -> EncoderState {
        let s = <u8 as LLRPValue>::emit(v.result, s);
        let s = <u16 as LLRPValue>::emit(v.op_spec_id, s);
        let s = <u16 as LLRPValue>::emit(v.words_written, s);
        s
    }
}

impl TlvParameter for C1G2BlockWriteOpSpecResult {
    const ID: u16 = 354;

    open spec fn parse_body(s: DecoderState) -> Result<
        (C1G2BlockWriteOpSpecResult, DecoderState),
        Error,
    > {
        Self::read_fields(s)
    }

    open spec fn emit_body(v: C1G2BlockWriteOpSpecResult, s: EncoderState) -> EncoderState {
        Self::write_fields(v, s)
    }

    open spec fn wire_body(v: C1G2BlockWriteOpSpecResult) -> Seq<u8> {
        Self::wire_from(v, 0)
    }

    open spec fn canonical_body(v: C1G2BlockWriteOpSpecResult) -> bool {
        Self::fits(v)
    }

    proof fn lemma_emit_body(v: C1G2BlockWriteOpSpecResult, s: EncoderState) {
        reveal(C1G2BlockWriteOpSpecResult::write_fields);
        C1G2BlockWriteOpSpecResult::lemma_wire_from(v);
        <u8 as LLRPValue>::lemma_emit(v.result, s);
        let s1 = s.write_bytes(<u8 as LLRPValue>::wire(v.result));
        <u16 as LLRPValue>::lemma_emit(v.op_spec_id, s1);
        let s2 = s1.write_bytes(<u16 as LLRPValue>::wire(v.op_spec_id));
        <u16 as LLRPValue>::lemma_emit(v.words_written, s2);
        let s3 = s2.write_bytes(<u16 as LLRPValue>::wire(v.words_written));
        lemma_concat_empty(s3.bytes);
        lemma_concat_assoc(
            s2.bytes,
            <u16 as LLRPValue>::wire(v.words_written),
            C1G2BlockWriteOpSpecResult::wire_from(v, 3),
        );
        lemma_concat_assoc(
            s1.bytes,
            <u16 as LLRPValue>::wire(v.op_spec_id),
            C1G2BlockWriteOpSpecResult::wire_from(v, 2),
        );
        lemma_concat_assoc(
            s.bytes,
            <u8 as LLRPValue>::wire(v.result),
            C1G2BlockWriteOpSpecResult::wire_from(v, 1),
        );
    }

    proof fn lemma_parse_body(v: C1G2BlockWriteOpSpecResult) {
        reveal(C1G2BlockWriteOpSpecResult::fits);
        reveal(C1G2BlockWriteOpSpecResult::read_fields);
        if Self::canonical_body(v) {
            C1G2BlockWriteOpSpecResult::lemma_wire_from(v);
            assert(<u8 as LLRPValue>::parse(DecoderState::start(Self::wire_from(v, 0))) == Ok::<(u8, DecoderState), Error>((v.result, DecoderState::start(Self::wire_from(v, 1))))) by {
                <u8 as LLRPValue>::lemma_parse(v.result, Self::wire_from(v, 1));
            }
            assert(<u16 as LLRPValue>::parse(DecoderState::start(Self::wire_from(v, 1))) == Ok::<(u16, DecoderState), Error>((v.op_spec_id, DecoderState::start(Self::wire_from(v, 2))))) by {
                <u16 as LLRPValue>::lemma_parse(v.op_spec_id, Self::wire_from(v, 2));
            }
            assert(<u16 as LLRPValue>::parse(DecoderState::start(Self::wire_from(v, 2))) == Ok::<(u16, DecoderState), Error>((v.words_written, DecoderState::start(Self::wire_from(v, 3))))) by {
                <u16 as LLRPValue>::lemma_parse(v.words_written, Self::wire_from(v, 3));
            }
        }
    }

    fn decode_body(decoder: &mut Decoder) -> (r: Result<Self, Error>) {
        proof {
            reveal(C1G2BlockWriteOpSpecResult::read_fields);
        }
        let result = decoder.read::<u8>()?;
        let op_spec_id = decoder.read::<u16>()?;
        let words_written = decoder.read::<u16>()?;
        Ok(C1G2BlockWriteOpSpecResult { result, op_spec_id, words_written })
    }

    fn encode_body(&self, encoder: &mut Encoder) {
        proof {
            reveal(C1G2BlockWriteOpSpecResult::write_fields);
        }
        encoder.write(&self.result);
        encoder.write(&self.op_spec_id);
        encoder.write(&self.words_written);
    }
}

/// The outcome of a block permalock.
#[derive(Debug, PartialEq, Eq)]
pub struct C1G2BlockPermalockOpSpecResult {
    pub result: u8,
    pub op_spec_id: u16,
}

impl DeepView for C1G2BlockPermalockOpSpecResult {
    type V = C1G2BlockPermalockOpSpecResult;

    open spec fn deep_view(&self) -> C1G2BlockPermalockOpSpecResult {
        *self
    }
}

impl C1G2BlockPermalockOpSpecResult {
    /// The bytes of the fields from the `k`-th on.
    #[verifier::opaque]
    pub open spec fn wire_from(v: C1G2BlockPermalockOpSpecResult, k: nat) -> Seq<u8>
        decreases 2 - k,
    {
        if k == 0 {
            <u8 as LLRPValue>::wire(v.result) + Self::wire_from(v, 1)
        } else if k == 1 {
            <u16 as LLRPValue>::wire(v.op_spec_id) + Self::wire_from(v, 2)
        } else {
            Seq::empty()
        }
    }

    /// The bytes of the fields, one field at a time.
    pub proof fn lemma_wire_from(v: C1G2BlockPermalockOpSpecResult)
        ensures
            Self::wire_from(v, 0) == <u8 as LLRPValue>::wire(v.result) + Self::wire_from(v, 1),
            Self::wire_from(v, 1) == <u16 as LLRPValue>::wire(v.op_spec_id) + Self::wire_from(v, 2),
            Self::wire_from(v, 2) == Seq::<u8>::empty(),
    {
        reveal(C1G2BlockPermalockOpSpecResult::wire_from);
    }

    /// Whether the fields fit the format, each before the fields behind it.
    #[verifier::opaque]
    pub open spec fn fits(v: C1G2BlockPermalockOpSpecResult) -> bool {
        true
    }

    /// The fields read in order, or the first error.
    #[verifier::opaque]
    pub open spec fn read_fields(s: DecoderState) -> Result<
        (C1G2BlockPermalockOpSpecResult, DecoderState),
        Error,
    > {
        match <u8 as LLRPValue>::parse(s) {
            Err(e) => Err(e),
            Ok((result, s)) => match <u16 as LLRPValue>::parse(s) {
                Err(e) => Err(e),
                Ok(
                    (op_spec_id, s)) => Ok((C1G2BlockPermalockOpSpecResult { result, op_spec_id },
                    s),
                ),
            },
        }
    }

    /// The state after the fields have been written in order.
    #[verifier::opaque]
    pub open spec fn write_fields(v: C1G2BlockPermalockOpSpecResult, s: EncoderState) -> EncoderState {
        let s = <u8 as LLRPValue>::emit(v.result, s);
        let s = <u16 as LLRPValue>::emit(v.op_spec_id, s);
        s
    }
}

impl TlvParameter for C1G2BlockPermalockOpSpecResult {
    const ID: u16 = 361;

    open spec fn parse_body(s: DecoderState) -> Result<
        (C1G2BlockPermalockOpSpecResult, DecoderState),
        Error,
    > {
        Self::read_fields(s)
    }

    open spec fn emit_body(v: C1G2BlockPermalockOpSpecResult, s: EncoderState) -> EncoderState {
        Self::write_fields(v, s)
    }

    open spec fn wire_body(v: C1G2BlockPermalockOpSpecResult) -> Seq<u8> {
        Self::wire_from(v, 0)
    }

    open spec fn canonical_body(v: C1G2BlockPermalockOpSpecResult) -> bool {
        Self::fits(v)
    }

    proof fn lemma_emit_body(v: C1G2BlockPermalockOpSpecResult, s: EncoderState) {
        reveal(C1G2BlockPermalockOpSpecResult::write_fields);
        C1G2BlockPermalockOpSpecResult::lemma_wire_from(v);
        <u8 as LLRPValue>::lemma_emit(v.result, s);
        let s1 = s.write_bytes(<u8 as LLRPValue>::wire(v.result));
        <u16 as LLRPValue>::lemma_emit(v.op_spec_id, s1);
        let s2 = s1.write_bytes(<u16 as LLRPValue>::wire(v.op_spec_id));
        lemma_concat_empty(s2.bytes);
        lemma_concat_assoc(
            s1.bytes,
            <u16 as LLRPValue>::wire(v.op_spec_id),
            C1G2BlockPermalockOpSpecResult::wire_from(v, 2),
        );
        lemma_concat_assoc(
            s.bytes,
            <u8 as LLRPValue>::wire(v.result),
            C1G2BlockPermalockOpSpecResult::wire_from(v, 1),
        );
    }

    proof fn lemma_parse_body(v: C1G2BlockPermalockOpSpecResult) {
        reveal(C1G2BlockPermalockOpSpecResult::fits);
        reveal(C1G2BlockPermalockOpSpecResult::read_fields);
        if Self::canonical_body(v) {
            C1G2BlockPermalockOpSpecResult::lemma_wire_from(v);
            assert(<u8 as LLRPValue>::parse(DecoderState::start(Self::wire_from(v, 0))) == Ok::<(u8, DecoderState), Error>((v.result, DecoderState::start(Self::wire_from(v, 1))))) by {
                <u8 as LLRPValue>::lemma_parse(v.result, Self::wire_from(v, 1));
            }
            assert(<u16 as LLRPValue>::parse(DecoderState::start(Self::wire_from(v, 1))) == Ok::<(u16, DecoderState), Error>((v.op_spec_id, DecoderState::start(Self::wire_from(v, 2))))) by {
                <u16 as LLRPValue>::lemma_parse(v.op_spec_id, Self::wire_from(v, 2));
            }
        }
    }

    fn decode_body(decoder: &mut Decoder) -> (r: Result<Self, Error>) {
        proof {
            reveal(C1G2BlockPermalockOpSpecResult::read_fields);
        }
        let result = decoder.read::<u8>()?;
        let op_spec_id = decoder.read::<u16>()?;
        Ok(C1G2BlockPermalockOpSpecResult { result, op_spec_id })
    }

    fn encode_body(&self, encoder: &mut Encoder) {
        proof {
            reveal(C1G2BlockPermalockOpSpecResult::write_fields);
        }
        encoder.write(&self.result);
        encoder.write(&self.op_spec_id);
    }
}

/// The outcome of a query for the permalock status.
#[derive(Debug, PartialEq, Eq)]
pub struct C1G2GetBlockPermalockStatusOpSpecResult {
    pub result: u8,
    pub op_spec_id: u16,
    pub permalock_status: Vec<u16>,
}

/// The model of a `C1G2GetBlockPermalockStatusOpSpecResult`.
pub struct C1G2GetBlockPermalockStatusOpSpecResultView {
    pub result: u8,
    pub op_spec_id: u16,
    pub permalock_status: Seq<u16>,
}

impl DeepView for C1G2GetBlockPermalockStatusOpSpecResult {
    type V = C1G2GetBlockPermalockStatusOpSpecResultView;

    open spec fn deep_view(&self) -> C1G2GetBlockPermalockStatusOpSpecResultView {
        C1G2GetBlockPermalockStatusOpSpecResultView {
            result: self.result,
            op_spec_id: self.op_spec_id,
            permalock_status: self.permalock_status.deep_view(),
        }
    }
}

impl C1G2GetBlockPermalockStatusOpSpecResult {
    /// The bytes of the fields from the `k`-th on.
    #[verifier::opaque]
    pub open spec fn wire_from(v: C1G2GetBlockPermalockStatusOpSpecResultView, k: nat) -> Seq<u8>
        decreases 3 - k,
    {
        if k == 0 {
            <u8 as LLRPValue>::wire(v.result) + Self::wire_from(v, 1)
        } else if k == 1 {
            <u16 as LLRPValue>::wire(v.op_spec_id) + Self::wire_from(v, 2)
        } else if k == 2 {
            array_wire::<u16>(v.permalock_status) + Self::wire_from(v, 3)
        } else {
            Seq::empty()
        }
    }

    /// The bytes of the fields, one field at a time.
    pub proof fn lemma_wire_from(v: C1G2GetBlockPermalockStatusOpSpecResultView)
        ensures
            Self::wire_from(v, 0) == <u8 as LLRPValue>::wire(v.result) + Self::wire_from(v, 1),
            Self::wire_from(v, 1) == <u16 as LLRPValue>::wire(v.op_spec_id) + Self::wire_from(v, 2),
            Self::wire_from(v, 2) == array_wire::<u16>(v.permalock_status) + Self::wire_from(v, 3),
            Self::wire_from(v, 3) == Seq::<u8>::empty(),
    {
        reveal(C1G2GetBlockPermalockStatusOpSpecResult::wire_from);
    }

    /// Whether the fields fit the format, each before the fields behind it.
    #[verifier::opaque]
    pub open spec fn fits(v: C1G2GetBlockPermalockStatusOpSpecResultView) -> bool {
        &&& array_canonical::<u16>(v.permalock_status)
    }

    /// The fields read in order, or the first error.
    #[verifier::opaque]
    pub open spec fn read_fields(s: DecoderState) -> Result<
        (C1G2GetBlockPermalockStatusOpSpecResultView, DecoderState),
        Error,
    > {
        match <u8 as LLRPValue>::parse(s) {
            Err(e) => Err(e),
            Ok((result, s)) => match <u16 as LLRPValue>::parse(s) {
                Err(e) => Err(e),
                Ok((op_spec_id, s)) => match parse_array::<u16>(s) {
                    Err(e) => Err(e),
                    Ok((permalock_status, s)) => Ok(
                        (
                            C1G2GetBlockPermalockStatusOpSpecResultView {
                                result,
                                op_spec_id,
                                permalock_status,
                            },
                            s,
                        ),
                    ),
                },
            },
        }
    }

    /// The state after the fields have been written in order.
    #[verifier::opaque]
    pub open spec fn write_fields(v: C1G2GetBlockPermalockStatusOpSpecResultView, s: EncoderState) -> EncoderState {
        let s = <u8 as LLRPValue>::emit(v.result, s);
        let s = <u16 as LLRPValue>::emit(v.op_spec_id, s);
        let s = emit_array::<u16>(v.permalock_status, s);
        s
    }
}

impl TlvParameter for C1G2GetBlockPermalockStatusOpSpecResult {
    const ID: u16 = 362;

    open spec fn parse_body(s: DecoderState) -> Result<
        (C1G2GetBlockPermalockStatusOpSpecResultView, DecoderState),
        Error,
    > {
        Self::read_fields(s)
    }

    open spec fn emit_body(v: C1G2GetBlockPermalockStatusOpSpecResultView, s: EncoderState) -> EncoderState {
        Self::write_fields(v, s)
    }

    open spec fn wire_body(v: C1G2GetBlockPermalockStatusOpSpecResultView) -> Seq<u8> {
        Self::wire_from(v, 0)
    }

    open spec fn canonical_body(v: C1G2GetBlockPermalockStatusOpSpecResultView) -> bool {
        Self::fits(v)
    }

    proof fn lemma_emit_body(v: C1G2GetBlockPermalockStatusOpSpecResultView, s: EncoderState) {
        reveal(C1G2GetBlockPermalockStatusOpSpecResult::write_fields);
        C1G2GetBlockPermalockStatusOpSpecResult::lemma_wire_from(v);
        <u8 as LLRPValue>::lemma_emit(v.result, s);
        let s1 = s.write_bytes(<u8 as LLRPValue>::wire(v.result));
        <u16 as LLRPValue>::lemma_emit(v.op_spec_id, s1);
        let s2 = s1.write_bytes(<u16 as LLRPValue>::wire(v.op_spec_id));
        lemma_array_written::<u16>(v.permalock_status, s2);
        let s3 = s2.write_bytes(array_wire::<u16>(v.permalock_status));
        lemma_concat_empty(s3.bytes);
        lemma_concat_assoc(
            s2.bytes,
            array_wire::<u16>(v.permalock_status),
            C1G2GetBlockPermalockStatusOpSpecResult::wire_from(v, 3),
        );
        lemma_concat_assoc(
            s1.bytes,
            <u16 as LLRPValue>::wire(v.op_spec_id),
            C1G2GetBlockPermalockStatusOpSpecResult::wire_from(v, 2),
        );
        lemma_concat_assoc(
            s.bytes,
            <u8 as LLRPValue>::wire(v.result),
            C1G2GetBlockPermalockStatusOpSpecResult::wire_from(v, 1),
        );
    }

    proof fn lemma_parse_body(v: C1G2GetBlockPermalockStatusOpSpecResultView) {
        reveal(C1G2GetBlockPermalockStatusOpSpecResult::fits);
        reveal(C1G2GetBlockPermalockStatusOpSpecResult::read_fields);
        if Self::canonical_body(v) {
            C1G2GetBlockPermalockStatusOpSpecResult::lemma_wire_from(v);
            assert(<u8 as LLRPValue>::parse(DecoderState::start(Self::wire_from(v, 0))) == Ok::<(u8, DecoderState), Error>((v.result, DecoderState::start(Self::wire_from(v, 1))))) by {
                <u8 as LLRPValue>::lemma_parse(v.result, Self::wire_from(v, 1));
            }
            assert(<u16 as LLRPValue>::parse(DecoderState::start(Self::wire_from(v, 1))) == Ok::<(u16, DecoderState), Error>((v.op_spec_id, DecoderState::start(Self::wire_from(v, 2))))) by {
                <u16 as LLRPValue>::lemma_parse(v.op_spec_id, Self::wire_from(v, 2));
            }
            assert(parse_array::<u16>(DecoderState::start(Self::wire_from(v, 2))) == Ok::<(Seq<u16>, DecoderState), Error>((v.permalock_status, DecoderState::start(Self::wire_from(v, 3))))) by {
                lemma_array_front::<u16>(v.permalock_status, Self::wire_from(v, 3));
            }
        }
    }

    fn decode_body(decoder: &mut Decoder) -> (r: Result<Self, Error>) {
        proof {
            reveal(C1G2GetBlockPermalockStatusOpSpecResult::read_fields);
        }
        let result = decoder.read::<u8>()?;
        let op_spec_id = decoder.read::<u16>()?;
        let read_permalock_status = |d: &mut Decoder| -> (r: Result<u16, Error>)
            ensures
                decoded::<u16>(<u16 as LLRPValue>::parse(old(d)@), r, final(d)@),
            {
                d.read::<u16>()
            };
        let ghost permalock_status_reader = read_permalock_status;
        let ghost permalock_status_start = decoder@;
        let permalock_status = decoder.array(read_permalock_status);
        proof {
            lemma_array_decoded::<u16, _>(
                permalock_status_reader,
                permalock_status_start,
                permalock_status,
                decoder@,
            );
        }
        let permalock_status = permalock_status?;
        Ok(C1G2GetBlockPermalockStatusOpSpecResult { result, op_spec_id, permalock_status })
    }

    fn encode_body(&self, encoder: &mut Encoder) {
        proof {
            reveal(C1G2GetBlockPermalockStatusOpSpecResult::write_fields);
        }
        encoder.write(&self.result);
        encoder.write(&self.op_spec_id);
        let write_permalock_status = |e: &mut Encoder, x: &u16|
            ensures
                final(e)@ == <u16 as LLRPValue>::emit(x.deep_view(), old(e)@),
            {
                e.write(x)
            };
        let ghost permalock_status_writer = write_permalock_status;
        let ghost permalock_status_start = encoder@;
        encoder.array(self.permalock_status.as_slice(), write_permalock_status);
        proof {
            lemma_array_encoded::<u16, _>(
                permalock_status_writer,
                permalock_status_start,
                self.permalock_status@,
                encoder@,
            );
        }
    }
}

/// The settings of one antenna.
#[derive(Debug, PartialEq, Eq)]
pub struct AntennaConfiguration {
    pub antenna_id: u16,
    pub rf_receiver: Option<RfReceiver>,
    pub rf_transmitter: Option<RfTransmitter>,
    pub inventory_commands: Vec<C1G2InventoryCommand>,
    pub custom: Vec<CustomParameter>,
}

/// The model of a `AntennaConfiguration`.
pub struct AntennaConfigurationView {
    pub antenna_id: u16,
    pub rf_receiver: Option<RfReceiver>,
    pub rf_transmitter: Option<RfTransmitter>,
    pub inventory_commands: Seq<C1G2InventoryCommandView>,
    pub custom: Seq<CustomParameter>,
}

impl DeepView for AntennaConfiguration {
    type V = AntennaConfigurationView;

    open spec fn deep_view(&self) -> AntennaConfigurationView {
        AntennaConfigurationView {
            antenna_id: self.antenna_id,
            rf_receiver: self.rf_receiver.deep_view(),
            rf_transmitter: self.rf_transmitter.deep_view(),
            inventory_commands: self.inventory_commands.deep_view(),
            custom: self.custom.deep_view(),
        }
    }
}

impl AntennaConfiguration {
    /// The bytes of the fields from the `k`-th on.
    #[verifier::opaque]
    pub open spec fn wire_from(v: AntennaConfigurationView, k: nat) -> Seq<u8>
        decreases 5 - k,
    {
        if k == 0 {
            <u16 as LLRPValue>::wire(v.antenna_id) + Self::wire_from(v, 1)
        } else if k == 1 {
            <Option<RfReceiver> as LLRPValue>::wire(v.rf_receiver) + Self::wire_from(v, 2)
        } else if k == 2 {
            <Option<RfTransmitter> as LLRPValue>::wire(v.rf_transmitter) + Self::wire_from(v, 3)
        } else if k == 3 {
            <Vec<C1G2InventoryCommand> as LLRPValue>::wire(v.inventory_commands)
                + Self::wire_from(v, 4)
        } else if k == 4 {
            <Vec<CustomParameter> as LLRPValue>::wire(v.custom) + Self::wire_from(v, 5)
        } else {
            Seq::empty()
        }
    }

    /// The bytes of the fields, one field at a time.
    pub proof fn lemma_wire_from(v: AntennaConfigurationView)
        ensures
            Self::wire_from(v, 0) == <u16 as LLRPValue>::wire(v.antenna_id) + Self::wire_from(v, 1),
            Self::wire_from(v, 1) == <Option<RfReceiver> as LLRPValue>::wire(v.rf_receiver)
                + Self::wire_from(v, 2),
            Self::wire_from(v, 2) == <Option<RfTransmitter> as LLRPValue>::wire(v.rf_transmitter)
                + Self::wire_from(v, 3),
            Self::wire_from(v, 3) == <Vec<C1G2InventoryCommand> as LLRPValue>::wire(v.inventory_commands)
                + Self::wire_from(v, 4),
            Self::wire_from(v, 4) == <Vec<CustomParameter> as LLRPValue>::wire(v.custom)
                + Self::wire_from(v, 5),
            Self::wire_from(v, 5) == Seq::<u8>::empty(),
    {
        reveal(AntennaConfiguration::wire_from);
    }

    /// Whether the fields fit the format, each before the fields behind it.
    #[verifier::opaque]
    pub open spec fn fits(v: AntennaConfigurationView) -> bool {
        &&& <Option<RfReceiver> as LLRPValue>::canonical(v.rf_receiver)
        &&& <Option<RfReceiver> as LLRPValue>::follow_ok(v.rf_receiver, Self::wire_from(v, 2))
        &&& <Option<RfTransmitter> as LLRPValue>::canonical(v.rf_transmitter)
        &&& <Option<RfTransmitter> as LLRPValue>::follow_ok(v.rf_transmitter, Self::wire_from(v, 3))
        &&& <Vec<C1G2InventoryCommand> as LLRPValue>::canonical(v.inventory_commands)
        &&& <Vec<C1G2InventoryCommand> as LLRPValue>::follow_ok(
            v.inventory_commands,
            Self::wire_from(v, 4),
        )
        &&& <Vec<CustomParameter> as LLRPValue>::canonical(v.custom)
        &&& <Vec<CustomParameter> as LLRPValue>::follow_ok(v.custom, Self::wire_from(v, 5))
    }

    /// The first fields read in order, or the first error.
    #[verifier::opaque]
    pub open spec fn read_front(s: DecoderState) -> Result<
        ((u16, Option<RfReceiver>), DecoderState),
        Error,
    > {
        match <u16 as LLRPValue>::parse(s) {
            Err(e) => Err(e),
            Ok((antenna_id, s)) => match <Option<RfReceiver> as LLRPValue>::parse(s) {
                Err(e) => Err(e),
                Ok((rf_receiver, s)) => Ok(((antenna_id, rf_receiver), s)),
            },
        }
    }

    /// The other fields read in order behind the first, or the first error.
    #[verifier::opaque]
    pub open spec fn read_back(front: (u16, Option<RfReceiver>), s: DecoderState) -> Result<
        (AntennaConfigurationView, DecoderState),
        Error,
    > {
        match <Option<RfTransmitter> as LLRPValue>::parse(s) {
            Err(e) => Err(e),
            Ok((rf_transmitter, s)) => match <Vec<C1G2InventoryCommand> as LLRPValue>::parse(s) {
                Err(e) => Err(e),
                Ok((inventory_commands, s)) => match <Vec<CustomParameter> as LLRPValue>::parse(s) {
                    Err(e) => Err(e),
                    Ok((custom, s)) => Ok((AntennaConfigurationView { antenna_id: front.0, rf_receiver: front.1, rf_transmitter, inventory_commands, custom }, s)),
                },
            },
        }
    }

    /// The fields read in order, or the first error.
    #[verifier::opaque]
    pub open spec fn read_fields(s: DecoderState) -> Result<
        (AntennaConfigurationView, DecoderState),
        Error,
    > {
        match Self::read_front(s) {
            Err(e) => Err(e),
            Ok((front, s)) => Self::read_back(front, s),
        }
    }

    /// The state after the fields have been written in order.
    #[verifier::opaque]
    pub open spec fn write_fields(v: AntennaConfigurationView, s: EncoderState) -> EncoderState {
        let s = <u16 as LLRPValue>::emit(v.antenna_id, s);
        let s = <Option<RfReceiver> as LLRPValue>::emit(v.rf_receiver, s);
        let s = <Option<RfTransmitter> as LLRPValue>::emit(v.rf_transmitter, s);
        let s = <Vec<C1G2InventoryCommand> as LLRPValue>::emit(v.inventory_commands, s);
        let s = <Vec<CustomParameter> as LLRPValue>::emit(v.custom, s);
        s
    }

    fn decode_front(decoder: &mut Decoder) -> (r: Result<(u16, Option<RfReceiver>), Error>)
        ensures
            match Self::read_front(old(decoder)@) {
                Ok((front, s)) => {
                    &&& r is Ok
                    &&& r->Ok_0.0 == front.0
                    &&& r->Ok_0.1.deep_view() == front.1
                    &&& final(decoder)@ == s
                },
                Err(e) => r == Err::<(u16, Option<RfReceiver>), Error>(e),
            },
    {
        proof {
            reveal(AntennaConfiguration::read_front);
        }
        let antenna_id = decoder.read::<u16>()?;
        let rf_receiver = decoder.read::<Option<RfReceiver>>()?;
        Ok((antenna_id, rf_receiver))
    }

    fn decode_back(front: (u16, Option<RfReceiver>), decoder: &mut Decoder) -> (r: Result<AntennaConfiguration, Error>)
        ensures
            decoded::<AntennaConfiguration>(
                Self::read_back((front.0, front.1.deep_view()), old(decoder)@),
                r,
                final(decoder)@,
            ),
    {
        proof {
            reveal(AntennaConfiguration::read_back);
        }
        let rf_transmitter = decoder.read::<Option<RfTransmitter>>()?;
        let inventory_commands = decoder.read::<Vec<C1G2InventoryCommand>>()?;
        let custom = decoder.read::<Vec<CustomParameter>>()?;
        Ok(AntennaConfiguration { antenna_id: front.0, rf_receiver: front.1, rf_transmitter, inventory_commands, custom })
    }

    /// The first fields are read back from the bytes of all.
    pub proof fn lemma_parse_front(v: AntennaConfigurationView)
        ensures
            Self::fits(v) ==> Self::read_front(DecoderState::start(Self::wire_from(v, 0))) == Ok::<
                ((u16, Option<RfReceiver>), DecoderState),
                Error,
            >(((v.antenna_id, v.rf_receiver), DecoderState::start(Self::wire_from(v, 2)))),
    {
        reveal(AntennaConfiguration::fits);
        reveal(AntennaConfiguration::read_front);
        if Self::fits(v) {
            AntennaConfiguration::lemma_wire_from(v);
            assert(<u16 as LLRPValue>::parse(DecoderState::start(Self::wire_from(v, 0))) == Ok::<(u16, DecoderState), Error>((v.antenna_id, DecoderState::start(Self::wire_from(v, 1))))) by {
                <u16 as LLRPValue>::lemma_parse(v.antenna_id, Self::wire_from(v, 1));
            }
            assert(<Option<RfReceiver> as LLRPValue>::parse(DecoderState::start(Self::wire_from(v, 1))) == Ok::<(Option<RfReceiver>, DecoderState), Error>((v.rf_receiver, DecoderState::start(Self::wire_from(v, 2))))) by {
                <Option<RfReceiver> as LLRPValue>::lemma_parse(
                    v.rf_receiver,
                    Self::wire_from(v, 2),
                );
            }
        }
    }

    /// The other fields are read back from the bytes behind the first.
    pub proof fn lemma_parse_back(v: AntennaConfigurationView)
        ensures
            Self::fits(
                v) ==> Self::read_back((v.antenna_id,
                v.rf_receiver), DecoderState::start(Self::wire_from(v, 2)),
            )
                == Ok::<(
                    AntennaConfigurationView,
                    DecoderState), Error>((v,
                    DecoderState::start(Seq::empty())),
                ),
    {
        reveal(AntennaConfiguration::fits);
        reveal(AntennaConfiguration::read_back);
        if Self::fits(v) {
            AntennaConfiguration::lemma_wire_from(v);
            assert(<Option<RfTransmitter> as LLRPValue>::parse(DecoderState::start(Self::wire_from(v, 2))) == Ok::<(Option<RfTransmitter>, DecoderState), Error>((v.rf_transmitter, DecoderState::start(Self::wire_from(v, 3))))) by {
                <Option<RfTransmitter> as LLRPValue>::lemma_parse(
                    v.rf_transmitter,
                    Self::wire_from(v, 3),
                );
            }
            assert(<Vec<C1G2InventoryCommand> as LLRPValue>::parse(DecoderState::start(Self::wire_from(v, 3))) == Ok::<(Seq<C1G2InventoryCommandView>, DecoderState), Error>((v.inventory_commands, DecoderState::start(Self::wire_from(v, 4))))) by {
                <Vec<C1G2InventoryCommand> as LLRPValue>::lemma_parse(
                    v.inventory_commands,
                    Self::wire_from(v, 4),
                );
            }
            assert(<Vec<CustomParameter> as LLRPValue>::parse(DecoderState::start(Self::wire_from(v, 4))) == Ok::<(Seq<CustomParameter>, DecoderState), Error>((v.custom, DecoderState::start(Self::wire_from(v, 5))))) by {
                <Vec<CustomParameter> as LLRPValue>::lemma_parse(v.custom, Self::wire_from(v, 5));
            }
        }
    }
}

impl TlvParameter for AntennaConfiguration {
    const ID: u16 = 222;

    open spec fn parse_body(s: DecoderState) -> Result<
        (AntennaConfigurationView, DecoderState),
        Error,
    > {
        Self::read_fields(s)
    }

    open spec fn emit_body(v: AntennaConfigurationView, s: EncoderState) -> EncoderState {
        Self::write_fields(v, s)
    }

    open spec fn wire_body(v: AntennaConfigurationView) -> Seq<u8> {
        Self::wire_from(v, 0)
    }

    open spec fn canonical_body(v: AntennaConfigurationView) -> bool {
        Self::fits(v)
    }

    proof fn lemma_emit_body(v: AntennaConfigurationView, s: EncoderState) {
        reveal(AntennaConfiguration::write_fields);
        AntennaConfiguration::lemma_wire_from(v);
        <u16 as LLRPValue>::lemma_emit(v.antenna_id, s);
        let s1 = s.write_bytes(<u16 as LLRPValue>::wire(v.antenna_id));
        <Option<RfReceiver> as LLRPValue>::lemma_emit(v.rf_receiver, s1);
        let s2 = s1.write_bytes(<Option<RfReceiver> as LLRPValue>::wire(v.rf_receiver));
        <Option<RfTransmitter> as LLRPValue>::lemma_emit(v.rf_transmitter, s2);
        let s3 = s2.write_bytes(<Option<RfTransmitter> as LLRPValue>::wire(v.rf_transmitter));
        <Vec<C1G2InventoryCommand> as LLRPValue>::lemma_emit(v.inventory_commands, s3);
        let s4 = s3.write_bytes(
            <Vec<C1G2InventoryCommand> as LLRPValue>::wire(v.inventory_commands),
        );
        <Vec<CustomParameter> as LLRPValue>::lemma_emit(v.custom, s4);
        let s5 = s4.write_bytes(<Vec<CustomParameter> as LLRPValue>::wire(v.custom));
        lemma_concat_empty(s5.bytes);
        lemma_concat_assoc(
            s4.bytes,
            <Vec<CustomParameter> as LLRPValue>::wire(v.custom),
            AntennaConfiguration::wire_from(v, 5),
        );
        lemma_concat_assoc(
            s3.bytes,
            <Vec<C1G2InventoryCommand> as LLRPValue>::wire(v.inventory_commands),
            AntennaConfiguration::wire_from(v, 4),
        );
        lemma_concat_assoc(
            s2.bytes,
            <Option<RfTransmitter> as LLRPValue>::wire(v.rf_transmitter),
            AntennaConfiguration::wire_from(v, 3),
        );
        lemma_concat_assoc(
            s1.bytes,
            <Option<RfReceiver> as LLRPValue>::wire(v.rf_receiver),
            AntennaConfiguration::wire_from(v, 2),
        );
        lemma_concat_assoc(
            s.bytes,
            <u16 as LLRPValue>::wire(v.antenna_id),
            AntennaConfiguration::wire_from(v, 1),
        );
    }

    proof fn lemma_parse_body(v: AntennaConfigurationView) {
        AntennaConfiguration::lemma_parse_front(v);
        AntennaConfiguration::lemma_parse_back(v);
        reveal(AntennaConfiguration::read_fields);
    }

    fn decode_body(decoder: &mut Decoder) -> (r: Result<Self, Error>) {
        proof {
            reveal(AntennaConfiguration::read_fields);
        }
        let front = Self::decode_front(decoder)?;
        Self::decode_back(front, decoder)
    }

    fn encode_body(&self, encoder: &mut Encoder) {
        proof {
            reveal(AntennaConfiguration::write_fields);
        }
        encoder.write(&self.antenna_id);
        encoder.write(&self.rf_receiver);
        encoder.write(&self.rf_transmitter);
        encoder.write(&self.inventory_commands);
        encoder.write(&self.custom);
    }
}

/// The receiver settings of an antenna.
#[derive(Debug, PartialEq, Eq)]
pub struct RfReceiver {
    pub receiver_sensitivity: u16,
}

impl DeepView for RfReceiver {
    type V = RfReceiver;

    open spec fn deep_view(&self) -> RfReceiver {
        *self
    }
}

impl RfReceiver {
    /// The bytes of the fields from the `k`-th on.
    #[verifier::opaque]
    pub open spec fn wire_from(v: RfReceiver, k: nat) -> Seq<u8>
        decreases 1 - k,
    {
        if k == 0 {
            <u16 as LLRPValue>::wire(v.receiver_sensitivity) + Self::wire_from(v, 1)
        } else {
            Seq::empty()
        }
    }

    /// The bytes of the fields, one field at a time.
    pub proof fn lemma_wire_from(v: RfReceiver)
        ensures
            Self::wire_from(v, 0) == <u16 as LLRPValue>::wire(v.receiver_sensitivity)
                + Self::wire_from(v, 1),
            Self::wire_from(v, 1) == Seq::<u8>::empty(),
    {
        reveal(RfReceiver::wire_from);
    }

    /// Whether the fields fit the format, each before the fields behind it.
    #[verifier::opaque]
    pub open spec fn fits(v: RfReceiver) -> bool {
        true
    }

    /// The fields read in order, or the first error.
    #[verifier::opaque]
    pub open spec fn read_fields(s: DecoderState) -> Result<(RfReceiver, DecoderState), Error> {
        match <u16 as LLRPValue>::parse(s) {
            Err(e) => Err(e),
            Ok((receiver_sensitivity, s)) => Ok((RfReceiver { receiver_sensitivity }, s)),
        }
    }

    /// The state after the fields have been written in order.
    #[verifier::opaque]
    pub open spec fn write_fields(v: RfReceiver, s: EncoderState) -> EncoderState {
        let s = <u16 as LLRPValue>::emit(v.receiver_sensitivity, s);
        s
    }
}

impl TlvParameter for RfReceiver {
    const ID: u16 = 223;

    open spec fn parse_body(s: DecoderState) -> Result<(RfReceiver, DecoderState), Error> {
        Self::read_fields(s)
    }

    open spec fn emit_body(v: RfReceiver, s: EncoderState) -> EncoderState {
        Self::write_fields(v, s)
    }

    open spec fn wire_body(v: RfReceiver) -> Seq<u8> {
        Self::wire_from(v, 0)
    }

    open spec fn canonical_body(v: RfReceiver) -> bool {
        Self::fits(v)
    }

    proof fn lemma_emit_body(v: RfReceiver, s: EncoderState) {
        reveal(RfReceiver::write_fields);
        RfReceiver::lemma_wire_from(v);
        <u16 as LLRPValue>::lemma_emit(v.receiver_sensitivity, s);
        let s1 = s.write_bytes(<u16 as LLRPValue>::wire(v.receiver_sensitivity));
        lemma_concat_empty(s1.bytes);
        lemma_concat_assoc(
            s.bytes,
            <u16 as LLRPValue>::wire(v.receiver_sensitivity),
            RfReceiver::wire_from(v, 1),
        );
    }

    proof fn lemma_parse_body(v: RfReceiver) {
        reveal(RfReceiver::fits);
        reveal(RfReceiver::read_fields);
        if Self::canonical_body(v) {
            RfReceiver::lemma_wire_from(v);
            assert(<u16 as LLRPValue>::parse(DecoderState::start(Self::wire_from(v, 0))) == Ok::<(u16, DecoderState), Error>((v.receiver_sensitivity, DecoderState::start(Self::wire_from(v, 1))))) by {
                <u16 as LLRPValue>::lemma_parse(v.receiver_sensitivity, Self::wire_from(v, 1));
            }
        }
    }

    fn decode_body(decoder: &mut Decoder) -> (r: Result<Self, Error>) {
        proof {
            reveal(RfReceiver::read_fields);
        }
        let receiver_sensitivity = decoder.read::<u16>()?;
        Ok(RfReceiver { receiver_sensitivity })
    }

    fn encode_body(&self, encoder: &mut Encoder) {
        proof {
            reveal(RfReceiver::write_fields);
        }
        encoder.write(&self.receiver_sensitivity);
    }
}

/// The transmitter settings of an antenna.
#[derive(Debug, PartialEq, Eq)]
pub struct RfTransmitter {
    pub hop_table_id: u16,
    pub channel_index: u16,
    pub transmit_power: u16,
}

impl DeepView for RfTransmitter {
    type V = RfTransmitter;

    open spec fn deep_view(&self) -> RfTransmitter {
        *self
    }
}

impl RfTransmitter {
    /// The bytes of the fields from the `k`-th on.
    #[verifier::opaque]
    pub open spec fn wire_from(v: RfTransmitter, k: nat) -> Seq<u8>
        decreases 3 - k,
    {
        if k == 0 {
            <u16 as LLRPValue>::wire(v.hop_table_id) + Self::wire_from(v, 1)
        } else if k == 1 {
            <u16 as LLRPValue>::wire(v.channel_index) + Self::wire_from(v, 2)
        } else if k == 2 {
            <u16 as LLRPValue>::wire(v.transmit_power) + Self::wire_from(v, 3)
        } else {
            Seq::empty()
        }
    }

    /// The bytes of the fields, one field at a time.
    pub proof fn lemma_wire_from(v: RfTransmitter)
        ensures
            Self::wire_from(v, 0) == <u16 as LLRPValue>::wire(v.hop_table_id)
                + Self::wire_from(v, 1),
            Self::wire_from(v, 1) == <u16 as LLRPValue>::wire(v.channel_index)
                + Self::wire_from(v, 2),
            Self::wire_from(v, 2) == <u16 as LLRPValue>::wire(v.transmit_power)
                + Self::wire_from(v, 3),
            Self::wire_from(v, 3) == Seq::<u8>::empty(),
    {
        reveal(RfTransmitter::wire_from);
    }

    /// Whether the fields fit the format, each before the fields behind it.
    #[verifier::opaque]
    pub open spec fn fits(v: RfTransmitter) -> bool {
        true
    }

    /// The fields read in order, or the first error.
    #[verifier::opaque]
    pub open spec fn read_fields(s: DecoderState) -> Result<(RfTransmitter, DecoderState), Error> {
        match <u16 as LLRPValue>::parse(s) {
            Err(e) => Err(e),
            Ok((hop_table_id, s)) => match <u16 as LLRPValue>::parse(s) {
                Err(e) => Err(e),
                Ok((channel_index, s)) => match <u16 as LLRPValue>::parse(s) {
                    Err(e) => Err(e),
                    Ok((transmit_power, s)) => Ok((RfTransmitter { hop_table_id, channel_index, transmit_power }, s)),
                },
            },
        }
    }

    /// The state after the fields have been written in order.
    #[verifier::opaque]
    pub open spec fn write_fields(v: RfTransmitter, s: EncoderState) -> EncoderState {
        let s = <u16 as LLRPValue>::emit(v.hop_table_id, s);
        let s = <u16 as LLRPValue>::emit(v.channel_index, s);
        let s = <u16 as LLRPValue>::emit(v.transmit_power, s);
        s
    }
}

impl TlvParameter for RfTransmitter {
    const ID: u16 = 224;

    open spec fn parse_body(s: DecoderState) -> Result<(RfTransmitter, DecoderState), Error> {
        Self::read_fields(s)
    }

    open spec fn emit_body(v: RfTransmitter, s: EncoderState) -> EncoderState {
        Self::write_fields(v, s)
    }

    open spec fn wire_body(v: RfTransmitter) -> Seq<u8> {
        Self::wire_from(v, 0)
    }

    open spec fn canonical_body(v: RfTransmitter) -> bool {
        Self::fits(v)
    }

    proof fn lemma_emit_body(v: RfTransmitter, s: EncoderState) {
        reveal(RfTransmitter::write_fields);
        RfTransmitter::lemma_wire_from(v);
        <u16 as LLRPValue>::lemma_emit(v.hop_table_id, s);
        let s1 = s.write_bytes(<u16 as LLRPValue>::wire(v.hop_table_id));
        <u16 as LLRPValue>::lemma_emit(v.channel_index, s1);
        let s2 = s1.write_bytes(<u16 as LLRPValue>::wire(v.channel_index));
        <u16 as LLRPValue>::lemma_emit(v.transmit_power, s2);
        let s3 = s2.write_bytes(<u16 as LLRPValue>::wire(v.transmit_power));
        lemma_concat_empty(s3.bytes);
        lemma_concat_assoc(
            s2.bytes,
            <u16 as LLRPValue>::wire(v.transmit_power),
            RfTransmitter::wire_from(v, 3),
        );
        lemma_concat_assoc(
            s1.bytes,
            <u16 as LLRPValue>::wire(v.channel_index),
            RfTransmitter::wire_from(v, 2),
        );
        lemma_concat_assoc(
            s.bytes,
            <u16 as LLRPValue>::wire(v.hop_table_id),
            RfTransmitter::wire_from(v, 1),
        );
    }

    proof fn lemma_parse_body(v: RfTransmitter) {
        reveal(RfTransmitter::fits);
        reveal(RfTransmitter::read_fields);
        if Self::canonical_body(v) {
            RfTransmitter::lemma_wire_from(v);
            assert(<u16 as LLRPValue>::parse(DecoderState::start(Self::wire_from(v, 0))) == Ok::<(u16, DecoderState), Error>((v.hop_table_id, DecoderState::start(Self::wire_from(v, 1))))) by {
                <u16 as LLRPValue>::lemma_parse(v.hop_table_id, Self::wire_from(v, 1));
            }
            assert(<u16 as LLRPValue>::parse(DecoderState::start(Self::wire_from(v, 1))) == Ok::<(u16, DecoderState), Error>((v.channel_index, DecoderState::start(Self::wire_from(v, 2))))) by {
                <u16 as LLRPValue>::lemma_parse(v.channel_index, Self::wire_from(v, 2));
            }
            assert(<u16 as LLRPValue>::parse(DecoderState::start(Self::wire_from(v, 2))) == Ok::<(u16, DecoderState), Error>((v.transmit_power, DecoderState::start(Self::wire_from(v, 3))))) by {
                <u16 as LLRPValue>::lemma_parse(v.transmit_power, Self::wire_from(v, 3));
            }
        }
    }

    fn decode_body(decoder: &mut Decoder) -> (r: Result<Self, Error>) {
        proof {
            reveal(RfTransmitter::read_fields);
        }
        let hop_table_id = decoder.read::<u16>()?;
        let channel_index = decoder.read::<u16>()?;
        let transmit_power = decoder.read::<u16>()?;
        Ok(RfTransmitter { hop_table_id, channel_index, transmit_power })
    }

    fn encode_body(&self, encoder: &mut Encoder) {
        proof {
            reveal(RfTransmitter::write_fields);
        }
        encoder.write(&self.hop_table_id);
        encoder.write(&self.channel_index);
        encoder.write(&self.transmit_power);
    }
}

/// When and what a reader operation reports.
#[derive(Debug, PartialEq, Eq)]
pub struct RoReportSpec {}

impl DeepView for RoReportSpec {
    type V = RoReportSpec;

    open spec fn deep_view(&self) -> RoReportSpec {
        *self
    }
}

impl RoReportSpec {
    /// The bytes of the fields from the `k`-th on.
    #[verifier::opaque]
    pub open spec fn wire_from(v: RoReportSpec, k: nat) -> Seq<u8>
        decreases 0 - k,
    {
        {
            Seq::empty()
        }
    }

    /// The bytes of the fields, one field at a time.
    pub proof fn lemma_wire_from(v: RoReportSpec)
        ensures
            Self::wire_from(v, 0) == Seq::<u8>::empty(),
    {
        reveal(RoReportSpec::wire_from);
    }

    /// Whether the fields fit the format, each before the fields behind it.
    #[verifier::opaque]
    pub open spec fn fits(v: RoReportSpec) -> bool {
        true
    }

    /// The fields read in order, or the first error.
    #[verifier::opaque]
    pub open spec fn read_fields(s: DecoderState) -> Result<(RoReportSpec, DecoderState), Error> {
        Ok((RoReportSpec {  }, s))
    }

    /// The state after the fields have been written in order.
    #[verifier::opaque]
    pub open spec fn write_fields(v: RoReportSpec, s: EncoderState) -> EncoderState {
        s
    }
}

impl TlvParameter for RoReportSpec {
    const ID: u16 = 237;

    open spec fn parse_body(s: DecoderState) -> Result<(RoReportSpec, DecoderState), Error> {
        Self::read_fields(s)
    }

    open spec fn emit_body(v: RoReportSpec, s: EncoderState) -> EncoderState {
        Self::write_fields(v, s)
    }

    open spec fn wire_body(v: RoReportSpec) -> Seq<u8> {
        Self::wire_from(v, 0)
    }

    open spec fn canonical_body(v: RoReportSpec) -> bool {
        Self::fits(v)
    }

    proof fn lemma_emit_body(v: RoReportSpec, s: EncoderState) {
        reveal(RoReportSpec::write_fields);
        RoReportSpec::lemma_wire_from(v);
        lemma_concat_empty(s.bytes);
    }

    proof fn lemma_parse_body(v: RoReportSpec) {
        reveal(RoReportSpec::fits);
        reveal(RoReportSpec::read_fields);
        if Self::canonical_body(v) {
            RoReportSpec::lemma_wire_from(v);
        }
    }

    fn decode_body(decoder: &mut Decoder) -> (r: Result<Self, Error>) {
        proof {
            reveal(RoReportSpec::read_fields);
        }
        Ok(RoReportSpec {  })
    }

    fn encode_body(&self, encoder: &mut Encoder) {
        proof {
            reveal(RoReportSpec::write_fields);
        }
    }
}

/// An event that a reader reports.
#[derive(Debug, PartialEq, Eq)]
pub struct ReaderEventNotificationData {
    pub timestamp: UTCTimestamp,
    pub connection_attempt: Option<ConnectionEventAttempt>,
}

impl DeepView for ReaderEventNotificationData {
    type V = ReaderEventNotificationData;

    open spec fn deep_view(&self) -> ReaderEventNotificationData {
        *self
    }
}

impl ReaderEventNotificationData {
    /// The bytes of the fields from the `k`-th on.
    #[verifier::opaque]
    pub open spec fn wire_from(v: ReaderEventNotificationData, k: nat) -> Seq<u8>
        decreases 2 - k,
    {
        if k == 0 {
            <UTCTimestamp as LLRPValue>::wire(v.timestamp) + Self::wire_from(v, 1)
        } else if k == 1 {
            <Option<ConnectionEventAttempt> as LLRPValue>::wire(v.connection_attempt)
                + Self::wire_from(v, 2)
        } else {
            Seq::empty()
        }
    }

    /// The bytes of the fields, one field at a time.
    pub proof fn lemma_wire_from(v: ReaderEventNotificationData)
        ensures
            Self::wire_from(v, 0) == <UTCTimestamp as LLRPValue>::wire(v.timestamp)
                + Self::wire_from(v, 1),
            Self::wire_from(v, 1) == <Option<ConnectionEventAttempt> as LLRPValue>::wire(v.connection_attempt)
                + Self::wire_from(v, 2),
            Self::wire_from(v, 2) == Seq::<u8>::empty(),
    {
        reveal(ReaderEventNotificationData::wire_from);
    }

    /// Whether the fields fit the format, each before the fields behind it.
    #[verifier::opaque]
    pub open spec fn fits(v: ReaderEventNotificationData) -> bool {
        &&& <UTCTimestamp as LLRPValue>::canonical(v.timestamp)
        &&& <Option<ConnectionEventAttempt> as LLRPValue>::canonical(v.connection_attempt)
        &&& <Option<ConnectionEventAttempt> as LLRPValue>::follow_ok(
            v.connection_attempt,
            Self::wire_from(v, 2),
        )
    }

    /// The fields read in order, or the first error.
    #[verifier::opaque]
    pub open spec fn read_fields(s: DecoderState) -> Result<
        (ReaderEventNotificationData, DecoderState),
        Error,
    > {
        match <UTCTimestamp as LLRPValue>::parse(s) {
            Err(e) => Err(e),
            Ok((timestamp, s)) => match <Option<ConnectionEventAttempt> as LLRPValue>::parse(s) {
                Err(e) => Err(e),
                Ok((connection_attempt, s)) => Ok((ReaderEventNotificationData { timestamp, connection_attempt }, s)),
            },
        }
    }

    /// The state after the fields have been written in order.
    #[verifier::opaque]
    pub open spec fn write_fields(v: ReaderEventNotificationData, s: EncoderState) -> EncoderState {
        let s = <UTCTimestamp as LLRPValue>::emit(v.timestamp, s);
        let s = <Option<ConnectionEventAttempt> as LLRPValue>::emit(v.connection_attempt, s);
        s
    }
}

impl TlvParameter for ReaderEventNotificationData {
    const ID: u16 = 246;

    open spec fn parse_body(s: DecoderState) -> Result<
        (ReaderEventNotificationData, DecoderState),
        Error,
    > {
        Self::read_fields(s)
    }

    open spec fn emit_body(v: ReaderEventNotificationData, s: EncoderState) -> EncoderState {
        Self::write_fields(v, s)
    }

    open spec fn wire_body(v: ReaderEventNotificationData) -> Seq<u8> {
        Self::wire_from(v, 0)
    }

    open spec fn canonical_body(v: ReaderEventNotificationData) -> bool {
        Self::fits(v)
    }

    proof fn lemma_emit_body(v: ReaderEventNotificationData, s: EncoderState) {
        reveal(ReaderEventNotificationData::write_fields);
        ReaderEventNotificationData::lemma_wire_from(v);
        <UTCTimestamp as LLRPValue>::lemma_emit(v.timestamp, s);
        let s1 = s.write_bytes(<UTCTimestamp as LLRPValue>::wire(v.timestamp));
        <Option<ConnectionEventAttempt> as LLRPValue>::lemma_emit(v.connection_attempt, s1);
        let s2 = s1.write_bytes(
            <Option<ConnectionEventAttempt> as LLRPValue>::wire(v.connection_attempt),
        );
        lemma_concat_empty(s2.bytes);
        lemma_concat_assoc(
            s1.bytes,
            <Option<ConnectionEventAttempt> as LLRPValue>::wire(v.connection_attempt),
            ReaderEventNotificationData::wire_from(v, 2),
        );
        lemma_concat_assoc(
            s.bytes,
            <UTCTimestamp as LLRPValue>::wire(v.timestamp),
            ReaderEventNotificationData::wire_from(v, 1),
        );
    }

    proof fn lemma_parse_body(v: ReaderEventNotificationData) {
        reveal(ReaderEventNotificationData::fits);
        reveal(ReaderEventNotificationData::read_fields);
        if Self::canonical_body(v) {
            ReaderEventNotificationData::lemma_wire_from(v);
            assert(<UTCTimestamp as LLRPValue>::parse(DecoderState::start(Self::wire_from(v, 0))) == Ok::<(UTCTimestamp, DecoderState), Error>((v.timestamp, DecoderState::start(Self::wire_from(v, 1))))) by {
                <UTCTimestamp as LLRPValue>::lemma_parse(v.timestamp, Self::wire_from(v, 1));
            }
            assert(<Option<ConnectionEventAttempt> as LLRPValue>::parse(DecoderState::start(Self::wire_from(v, 1))) == Ok::<(Option<ConnectionEventAttempt>, DecoderState), Error>((v.connection_attempt, DecoderState::start(Self::wire_from(v, 2))))) by {
                <Option<ConnectionEventAttempt> as LLRPValue>::lemma_parse(
                    v.connection_attempt,
                    Self::wire_from(v, 2),
                );
            }
        }
    }

    fn decode_body(decoder: &mut Decoder) -> (r: Result<Self, Error>) {
        proof {
            reveal(ReaderEventNotificationData::read_fields);
        }
        let timestamp = decoder.read::<UTCTimestamp>()?;
        let connection_attempt = decoder.read::<Option<ConnectionEventAttempt>>()?;
        Ok(ReaderEventNotificationData { timestamp, connection_attempt })
    }

    fn encode_body(&self, encoder: &mut Encoder) {
        proof {
            reveal(ReaderEventNotificationData::write_fields);
        }
        encoder.write(&self.timestamp);
        encoder.write(&self.connection_attempt);
    }
}

/// A point in time, in microseconds since the epoch.
#[derive(Debug, PartialEq, Eq)]
pub struct UTCTimestamp {
    pub microseconds: u64,
}

impl DeepView for UTCTimestamp {
    type V = UTCTimestamp;

    open spec fn deep_view(&self) -> UTCTimestamp {
        *self
    }
}

impl UTCTimestamp {
    /// The bytes of the fields from the `k`-th on.
    #[verifier::opaque]
    pub open spec fn wire_from(v: UTCTimestamp, k: nat) -> Seq<u8>
        decreases 1 - k,
    {
        if k == 0 {
            <u64 as LLRPValue>::wire(v.microseconds) + Self::wire_from(v, 1)
        } else {
            Seq::empty()
        }
    }

    /// The bytes of the fields, one field at a time.
    pub proof fn lemma_wire_from(v: UTCTimestamp)
        ensures
            Self::wire_from(v, 0) == <u64 as LLRPValue>::wire(v.microseconds)
                + Self::wire_from(v, 1),
            Self::wire_from(v, 1) == Seq::<u8>::empty(),
    {
        reveal(UTCTimestamp::wire_from);
    }

    /// Whether the fields fit the format, each before the fields behind it.
    #[verifier::opaque]
    pub open spec fn fits(v: UTCTimestamp) -> bool {
        true
    }

    /// The fields read in order, or the first error.
    #[verifier::opaque]
    pub open spec fn read_fields(s: DecoderState) -> Result<(UTCTimestamp, DecoderState), Error> {
        match <u64 as LLRPValue>::parse(s) {
            Err(e) => Err(e),
            Ok((microseconds, s)) => Ok((UTCTimestamp { microseconds }, s)),
        }
    }

    /// The state after the fields have been written in order.
    #[verifier::opaque]
    pub open spec fn write_fields(v: UTCTimestamp, s: EncoderState) -> EncoderState {
        let s = <u64 as LLRPValue>::emit(v.microseconds, s);
        s
    }
}

impl TlvParameter for UTCTimestamp {
    const ID: u16 = 128;

    open spec fn parse_body(s: DecoderState) -> Result<(UTCTimestamp, DecoderState), Error> {
        Self::read_fields(s)
    }

    open spec fn emit_body(v: UTCTimestamp, s: EncoderState) -> EncoderState {
        Self::write_fields(v, s)
    }

    open spec fn wire_body(v: UTCTimestamp) -> Seq<u8> {
        Self::wire_from(v, 0)
    }

    open spec fn canonical_body(v: UTCTimestamp) -> bool {
        Self::fits(v)
    }

    proof fn lemma_emit_body(v: UTCTimestamp, s: EncoderState) {
        reveal(UTCTimestamp::write_fields);
        UTCTimestamp::lemma_wire_from(v);
        <u64 as LLRPValue>::lemma_emit(v.microseconds, s);
        let s1 = s.write_bytes(<u64 as LLRPValue>::wire(v.microseconds));
        lemma_concat_empty(s1.bytes);
        lemma_concat_assoc(
            s.bytes,
            <u64 as LLRPValue>::wire(v.microseconds),
            UTCTimestamp::wire_from(v, 1),
        );
    }

    proof fn lemma_parse_body(v: UTCTimestamp) {
        reveal(UTCTimestamp::fits);
        reveal(UTCTimestamp::read_fields);
        if Self::canonical_body(v) {
            UTCTimestamp::lemma_wire_from(v);
            assert(<u64 as LLRPValue>::parse(DecoderState::start(Self::wire_from(v, 0))) == Ok::<(u64, DecoderState), Error>((v.microseconds, DecoderState::start(Self::wire_from(v, 1))))) by {
                <u64 as LLRPValue>::lemma_parse(v.microseconds, Self::wire_from(v, 1));
            }
        }
    }

    fn decode_body(decoder: &mut Decoder) -> (r: Result<Self, Error>) {
        proof {
            reveal(UTCTimestamp::read_fields);
        }
        let microseconds = decoder.read::<u64>()?;
        Ok(UTCTimestamp { microseconds })
    }

    fn encode_body(&self, encoder: &mut Encoder) {
        proof {
            reveal(UTCTimestamp::write_fields);
        }
        encoder.write(&self.microseconds);
    }
}

/// How an attempt to connect to the reader went.
#[derive(Debug, PartialEq, Eq)]
pub struct ConnectionEventAttempt {
    pub status: StatusCode,
}

impl DeepView for ConnectionEventAttempt {
    type V = ConnectionEventAttempt;

    open spec fn deep_view(&self) -> ConnectionEventAttempt {
        *self
    }
}

impl ConnectionEventAttempt {
    /// The bytes of the fields from the `k`-th on.
    #[verifier::opaque]
    pub open spec fn wire_from(v: ConnectionEventAttempt, k: nat) -> Seq<u8>
        decreases 1 - k,
    {
        if k == 0 {
            <u16 as LLRPValue>::wire(<u16 as Bits>::of_bits(v.status.value()))
                + Self::wire_from(v, 1)
        } else {
            Seq::empty()
        }
    }

    /// The bytes of the fields, one field at a time.
    pub proof fn lemma_wire_from(v: ConnectionEventAttempt)
        ensures
            Self::wire_from(v, 0) == <u16 as LLRPValue>::wire(<u16 as Bits>::of_bits(v.status.value()))
                + Self::wire_from(v, 1),
            Self::wire_from(v, 1) == Seq::<u8>::empty(),
    {
        reveal(ConnectionEventAttempt::wire_from);
    }

    /// Whether the fields fit the format, each before the fields behind it.
    #[verifier::opaque]
    pub open spec fn fits(v: ConnectionEventAttempt) -> bool {
        &&& enum_fits::<StatusCode, u16>(v.status)
    }

    /// The fields read in order, or the first error.
    #[verifier::opaque]
    pub open spec fn read_fields(s: DecoderState) -> Result<
        (ConnectionEventAttempt, DecoderState),
        Error,
    > {
        match parse_enum::<StatusCode, u16>(s) {
            Err(e) => Err(e),
            Ok((status, s)) => Ok((ConnectionEventAttempt { status }, s)),
        }
    }

    /// The state after the fields have been written in order.
    #[verifier::opaque]
    pub open spec fn write_fields(v: ConnectionEventAttempt, s: EncoderState) -> EncoderState {
        let s = <u16 as LLRPValue>::emit(<u16 as Bits>::of_bits(v.status.value()), s);
        s
    }
}

impl TlvParameter for ConnectionEventAttempt {
    const ID: u16 = 256;

    open spec fn parse_body(s: DecoderState) -> Result<
        (ConnectionEventAttempt, DecoderState),
        Error,
    > {
        Self::read_fields(s)
    }

    open spec fn emit_body(v: ConnectionEventAttempt, s: EncoderState) -> EncoderState {
        Self::write_fields(v, s)
    }

    open spec fn wire_body(v: ConnectionEventAttempt) -> Seq<u8> {
        Self::wire_from(v, 0)
    }

    open spec fn canonical_body(v: ConnectionEventAttempt) -> bool {
        Self::fits(v)
    }

    proof fn lemma_emit_body(v: ConnectionEventAttempt, s: EncoderState) {
        reveal(ConnectionEventAttempt::write_fields);
        ConnectionEventAttempt::lemma_wire_from(v);
        <u16 as LLRPValue>::lemma_emit(<u16 as Bits>::of_bits(v.status.value()), s);
        let s1 = s.write_bytes(<u16 as LLRPValue>::wire(<u16 as Bits>::of_bits(v.status.value())));
        lemma_concat_empty(s1.bytes);
        lemma_concat_assoc(
            s.bytes,
            <u16 as LLRPValue>::wire(<u16 as Bits>::of_bits(v.status.value())),
            ConnectionEventAttempt::wire_from(v, 1),
        );
    }

    proof fn lemma_parse_body(v: ConnectionEventAttempt) {
        reveal(ConnectionEventAttempt::fits);
        reveal(ConnectionEventAttempt::read_fields);
        if Self::canonical_body(v) {
            ConnectionEventAttempt::lemma_wire_from(v);
            assert(parse_enum::<StatusCode, u16>(DecoderState::start(Self::wire_from(v, 0))) == Ok::<(StatusCode, DecoderState), Error>((v.status, DecoderState::start(Self::wire_from(v, 1))))) by {
                lemma_enum_front::<StatusCode, u16>(v.status, Self::wire_from(v, 1));
            }
        }
    }

    fn decode_body(decoder: &mut Decoder) -> (r: Result<Self, Error>) {
        proof {
            reveal(ConnectionEventAttempt::read_fields);
        }
        let status = decoder.read_enum::<StatusCode, u16>()?;
        Ok(ConnectionEventAttempt { status })
    }

    fn encode_body(&self, encoder: &mut Encoder) {
        proof {
            reveal(ConnectionEventAttempt::write_fields);
        }
        encoder.write_enum::<StatusCode, u16>(&self.status);
    }
}

/// How to run an inventory over the Class-1 Generation-2 air protocol.
#[derive(Debug, PartialEq, Eq)]
pub struct C1G2InventoryCommand {
    pub tag_inventory_state_aware: u8,
    pub filter: Vec<C1G2Filter>,
    pub rf_control: Option<C1G2RfControl>,
    pub singulation_control: Option<C1G2SingulationControl>,
    pub custom: Vec<CustomParameter>,
}

/// The model of a `C1G2InventoryCommand`.
pub struct C1G2InventoryCommandView {
    pub tag_inventory_state_aware: u8,
    pub filter: Seq<C1G2Filter>,
    pub rf_control: Option<C1G2RfControl>,
    pub singulation_control: Option<C1G2SingulationControl>,
    pub custom: Seq<CustomParameter>,
}

impl DeepView for C1G2InventoryCommand {
    type V = C1G2InventoryCommandView;

    open spec fn deep_view(&self) -> C1G2InventoryCommandView {
        C1G2InventoryCommandView {
            tag_inventory_state_aware: self.tag_inventory_state_aware,
            filter: self.filter.deep_view(),
            rf_control: self.rf_control.deep_view(),
            singulation_control: self.singulation_control.deep_view(),
            custom: self.custom.deep_view(),
        }
    }
}

impl C1G2InventoryCommand {
    /// The bytes of the fields from the `k`-th on.
    #[verifier::opaque]
    pub open spec fn wire_from(v: C1G2InventoryCommandView, k: nat) -> Seq<u8>
        decreases 5 - k,
    {
        if k == 0 {
            <u8 as LLRPValue>::wire(v.tag_inventory_state_aware) + Self::wire_from(v, 1)
        } else if k == 1 {
            <Vec<C1G2Filter> as LLRPValue>::wire(v.filter) + Self::wire_from(v, 2)
        } else if k == 2 {
            <Option<C1G2RfControl> as LLRPValue>::wire(v.rf_control) + Self::wire_from(v, 3)
        } else if k == 3 {
            <Option<C1G2SingulationControl> as LLRPValue>::wire(v.singulation_control)
                + Self::wire_from(v, 4)
        } else if k == 4 {
            <Vec<CustomParameter> as LLRPValue>::wire(v.custom) + Self::wire_from(v, 5)
        } else {
            Seq::empty()
        }
    }

    /// The bytes of the fields, one field at a time.
    pub proof fn lemma_wire_from(v: C1G2InventoryCommandView)
        ensures
            Self::wire_from(v, 0) == <u8 as LLRPValue>::wire(v.tag_inventory_state_aware)
                + Self::wire_from(v, 1),
            Self::wire_from(v, 1) == <Vec<C1G2Filter> as LLRPValue>::wire(v.filter)
                + Self::wire_from(v, 2),
            Self::wire_from(v, 2) == <Option<C1G2RfControl> as LLRPValue>::wire(v.rf_control)
                + Self::wire_from(v, 3),
            Self::wire_from(v, 3) == <Option<C1G2SingulationControl> as LLRPValue>::wire(v.singulation_control)
                + Self::wire_from(v, 4),
            Self::wire_from(v, 4) == <Vec<CustomParameter> as LLRPValue>::wire(v.custom)
                + Self::wire_from(v, 5),
            Self::wire_from(v, 5) == Seq::<u8>::empty(),
    {
        reveal(C1G2InventoryCommand::wire_from);
    }

    /// Whether the fields fit the format, each before the fields behind it.
    #[verifier::opaque]
    pub open spec fn fits(v: C1G2InventoryCommandView) -> bool {
        &&& <Vec<C1G2Filter> as LLRPValue>::canonical(v.filter)
        &&& <Vec<C1G2Filter> as LLRPValue>::follow_ok(v.filter, Self::wire_from(v, 2))
        &&& <Option<C1G2RfControl> as LLRPValue>::canonical(v.rf_control)
        &&& <Option<C1G2RfControl> as LLRPValue>::follow_ok(v.rf_control, Self::wire_from(v, 3))
        &&& <Option<C1G2SingulationControl> as LLRPValue>::canonical(v.singulation_control)
        &&& <Option<C1G2SingulationControl> as LLRPValue>::follow_ok(
            v.singulation_control,
            Self::wire_from(v, 4),
        )
        &&& <Vec<CustomParameter> as LLRPValue>::canonical(v.custom)
        &&& <Vec<CustomParameter> as LLRPValue>::follow_ok(v.custom, Self::wire_from(v, 5))
    }

    /// The first fields read in order, or the first error.
    #[verifier::opaque]
    pub open spec fn read_front(s: DecoderState) -> Result<
        ((u8, Seq<C1G2Filter>), DecoderState),
        Error,
    > {
        match <u8 as LLRPValue>::parse(s) {
            Err(e) => Err(e),
            Ok((tag_inventory_state_aware, s)) => match <Vec<C1G2Filter> as LLRPValue>::parse(s) {
                Err(e) => Err(e),
                Ok((filter, s)) => Ok(((tag_inventory_state_aware, filter), s)),
            },
        }
    }

    /// The other fields read in order behind the first, or the first error.
    #[verifier::opaque]
    pub open spec fn read_back(front: (u8, Seq<C1G2Filter>), s: DecoderState) -> Result<
        (C1G2InventoryCommandView, DecoderState),
        Error,
    > {
        match <Option<C1G2RfControl> as LLRPValue>::parse(s) {
            Err(e) => Err(e),
            Ok((rf_control, s)) => match <Option<C1G2SingulationControl> as LLRPValue>::parse(s) {
                Err(e) => Err(e),
                Ok((singulation_control, s)) => match <Vec<CustomParameter> as LLRPValue>::parse(s) {
                    Err(e) => Err(e),
                    Ok((custom, s)) => Ok((C1G2InventoryCommandView { tag_inventory_state_aware: front.0, filter: front.1, rf_control, singulation_control, custom }, s)),
                },
            },
        }
    }

    /// The fields read in order, or the first error.
    #[verifier::opaque]
    pub open spec fn read_fields(s: DecoderState) -> Result<
        (C1G2InventoryCommandView, DecoderState),
        Error,
    > {
        match Self::read_front(s) {
            Err(e) => Err(e),
            Ok((front, s)) => Self::read_back(front, s),
        }
    }

    /// The state after the fields have been written in order.
    #[verifier::opaque]
    pub open spec fn write_fields(v: C1G2InventoryCommandView, s: EncoderState) -> EncoderState {
        let s = <u8 as LLRPValue>::emit(v.tag_inventory_state_aware, s);
        let s = <Vec<C1G2Filter> as LLRPValue>::emit(v.filter, s);
        let s = <Option<C1G2RfControl> as LLRPValue>::emit(v.rf_control, s);
        let s = <Option<C1G2SingulationControl> as LLRPValue>::emit(v.singulation_control, s);
        let s = <Vec<CustomParameter> as LLRPValue>::emit(v.custom, s);
        s
    }

    fn decode_front(decoder: &mut Decoder) -> (r: Result<(u8, Vec<C1G2Filter>), Error>)
        ensures
            match Self::read_front(old(decoder)@) {
                Ok((front, s)) => {
                    &&& r is Ok
                    &&& r->Ok_0.0 == front.0
                    &&& r->Ok_0.1.deep_view() == front.1
                    &&& final(decoder)@ == s
                },
                Err(e) => r == Err::<(u8, Vec<C1G2Filter>), Error>(e),
            },
    {
        proof {
            reveal(C1G2InventoryCommand::read_front);
        }
        let tag_inventory_state_aware = decoder.read::<u8>()?;
        let filter = decoder.read::<Vec<C1G2Filter>>()?;
        Ok((tag_inventory_state_aware, filter))
    }

    fn decode_back(front: (u8, Vec<C1G2Filter>), decoder: &mut Decoder) -> (r: Result<C1G2InventoryCommand, Error>)
        ensures
            decoded::<C1G2InventoryCommand>(
                Self::read_back((front.0, front.1.deep_view()), old(decoder)@),
                r,
                final(decoder)@,
            ),
    {
        proof {
            reveal(C1G2InventoryCommand::read_back);
        }
        let rf_control = decoder.read::<Option<C1G2RfControl>>()?;
        let singulation_control = decoder.read::<Option<C1G2SingulationControl>>()?;
        let custom = decoder.read::<Vec<CustomParameter>>()?;
        Ok(C1G2InventoryCommand { tag_inventory_state_aware: front.0, filter: front.1, rf_control, singulation_control, custom })
    }

    /// The first fields are read back from the bytes of all.
    pub proof fn lemma_parse_front(v: C1G2InventoryCommandView)
        ensures
            Self::fits(v) ==> Self::read_front(DecoderState::start(Self::wire_from(v, 0))) == Ok::<
                ((u8, Seq<C1G2Filter>), DecoderState),
                Error,
            >(((v.tag_inventory_state_aware, v.filter), DecoderState::start(Self::wire_from(v, 2)))),
    {
        reveal(C1G2InventoryCommand::fits);
        reveal(C1G2InventoryCommand::read_front);
        if Self::fits(v) {
            C1G2InventoryCommand::lemma_wire_from(v);
            assert(<u8 as LLRPValue>::parse(DecoderState::start(Self::wire_from(v, 0))) == Ok::<(u8, DecoderState), Error>((v.tag_inventory_state_aware, DecoderState::start(Self::wire_from(v, 1))))) by {
                <u8 as LLRPValue>::lemma_parse(v.tag_inventory_state_aware, Self::wire_from(v, 1));
            }
            assert(<Vec<C1G2Filter> as LLRPValue>::parse(DecoderState::start(Self::wire_from(v, 1))) == Ok::<(Seq<C1G2Filter>, DecoderState), Error>((v.filter, DecoderState::start(Self::wire_from(v, 2))))) by {
                <Vec<C1G2Filter> as LLRPValue>::lemma_parse(v.filter, Self::wire_from(v, 2));
            }
        }
    }

    /// The other fields are read back from the bytes behind the first.
    pub proof fn lemma_parse_back(v: C1G2InventoryCommandView)
        ensures
            Self::fits(
                v) ==> Self::read_back((v.tag_inventory_state_aware,
                v.filter), DecoderState::start(Self::wire_from(v, 2)),
            )
                == Ok::<(
                    C1G2InventoryCommandView,
                    DecoderState), Error>((v,
                    DecoderState::start(Seq::empty())),
                ),
    {
        reveal(C1G2InventoryCommand::fits);
        reveal(C1G2InventoryCommand::read_back);
        if Self::fits(v) {
            C1G2InventoryCommand::lemma_wire_from(v);
            assert(<Option<C1G2RfControl> as LLRPValue>::parse(DecoderState::start(Self::wire_from(v, 2))) == Ok::<(Option<C1G2RfControl>, DecoderState), Error>((v.rf_control, DecoderState::start(Self::wire_from(v, 3))))) by {
                <Option<C1G2RfControl> as LLRPValue>::lemma_parse(
                    v.rf_control,
                    Self::wire_from(v, 3),
                );
            }
            assert(<Option<C1G2SingulationControl> as LLRPValue>::parse(DecoderState::start(Self::wire_from(v, 3))) == Ok::<(Option<C1G2SingulationControl>, DecoderState), Error>((v.singulation_control, DecoderState::start(Self::wire_from(v, 4))))) by {
                <Option<C1G2SingulationControl> as LLRPValue>::lemma_parse(
                    v.singulation_control,
                    Self::wire_from(v, 4),
                );
            }
            assert(<Vec<CustomParameter> as LLRPValue>::parse(DecoderState::start(Self::wire_from(v, 4))) == Ok::<(Seq<CustomParameter>, DecoderState), Error>((v.custom, DecoderState::start(Self::wire_from(v, 5))))) by {
                <Vec<CustomParameter> as LLRPValue>::lemma_parse(v.custom, Self::wire_from(v, 5));
            }
        }
    }
}

impl TlvParameter for C1G2InventoryCommand {
    const ID: u16 = 330;

    open spec fn parse_body(s: DecoderState) -> Result<
        (C1G2InventoryCommandView, DecoderState),
        Error,
    > {
        Self::read_fields(s)
    }

    open spec fn emit_body(v: C1G2InventoryCommandView, s: EncoderState) -> EncoderState {
        Self::write_fields(v, s)
    }

    open spec fn wire_body(v: C1G2InventoryCommandView) -> Seq<u8> {
        Self::wire_from(v, 0)
    }

    open spec fn canonical_body(v: C1G2InventoryCommandView) -> bool {
        Self::fits(v)
    }

    proof fn lemma_emit_body(v: C1G2InventoryCommandView, s: EncoderState) {
        reveal(C1G2InventoryCommand::write_fields);
        C1G2InventoryCommand::lemma_wire_from(v);
        <u8 as LLRPValue>::lemma_emit(v.tag_inventory_state_aware, s);
        let s1 = s.write_bytes(<u8 as LLRPValue>::wire(v.tag_inventory_state_aware));
        <Vec<C1G2Filter> as LLRPValue>::lemma_emit(v.filter, s1);
        let s2 = s1.write_bytes(<Vec<C1G2Filter> as LLRPValue>::wire(v.filter));
        <Option<C1G2RfControl> as LLRPValue>::lemma_emit(v.rf_control, s2);
        let s3 = s2.write_bytes(<Option<C1G2RfControl> as LLRPValue>::wire(v.rf_control));
        <Option<C1G2SingulationControl> as LLRPValue>::lemma_emit(v.singulation_control, s3);
        let s4 = s3.write_bytes(
            <Option<C1G2SingulationControl> as LLRPValue>::wire(v.singulation_control),
        );
        <Vec<CustomParameter> as LLRPValue>::lemma_emit(v.custom, s4);
        let s5 = s4.write_bytes(<Vec<CustomParameter> as LLRPValue>::wire(v.custom));
        lemma_concat_empty(s5.bytes);
        lemma_concat_assoc(
            s4.bytes,
            <Vec<CustomParameter> as LLRPValue>::wire(v.custom),
            C1G2InventoryCommand::wire_from(v, 5),
        );
        lemma_concat_assoc(
            s3.bytes,
            <Option<C1G2SingulationControl> as LLRPValue>::wire(v.singulation_control),
            C1G2InventoryCommand::wire_from(v, 4),
        );
        lemma_concat_assoc(
            s2.bytes,
            <Option<C1G2RfControl> as LLRPValue>::wire(v.rf_control),
            C1G2InventoryCommand::wire_from(v, 3),
        );
        lemma_concat_assoc(
            s1.bytes,
            <Vec<C1G2Filter> as LLRPValue>::wire(v.filter),
            C1G2InventoryCommand::wire_from(v, 2),
        );
        lemma_concat_assoc(
            s.bytes,
            <u8 as LLRPValue>::wire(v.tag_inventory_state_aware),
            C1G2InventoryCommand::wire_from(v, 1),
        );
    }

    proof fn lemma_parse_body(v: C1G2InventoryCommandView) {
        C1G2InventoryCommand::lemma_parse_front(v);
        C1G2InventoryCommand::lemma_parse_back(v);
        reveal(C1G2InventoryCommand::read_fields);
    }

    fn decode_body(decoder: &mut Decoder) -> (r: Result<Self, Error>) {
        proof {
            reveal(C1G2InventoryCommand::read_fields);
        }
        let front = Self::decode_front(decoder)?;
        Self::decode_back(front, decoder)
    }

    fn encode_body(&self, encoder: &mut Encoder) {
        proof {
            reveal(C1G2InventoryCommand::write_fields);
        }
        encoder.write(&self.tag_inventory_state_aware);
        encoder.write(&self.filter);
        encoder.write(&self.rf_control);
        encoder.write(&self.singulation_control);
        encoder.write(&self.custom);
    }
}

/// Selects the tags that take part in an inventory.
#[derive(Debug, PartialEq, Eq)]
pub struct C1G2Filter {}

impl DeepView for C1G2Filter {
    type V = C1G2Filter;

    open spec fn deep_view(&self) -> C1G2Filter {
        *self
    }
}

impl C1G2Filter {
    /// The bytes of the fields from the `k`-th on.
    #[verifier::opaque]
    pub open spec fn wire_from(v: C1G2Filter, k: nat) -> Seq<u8>
        decreases 0 - k,
    {
        {
            Seq::empty()
        }
    }

    /// The bytes of the fields, one field at a time.
    pub proof fn lemma_wire_from(v: C1G2Filter)
        ensures
            Self::wire_from(v, 0) == Seq::<u8>::empty(),
    {
        reveal(C1G2Filter::wire_from);
    }

    /// Whether the fields fit the format, each before the fields behind it.
    #[verifier::opaque]
    pub open spec fn fits(v: C1G2Filter) -> bool {
        true
    }

    /// The fields read in order, or the first error.
    #[verifier::opaque]
    pub open spec fn read_fields(s: DecoderState) -> Result<(C1G2Filter, DecoderState), Error> {
        Ok((C1G2Filter {  }, s))
    }

    /// The state after the fields have been written in order.
    #[verifier::opaque]
    pub open spec fn write_fields(v: C1G2Filter, s: EncoderState) -> EncoderState {
        s
    }
}

impl TlvParameter for C1G2Filter {
    const ID: u16 = 331;

    open spec fn parse_body(s: DecoderState) -> Result<(C1G2Filter, DecoderState), Error> {
        Self::read_fields(s)
    }

    open spec fn emit_body(v: C1G2Filter, s: EncoderState) -> EncoderState {
        Self::write_fields(v, s)
    }

    open spec fn wire_body(v: C1G2Filter) -> Seq<u8> {
        Self::wire_from(v, 0)
    }

    open spec fn canonical_body(v: C1G2Filter) -> bool {
        Self::fits(v)
    }

    proof fn lemma_emit_body(v: C1G2Filter, s: EncoderState) {
        reveal(C1G2Filter::write_fields);
        C1G2Filter::lemma_wire_from(v);
        lemma_concat_empty(s.bytes);
    }

    proof fn lemma_parse_body(v: C1G2Filter) {
        reveal(C1G2Filter::fits);
        reveal(C1G2Filter::read_fields);
        if Self::canonical_body(v) {
            C1G2Filter::lemma_wire_from(v);
        }
    }

    fn decode_body(decoder: &mut Decoder) -> (r: Result<Self, Error>) {
        proof {
            reveal(C1G2Filter::read_fields);
        }
        Ok(C1G2Filter {  })
    }

    fn encode_body(&self, encoder: &mut Encoder) {
        proof {
            reveal(C1G2Filter::write_fields);
        }
    }
}

/// The radio settings of an inventory.
#[derive(Debug, PartialEq, Eq)]
pub struct C1G2RfControl {
    pub mode_index: u16,
    pub tari: u16,
}

impl DeepView for C1G2RfControl {
    type V = C1G2RfControl;

    open spec fn deep_view(&self) -> C1G2RfControl {
        *self
    }
}

impl C1G2RfControl {
    /// The bytes of the fields from the `k`-th on.
    #[verifier::opaque]
    pub open spec fn wire_from(v: C1G2RfControl, k: nat) -> Seq<u8>
        decreases 2 - k,
    {
        if k == 0 {
            <u16 as LLRPValue>::wire(v.mode_index) + Self::wire_from(v, 1)
        } else if k == 1 {
            <u16 as LLRPValue>::wire(v.tari) + Self::wire_from(v, 2)
        } else {
            Seq::empty()
        }
    }

    /// The bytes of the fields, one field at a time.
    pub proof fn lemma_wire_from(v: C1G2RfControl)
        ensures
            Self::wire_from(v, 0) == <u16 as LLRPValue>::wire(v.mode_index) + Self::wire_from(v, 1),
            Self::wire_from(v, 1) == <u16 as LLRPValue>::wire(v.tari) + Self::wire_from(v, 2),
            Self::wire_from(v, 2) == Seq::<u8>::empty(),
    {
        reveal(C1G2RfControl::wire_from);
    }

    /// Whether the fields fit the format, each before the fields behind it.
    #[verifier::opaque]
    pub open spec fn fits(v: C1G2RfControl) -> bool {
        true
    }

    /// The fields read in order, or the first error.
    #[verifier::opaque]
    pub open spec fn read_fields(s: DecoderState) -> Result<(C1G2RfControl, DecoderState), Error> {
        match <u16 as LLRPValue>::parse(s) {
            Err(e) => Err(e),
            Ok((mode_index, s)) => match <u16 as LLRPValue>::parse(s) {
                Err(e) => Err(e),
                Ok((tari, s)) => Ok((C1G2RfControl { mode_index, tari }, s)),
            },
        }
    }

    /// The state after the fields have been written in order.
    #[verifier::opaque]
    pub open spec fn write_fields(v: C1G2RfControl, s: EncoderState) -> EncoderState {
        let s = <u16 as LLRPValue>::emit(v.mode_index, s);
        let s = <u16 as LLRPValue>::emit(v.tari, s);
        s
    }
}

impl TlvParameter for C1G2RfControl {
    const ID: u16 = 335;

    open spec fn parse_body(s: DecoderState) -> Result<(C1G2RfControl, DecoderState), Error> {
        Self::read_fields(s)
    }

    open spec fn emit_body(v: C1G2RfControl, s: EncoderState) -> EncoderState {
        Self::write_fields(v, s)
    }

    open spec fn wire_body(v: C1G2RfControl) -> Seq<u8> {
        Self::wire_from(v, 0)
    }

    open spec fn canonical_body(v: C1G2RfControl) -> bool {
        Self::fits(v)
    }

    proof fn lemma_emit_body(v: C1G2RfControl, s: EncoderState) {
        reveal(C1G2RfControl::write_fields);
        C1G2RfControl::lemma_wire_from(v);
        <u16 as LLRPValue>::lemma_emit(v.mode_index, s);
        let s1 = s.write_bytes(<u16 as LLRPValue>::wire(v.mode_index));
        <u16 as LLRPValue>::lemma_emit(v.tari, s1);
        let s2 = s1.write_bytes(<u16 as LLRPValue>::wire(v.tari));
        lemma_concat_empty(s2.bytes);
        lemma_concat_assoc(
            s1.bytes,
            <u16 as LLRPValue>::wire(v.tari),
            C1G2RfControl::wire_from(v, 2),
        );
        lemma_concat_assoc(
            s.bytes,
            <u16 as LLRPValue>::wire(v.mode_index),
            C1G2RfControl::wire_from(v, 1),
        );
    }

    proof fn lemma_parse_body(v: C1G2RfControl) {
        reveal(C1G2RfControl::fits);
        reveal(C1G2RfControl::read_fields);
        if Self::canonical_body(v) {
            C1G2RfControl::lemma_wire_from(v);
            assert(<u16 as LLRPValue>::parse(DecoderState::start(Self::wire_from(v, 0))) == Ok::<(u16, DecoderState), Error>((v.mode_index, DecoderState::start(Self::wire_from(v, 1))))) by {
                <u16 as LLRPValue>::lemma_parse(v.mode_index, Self::wire_from(v, 1));
            }
            assert(<u16 as LLRPValue>::parse(DecoderState::start(Self::wire_from(v, 1))) == Ok::<(u16, DecoderState), Error>((v.tari, DecoderState::start(Self::wire_from(v, 2))))) by {
                <u16 as LLRPValue>::lemma_parse(v.tari, Self::wire_from(v, 2));
            }
        }
    }

    fn decode_body(decoder: &mut Decoder) -> (r: Result<Self, Error>) {
        proof {
            reveal(C1G2RfControl::read_fields);
        }
        let mode_index = decoder.read::<u16>()?;
        let tari = decoder.read::<u16>()?;
        Ok(C1G2RfControl { mode_index, tari })
    }

    fn encode_body(&self, encoder: &mut Encoder) {
        proof {
            reveal(C1G2RfControl::write_fields);
        }
        encoder.write(&self.mode_index);
        encoder.write(&self.tari);
    }
}

/// How tags are singled out in an inventory.
#[derive(Debug, PartialEq, Eq)]
pub struct C1G2SingulationControl {
    /// The session, in the two high bits.
    pub session: u8,
    pub tag_population: u16,
    pub tag_transit_time: u32,
    pub tag_inventory_state_aware_action: Option<TagInventoryStateAwareSingulationAction>,
}

impl DeepView for C1G2SingulationControl {
    type V = C1G2SingulationControl;

    open spec fn deep_view(&self) -> C1G2SingulationControl {
        *self
    }
}

impl C1G2SingulationControl {
    /// The bytes of the fields from the `k`-th on.
    #[verifier::opaque]
    pub open spec fn wire_from(v: C1G2SingulationControl, k: nat) -> Seq<u8>
        decreases 4 - k,
    {
        if k == 0 {
            <u8 as LLRPValue>::wire(v.session) + Self::wire_from(v, 1)
        } else if k == 1 {
            <u16 as LLRPValue>::wire(v.tag_population) + Self::wire_from(v, 2)
        } else if k == 2 {
            <u32 as LLRPValue>::wire(v.tag_transit_time) + Self::wire_from(v, 3)
        } else if k == 3 {
            <Option<TagInventoryStateAwareSingulationAction> as LLRPValue>::wire(v.tag_inventory_state_aware_action)
                + Self::wire_from(v, 4)
        } else {
            Seq::empty()
        }
    }

    /// The bytes of the fields, one field at a time.
    pub proof fn lemma_wire_from(v: C1G2SingulationControl)
        ensures
            Self::wire_from(v, 0) == <u8 as LLRPValue>::wire(v.session) + Self::wire_from(v, 1),
            Self::wire_from(v, 1) == <u16 as LLRPValue>::wire(v.tag_population)
                + Self::wire_from(v, 2),
            Self::wire_from(v, 2) == <u32 as LLRPValue>::wire(v.tag_transit_time)
                + Self::wire_from(v, 3),
            Self::wire_from(v, 3) == <Option<TagInventoryStateAwareSingulationAction> as LLRPValue>::wire(v.tag_inventory_state_aware_action)
                + Self::wire_from(v, 4),
            Self::wire_from(v, 4) == Seq::<u8>::empty(),
    {
        reveal(C1G2SingulationControl::wire_from);
    }

    /// Whether the fields fit the format, each before the fields behind it.
    #[verifier::opaque]
    pub open spec fn fits(v: C1G2SingulationControl) -> bool {
        &&& <Option<TagInventoryStateAwareSingulationAction> as LLRPValue>::canonical(
            v.tag_inventory_state_aware_action,
        )
        &&& <Option<TagInventoryStateAwareSingulationAction> as LLRPValue>::follow_ok(
            v.tag_inventory_state_aware_action,
            Self::wire_from(v, 4),
        )
    }

    /// The fields read in order, or the first error.
    #[verifier::opaque]
    pub open spec fn read_fields(s: DecoderState) -> Result<
        (C1G2SingulationControl, DecoderState),
        Error,
    > {
        match <u8 as LLRPValue>::parse(s) {
            Err(e) => Err(e),
            Ok((session, s)) => match <u16 as LLRPValue>::parse(s) {
                Err(e) => Err(e),
                Ok((tag_population, s)) => match <u32 as LLRPValue>::parse(s) {
                    Err(e) => Err(e),
                    Ok((tag_transit_time, s)) => match <Option<TagInventoryStateAwareSingulationAction> as LLRPValue>::parse(s) {
                        Err(e) => Err(e),
                        Ok((tag_inventory_state_aware_action, s)) => Ok(
                            (
                                C1G2SingulationControl {
                                    session,
                                    tag_population,
                                    tag_transit_time,
                                    tag_inventory_state_aware_action,
                                },
                                s,
                            ),
                        ),
                    },
                },
            },
        }
    }

    /// The state after the fields have been written in order.
    #[verifier::opaque]
    pub open spec fn write_fields(v: C1G2SingulationControl, s: EncoderState) -> EncoderState {
        let s = <u8 as LLRPValue>::emit(v.session, s);
        let s = <u16 as LLRPValue>::emit(v.tag_population, s);
        let s = <u32 as LLRPValue>::emit(v.tag_transit_time, s);
        let s = <Option<TagInventoryStateAwareSingulationAction> as LLRPValue>::emit(
            v.tag_inventory_state_aware_action,
            s,
        );
        s
    }
}

impl TlvParameter for C1G2SingulationControl {
    const ID: u16 = 336;

    open spec fn parse_body(s: DecoderState) -> Result<
        (C1G2SingulationControl, DecoderState),
        Error,
    > {
        Self::read_fields(s)
    }

    open spec fn emit_body(v: C1G2SingulationControl, s: EncoderState) -> EncoderState {
        Self::write_fields(v, s)
    }

    open spec fn wire_body(v: C1G2SingulationControl) -> Seq<u8> {
        Self::wire_from(v, 0)
    }

    open spec fn canonical_body(v: C1G2SingulationControl) -> bool {
        Self::fits(v)
    }

    proof fn lemma_emit_body(v: C1G2SingulationControl, s: EncoderState) {
        reveal(C1G2SingulationControl::write_fields);
        C1G2SingulationControl::lemma_wire_from(v);
        <u8 as LLRPValue>::lemma_emit(v.session, s);
        let s1 = s.write_bytes(<u8 as LLRPValue>::wire(v.session));
        <u16 as LLRPValue>::lemma_emit(v.tag_population, s1);
        let s2 = s1.write_bytes(<u16 as LLRPValue>::wire(v.tag_population));
        <u32 as LLRPValue>::lemma_emit(v.tag_transit_time, s2);
        let s3 = s2.write_bytes(<u32 as LLRPValue>::wire(v.tag_transit_time));
        <Option<TagInventoryStateAwareSingulationAction> as LLRPValue>::lemma_emit(
            v.tag_inventory_state_aware_action,
            s3,
        );
        let s4 = s3.write_bytes(<Option<TagInventoryStateAwareSingulationAction> as LLRPValue>::wire(v.tag_inventory_state_aware_action));
        lemma_concat_empty(s4.bytes);
        lemma_concat_assoc(s3.bytes, <Option<TagInventoryStateAwareSingulationAction> as LLRPValue>::wire(v.tag_inventory_state_aware_action), C1G2SingulationControl::wire_from(v, 4));
        lemma_concat_assoc(
            s2.bytes,
            <u32 as LLRPValue>::wire(v.tag_transit_time),
            C1G2SingulationControl::wire_from(v, 3),
        );
        lemma_concat_assoc(
            s1.bytes,
            <u16 as LLRPValue>::wire(v.tag_population),
            C1G2SingulationControl::wire_from(v, 2),
        );
        lemma_concat_assoc(
            s.bytes,
            <u8 as LLRPValue>::wire(v.session),
            C1G2SingulationControl::wire_from(v, 1),
        );
    }

    proof fn lemma_parse_body(v: C1G2SingulationControl) {
        reveal(C1G2SingulationControl::fits);
        reveal(C1G2SingulationControl::read_fields);
        if Self::canonical_body(v) {
            C1G2SingulationControl::lemma_wire_from(v);
            assert(<u8 as LLRPValue>::parse(DecoderState::start(Self::wire_from(v, 0))) == Ok::<(u8, DecoderState), Error>((v.session, DecoderState::start(Self::wire_from(v, 1))))) by {
                <u8 as LLRPValue>::lemma_parse(v.session, Self::wire_from(v, 1));
            }
            assert(<u16 as LLRPValue>::parse(DecoderState::start(Self::wire_from(v, 1))) == Ok::<(u16, DecoderState), Error>((v.tag_population, DecoderState::start(Self::wire_from(v, 2))))) by {
                <u16 as LLRPValue>::lemma_parse(v.tag_population, Self::wire_from(v, 2));
            }
            assert(<u32 as LLRPValue>::parse(DecoderState::start(Self::wire_from(v, 2))) == Ok::<(u32, DecoderState), Error>((v.tag_transit_time, DecoderState::start(Self::wire_from(v, 3))))) by {
                <u32 as LLRPValue>::lemma_parse(v.tag_transit_time, Self::wire_from(v, 3));
            }
            assert(<Option<TagInventoryStateAwareSingulationAction> as LLRPValue>::parse(DecoderState::start(Self::wire_from(v, 3))) == Ok::<(Option<TagInventoryStateAwareSingulationAction>, DecoderState), Error>((v.tag_inventory_state_aware_action, DecoderState::start(Self::wire_from(v, 4))))) by {
                <Option<TagInventoryStateAwareSingulationAction> as LLRPValue>::lemma_parse(
                    v.tag_inventory_state_aware_action,
                    Self::wire_from(v, 4),
                );
            }
        }
    }

    fn decode_body(decoder: &mut Decoder) -> (r: Result<Self, Error>) {
        proof {
            reveal(C1G2SingulationControl::read_fields);
        }
        let session = decoder.read::<u8>()?;
        let tag_population = decoder.read::<u16>()?;
        let tag_transit_time = decoder.read::<u32>()?;
        let tag_inventory_state_aware_action = decoder.read::<Option<TagInventoryStateAwareSingulationAction>>()?;
        Ok(C1G2SingulationControl { session, tag_population, tag_transit_time, tag_inventory_state_aware_action })
    }

    fn encode_body(&self, encoder: &mut Encoder) {
        proof {
            reveal(C1G2SingulationControl::write_fields);
        }
        encoder.write(&self.session);
        encoder.write(&self.tag_population);
        encoder.write(&self.tag_transit_time);
        encoder.write(&self.tag_inventory_state_aware_action);
    }
}

/// What a state-aware inventory does with the tags' flags.
#[derive(Debug, PartialEq, Eq)]
pub struct TagInventoryStateAwareSingulationAction {}

impl DeepView for TagInventoryStateAwareSingulationAction {
    type V = TagInventoryStateAwareSingulationAction;

    open spec fn deep_view(&self) -> TagInventoryStateAwareSingulationAction {
        *self
    }
}

impl TagInventoryStateAwareSingulationAction {
    /// The bytes of the fields from the `k`-th on.
    #[verifier::opaque]
    pub open spec fn wire_from(v: TagInventoryStateAwareSingulationAction, k: nat) -> Seq<u8>
        decreases 0 - k,
    {
        {
            Seq::empty()
        }
    }

    /// The bytes of the fields, one field at a time.
    pub proof fn lemma_wire_from(v: TagInventoryStateAwareSingulationAction)
        ensures
            Self::wire_from(v, 0) == Seq::<u8>::empty(),
    {
        reveal(TagInventoryStateAwareSingulationAction::wire_from);
    }

    /// Whether the fields fit the format, each before the fields behind it.
    #[verifier::opaque]
    pub open spec fn fits(v: TagInventoryStateAwareSingulationAction) -> bool {
        true
    }

    /// The fields read in order, or the first error.
    #[verifier::opaque]
    pub open spec fn read_fields(s: DecoderState) -> Result<
        (TagInventoryStateAwareSingulationAction, DecoderState),
        Error,
    > {
        Ok((TagInventoryStateAwareSingulationAction {  }, s))
    }

    /// The state after the fields have been written in order.
    #[verifier::opaque]
    pub open spec fn write_fields(v: TagInventoryStateAwareSingulationAction, s: EncoderState) -> EncoderState {
        s
    }
}

impl TlvParameter for TagInventoryStateAwareSingulationAction {
    const ID: u16 = 337;

    open spec fn parse_body(s: DecoderState) -> Result<
        (TagInventoryStateAwareSingulationAction, DecoderState),
        Error,
    > {
        Self::read_fields(s)
    }

    open spec fn emit_body(v: TagInventoryStateAwareSingulationAction, s: EncoderState) -> EncoderState {
        Self::write_fields(v, s)
    }

    open spec fn wire_body(v: TagInventoryStateAwareSingulationAction) -> Seq<u8> {
        Self::wire_from(v, 0)
    }

    open spec fn canonical_body(v: TagInventoryStateAwareSingulationAction) -> bool {
        Self::fits(v)
    }

    proof fn lemma_emit_body(v: TagInventoryStateAwareSingulationAction, s: EncoderState) {
        reveal(TagInventoryStateAwareSingulationAction::write_fields);
        TagInventoryStateAwareSingulationAction::lemma_wire_from(v);
        lemma_concat_empty(s.bytes);
    }

    proof fn lemma_parse_body(v: TagInventoryStateAwareSingulationAction) {
        reveal(TagInventoryStateAwareSingulationAction::fits);
        reveal(TagInventoryStateAwareSingulationAction::read_fields);
        if Self::canonical_body(v) {
            TagInventoryStateAwareSingulationAction::lemma_wire_from(v);
        }
    }

    fn decode_body(decoder: &mut Decoder) -> (r: Result<Self, Error>) {
        proof {
            reveal(TagInventoryStateAwareSingulationAction::read_fields);
        }
        Ok(TagInventoryStateAwareSingulationAction {  })
    }

    fn encode_body(&self, encoder: &mut Encoder) {
        proof {
            reveal(TagInventoryStateAwareSingulationAction::write_fields);
        }
    }
}

/// The tags that an access operation addresses.
#[derive(Debug, PartialEq, Eq)]
pub struct C1G2TagSpec {
    pub tag_pattern1: C1G2TargetTag,
    pub tag_pattern2: Option<C1G2TargetTag>,
}

/// The model of a `C1G2TagSpec`.
pub struct C1G2TagSpecView {
    pub tag_pattern1: C1G2TargetTagView,
    pub tag_pattern2: Option<C1G2TargetTagView>,
}

impl DeepView for C1G2TagSpec {
    type V = C1G2TagSpecView;

    open spec fn deep_view(&self) -> C1G2TagSpecView {
        C1G2TagSpecView {
            tag_pattern1: self.tag_pattern1.deep_view(),
            tag_pattern2: self.tag_pattern2.deep_view(),
        }
    }
}

impl C1G2TagSpec {
    /// The bytes of the fields from the `k`-th on.
    #[verifier::opaque]
    pub open spec fn wire_from(v: C1G2TagSpecView, k: nat) -> Seq<u8>
        decreases 2 - k,
    {
        if k == 0 {
            <C1G2TargetTag as LLRPValue>::wire(v.tag_pattern1) + Self::wire_from(v, 1)
        } else if k == 1 {
            <Option<C1G2TargetTag> as LLRPValue>::wire(v.tag_pattern2) + Self::wire_from(v, 2)
        } else {
            Seq::empty()
        }
    }

    /// The bytes of the fields, one field at a time.
    pub proof fn lemma_wire_from(v: C1G2TagSpecView)
        ensures
            Self::wire_from(v, 0) == <C1G2TargetTag as LLRPValue>::wire(v.tag_pattern1)
                + Self::wire_from(v, 1),
            Self::wire_from(v, 1) == <Option<C1G2TargetTag> as LLRPValue>::wire(v.tag_pattern2)
                + Self::wire_from(v, 2),
            Self::wire_from(v, 2) == Seq::<u8>::empty(),
    {
        reveal(C1G2TagSpec::wire_from);
    }

    /// Whether the fields fit the format, each before the fields behind it.
    #[verifier::opaque]
    pub open spec fn fits(v: C1G2TagSpecView) -> bool {
        &&& <C1G2TargetTag as LLRPValue>::canonical(v.tag_pattern1)
        &&& <Option<C1G2TargetTag> as LLRPValue>::canonical(v.tag_pattern2)
        &&& <Option<C1G2TargetTag> as LLRPValue>::follow_ok(v.tag_pattern2, Self::wire_from(v, 2))
    }

    /// The fields read in order, or the first error.
    #[verifier::opaque]
    pub open spec fn read_fields(s: DecoderState) -> Result<
        (C1G2TagSpecView, DecoderState),
        Error,
    > {
        match <C1G2TargetTag as LLRPValue>::parse(s) {
            Err(e) => Err(e),
            Ok((tag_pattern1, s)) => match <Option<C1G2TargetTag> as LLRPValue>::parse(s) {
                Err(e) => Err(e),
                Ok((tag_pattern2, s)) => Ok((C1G2TagSpecView { tag_pattern1, tag_pattern2 }, s)),
            },
        }
    }

    /// The state after the fields have been written in order.
    #[verifier::opaque]
    pub open spec fn write_fields(v: C1G2TagSpecView, s: EncoderState) -> EncoderState {
        let s = <C1G2TargetTag as LLRPValue>::emit(v.tag_pattern1, s);
        let s = <Option<C1G2TargetTag> as LLRPValue>::emit(v.tag_pattern2, s);
        s
    }
}

impl TlvParameter for C1G2TagSpec {
    const ID: u16 = 338;

    open spec fn parse_body(s: DecoderState) -> Result<(C1G2TagSpecView, DecoderState), Error> {
        Self::read_fields(s)
    }

    open spec fn emit_body(v: C1G2TagSpecView, s: EncoderState) -> EncoderState {
        Self::write_fields(v, s)
    }

    open spec fn wire_body(v: C1G2TagSpecView) -> Seq<u8> {
        Self::wire_from(v, 0)
    }

    open spec fn canonical_body(v: C1G2TagSpecView) -> bool {
        Self::fits(v)
    }

    proof fn lemma_emit_body(v: C1G2TagSpecView, s: EncoderState) {
        reveal(C1G2TagSpec::write_fields);
        C1G2TagSpec::lemma_wire_from(v);
        <C1G2TargetTag as LLRPValue>::lemma_emit(v.tag_pattern1, s);
        let s1 = s.write_bytes(<C1G2TargetTag as LLRPValue>::wire(v.tag_pattern1));
        <Option<C1G2TargetTag> as LLRPValue>::lemma_emit(v.tag_pattern2, s1);
        let s2 = s1.write_bytes(<Option<C1G2TargetTag> as LLRPValue>::wire(v.tag_pattern2));
        lemma_concat_empty(s2.bytes);
        lemma_concat_assoc(
            s1.bytes,
            <Option<C1G2TargetTag> as LLRPValue>::wire(v.tag_pattern2),
            C1G2TagSpec::wire_from(v, 2),
        );
        lemma_concat_assoc(
            s.bytes,
            <C1G2TargetTag as LLRPValue>::wire(v.tag_pattern1),
            C1G2TagSpec::wire_from(v, 1),
        );
    }

    proof fn lemma_parse_body(v: C1G2TagSpecView) {
        reveal(C1G2TagSpec::fits);
        reveal(C1G2TagSpec::read_fields);
        if Self::canonical_body(v) {
            C1G2TagSpec::lemma_wire_from(v);
            assert(<C1G2TargetTag as LLRPValue>::parse(DecoderState::start(Self::wire_from(v, 0))) == Ok::<(C1G2TargetTagView, DecoderState), Error>((v.tag_pattern1, DecoderState::start(Self::wire_from(v, 1))))) by {
                <C1G2TargetTag as LLRPValue>::lemma_parse(v.tag_pattern1, Self::wire_from(v, 1));
            }
            assert(<Option<C1G2TargetTag> as LLRPValue>::parse(DecoderState::start(Self::wire_from(v, 1))) == Ok::<(Option<C1G2TargetTagView>, DecoderState), Error>((v.tag_pattern2, DecoderState::start(Self::wire_from(v, 2))))) by {
                <Option<C1G2TargetTag> as LLRPValue>::lemma_parse(
                    v.tag_pattern2,
                    Self::wire_from(v, 2),
                );
            }
        }
    }

    fn decode_body(decoder: &mut Decoder) -> (r: Result<Self, Error>) {
        proof {
            reveal(C1G2TagSpec::read_fields);
        }
        let tag_pattern1 = decoder.read::<C1G2TargetTag>()?;
        let tag_pattern2 = decoder.read::<Option<C1G2TargetTag>>()?;
        Ok(C1G2TagSpec { tag_pattern1, tag_pattern2 })
    }

    fn encode_body(&self, encoder: &mut Encoder) {
        proof {
            reveal(C1G2TagSpec::write_fields);
        }
        encoder.write(&self.tag_pattern1);
        encoder.write(&self.tag_pattern2);
    }
}

/// A pattern that a tag's memory is held against.
#[derive(Debug, PartialEq, Eq)]
pub struct C1G2TargetTag {
    pub memory_bank_and_match: u8,
    pub pointer: u16,
    pub tag_mask: BitArray,
    pub tag_data: BitArray,
}

/// The model of a `C1G2TargetTag`.
pub struct C1G2TargetTagView {
    pub memory_bank_and_match: u8,
    pub pointer: u16,
    pub tag_mask: Seq<u8>,
    pub tag_data: Seq<u8>,
}

impl DeepView for C1G2TargetTag {
    type V = C1G2TargetTagView;

    open spec fn deep_view(&self) -> C1G2TargetTagView {
        C1G2TargetTagView {
            memory_bank_and_match: self.memory_bank_and_match,
            pointer: self.pointer,
            tag_mask: self.tag_mask.deep_view(),
            tag_data: self.tag_data.deep_view(),
        }
    }
}

impl C1G2TargetTag {
    /// The bytes of the fields from the `k`-th on.
    #[verifier::opaque]
    pub open spec fn wire_from(v: C1G2TargetTagView, k: nat) -> Seq<u8>
        decreases 4 - k,
    {
        if k == 0 {
            <u8 as LLRPValue>::wire(v.memory_bank_and_match) + Self::wire_from(v, 1)
        } else if k == 1 {
            <u16 as LLRPValue>::wire(v.pointer) + Self::wire_from(v, 2)
        } else if k == 2 {
            <BitArray as LLRPValue>::wire(v.tag_mask) + Self::wire_from(v, 3)
        } else if k == 3 {
            <BitArray as LLRPValue>::wire(v.tag_data) + Self::wire_from(v, 4)
        } else {
            Seq::empty()
        }
    }

    /// The bytes of the fields, one field at a time.
    pub proof fn lemma_wire_from(v: C1G2TargetTagView)
        ensures
            Self::wire_from(v, 0) == <u8 as LLRPValue>::wire(v.memory_bank_and_match)
                + Self::wire_from(v, 1),
            Self::wire_from(v, 1) == <u16 as LLRPValue>::wire(v.pointer) + Self::wire_from(v, 2),
            Self::wire_from(v, 2) == <BitArray as LLRPValue>::wire(v.tag_mask)
                + Self::wire_from(v, 3),
            Self::wire_from(v, 3) == <BitArray as LLRPValue>::wire(v.tag_data)
                + Self::wire_from(v, 4),
            Self::wire_from(v, 4) == Seq::<u8>::empty(),
    {
        reveal(C1G2TargetTag::wire_from);
    }

    /// Whether the fields fit the format, each before the fields behind it.
    #[verifier::opaque]
    pub open spec fn fits(v: C1G2TargetTagView) -> bool {
        &&& <BitArray as LLRPValue>::canonical(v.tag_mask)
        &&& <BitArray as LLRPValue>::canonical(v.tag_data)
    }

    /// The fields read in order, or the first error.
    #[verifier::opaque]
    pub open spec fn read_fields(s: DecoderState) -> Result<
        (C1G2TargetTagView, DecoderState),
        Error,
    > {
        match <u8 as LLRPValue>::parse(s) {
            Err(e) => Err(e),
            Ok((memory_bank_and_match, s)) => match <u16 as LLRPValue>::parse(s) {
                Err(e) => Err(e),
                Ok((pointer, s)) => match <BitArray as LLRPValue>::parse(s) {
                    Err(e) => Err(e),
                    Ok((tag_mask, s)) => match <BitArray as LLRPValue>::parse(s) {
                        Err(e) => Err(e),
                        Ok((tag_data, s)) => Ok(
                            (
                                C1G2TargetTagView {
                                    memory_bank_and_match,
                                    pointer,
                                    tag_mask,
                                    tag_data,
                                },
                                s,
                            ),
                        ),
                    },
                },
            },
        }
    }

    /// The state after the fields have been written in order.
    #[verifier::opaque]
    pub open spec fn write_fields(v: C1G2TargetTagView, s: EncoderState) -> EncoderState {
        let s = <u8 as LLRPValue>::emit(v.memory_bank_and_match, s);
        let s = <u16 as LLRPValue>::emit(v.pointer, s);
        let s = <BitArray as LLRPValue>::emit(v.tag_mask, s);
        let s = <BitArray as LLRPValue>::emit(v.tag_data, s);
        s
    }
}

impl TlvParameter for C1G2TargetTag {
    const ID: u16 = 339;

    open spec fn parse_body(s: DecoderState) -> Result<(C1G2TargetTagView, DecoderState), Error> {
        Self::read_fields(s)
    }

    open spec fn emit_body(v: C1G2TargetTagView, s: EncoderState) -> EncoderState {
        Self::write_fields(v, s)
    }

    open spec fn wire_body(v: C1G2TargetTagView) -> Seq<u8> {
        Self::wire_from(v, 0)
    }

    open spec fn canonical_body(v: C1G2TargetTagView) -> bool {
        Self::fits(v)
    }

    proof fn lemma_emit_body(v: C1G2TargetTagView, s: EncoderState) {
        reveal(C1G2TargetTag::write_fields);
        C1G2TargetTag::lemma_wire_from(v);
        <u8 as LLRPValue>::lemma_emit(v.memory_bank_and_match, s);
        let s1 = s.write_bytes(<u8 as LLRPValue>::wire(v.memory_bank_and_match));
        <u16 as LLRPValue>::lemma_emit(v.pointer, s1);
        let s2 = s1.write_bytes(<u16 as LLRPValue>::wire(v.pointer));
        <BitArray as LLRPValue>::lemma_emit(v.tag_mask, s2);
        let s3 = s2.write_bytes(<BitArray as LLRPValue>::wire(v.tag_mask));
        <BitArray as LLRPValue>::lemma_emit(v.tag_data, s3);
        let s4 = s3.write_bytes(<BitArray as LLRPValue>::wire(v.tag_data));
        lemma_concat_empty(s4.bytes);
        lemma_concat_assoc(
            s3.bytes,
            <BitArray as LLRPValue>::wire(v.tag_data),
            C1G2TargetTag::wire_from(v, 4),
        );
        lemma_concat_assoc(
            s2.bytes,
            <BitArray as LLRPValue>::wire(v.tag_mask),
            C1G2TargetTag::wire_from(v, 3),
        );
        lemma_concat_assoc(
            s1.bytes,
            <u16 as LLRPValue>::wire(v.pointer),
            C1G2TargetTag::wire_from(v, 2),
        );
        lemma_concat_assoc(
            s.bytes,
            <u8 as LLRPValue>::wire(v.memory_bank_and_match),
            C1G2TargetTag::wire_from(v, 1),
        );
    }

    proof fn lemma_parse_body(v: C1G2TargetTagView) {
        reveal(C1G2TargetTag::fits);
        reveal(C1G2TargetTag::read_fields);
        if Self::canonical_body(v) {
            C1G2TargetTag::lemma_wire_from(v);
            assert(<u8 as LLRPValue>::parse(DecoderState::start(Self::wire_from(v, 0))) == Ok::<(u8, DecoderState), Error>((v.memory_bank_and_match, DecoderState::start(Self::wire_from(v, 1))))) by {
                <u8 as LLRPValue>::lemma_parse(v.memory_bank_and_match, Self::wire_from(v, 1));
            }
            assert(<u16 as LLRPValue>::parse(DecoderState::start(Self::wire_from(v, 1))) == Ok::<(u16, DecoderState), Error>((v.pointer, DecoderState::start(Self::wire_from(v, 2))))) by {
                <u16 as LLRPValue>::lemma_parse(v.pointer, Self::wire_from(v, 2));
            }
            assert(<BitArray as LLRPValue>::parse(DecoderState::start(Self::wire_from(v, 2))) == Ok::<(Seq<u8>, DecoderState), Error>((v.tag_mask, DecoderState::start(Self::wire_from(v, 3))))) by {
                <BitArray as LLRPValue>::lemma_parse(v.tag_mask, Self::wire_from(v, 3));
            }
            assert(<BitArray as LLRPValue>::parse(DecoderState::start(Self::wire_from(v, 3))) == Ok::<(Seq<u8>, DecoderState), Error>((v.tag_data, DecoderState::start(Self::wire_from(v, 4))))) by {
                <BitArray as LLRPValue>::lemma_parse(v.tag_data, Self::wire_from(v, 4));
            }
        }
    }

    fn decode_body(decoder: &mut Decoder) -> (r: Result<Self, Error>) {
        proof {
            reveal(C1G2TargetTag::read_fields);
        }
        let memory_bank_and_match = decoder.read::<u8>()?;
        let pointer = decoder.read::<u16>()?;
        let tag_mask = decoder.read::<BitArray>()?;
        let tag_data = decoder.read::<BitArray>()?;
        Ok(C1G2TargetTag { memory_bank_and_match, pointer, tag_mask, tag_data })
    }

    fn encode_body(&self, encoder: &mut Encoder) {
        proof {
            reveal(C1G2TargetTag::write_fields);
        }
        encoder.write(&self.memory_bank_and_match);
        encoder.write(&self.pointer);
        encoder.write(&self.tag_mask);
        encoder.write(&self.tag_data);
    }
}

/// Reads words from a tag's memory.
#[derive(Debug, PartialEq, Eq)]
pub struct C1G2Read {
    pub op_spec_id: u16,
    pub access_password: u32,
    pub memory_bank: u8,
    pub word_ptr: u16,
    pub word_count: u16,
}

impl DeepView for C1G2Read {
    type V = C1G2Read;

    open spec fn deep_view(&self) -> C1G2Read {
        *self
    }
}

impl C1G2Read {
    /// The bytes of the fields from the `k`-th on.
    #[verifier::opaque]
    pub open spec fn wire_from(v: C1G2Read, k: nat) -> Seq<u8>
        decreases 5 - k,
    {
        if k == 0 {
            <u16 as LLRPValue>::wire(v.op_spec_id) + Self::wire_from(v, 1)
        } else if k == 1 {
            <u32 as LLRPValue>::wire(v.access_password) + Self::wire_from(v, 2)
        } else if k == 2 {
            <u8 as LLRPValue>::wire(v.memory_bank) + Self::wire_from(v, 3)
        } else if k == 3 {
            <u16 as LLRPValue>::wire(v.word_ptr) + Self::wire_from(v, 4)
        } else if k == 4 {
            <u16 as LLRPValue>::wire(v.word_count) + Self::wire_from(v, 5)
        } else {
            Seq::empty()
        }
    }

    /// The bytes of the fields, one field at a time.
    pub proof fn lemma_wire_from(v: C1G2Read)
        ensures
            Self::wire_from(v, 0) == <u16 as LLRPValue>::wire(v.op_spec_id) + Self::wire_from(v, 1),
            Self::wire_from(v, 1) == <u32 as LLRPValue>::wire(v.access_password)
                + Self::wire_from(v, 2),
            Self::wire_from(v, 2) == <u8 as LLRPValue>::wire(v.memory_bank) + Self::wire_from(v, 3),
            Self::wire_from(v, 3) == <u16 as LLRPValue>::wire(v.word_ptr) + Self::wire_from(v, 4),
            Self::wire_from(v, 4) == <u16 as LLRPValue>::wire(v.word_count) + Self::wire_from(v, 5),
            Self::wire_from(v, 5) == Seq::<u8>::empty(),
    {
        reveal(C1G2Read::wire_from);
    }

    /// Whether the fields fit the format, each before the fields behind it.
    #[verifier::opaque]
    pub open spec fn fits(v: C1G2Read) -> bool {
        true
    }

    /// The first fields read in order, or the first error.
    #[verifier::opaque]
    pub open spec fn read_front(s: DecoderState) -> Result<((u16, u32), DecoderState), Error> {
        match <u16 as LLRPValue>::parse(s) {
            Err(e) => Err(e),
            Ok((op_spec_id, s)) => match <u32 as LLRPValue>::parse(s) {
                Err(e) => Err(e),
                Ok((access_password, s)) => Ok(((op_spec_id, access_password), s)),
            },
        }
    }

    /// The other fields read in order behind the first, or the first error.
    #[verifier::opaque]
    pub open spec fn read_back(front: (u16, u32), s: DecoderState) -> Result<
        (C1G2Read, DecoderState),
        Error,
    > {
        match <u8 as LLRPValue>::parse(s) {
            Err(e) => Err(e),
            Ok((memory_bank, s)) => match <u16 as LLRPValue>::parse(s) {
                Err(e) => Err(e),
                Ok((word_ptr, s)) => match <u16 as LLRPValue>::parse(s) {
                    Err(e) => Err(e),
                    Ok((word_count, s)) => Ok((C1G2Read { op_spec_id: front.0, access_password: front.1, memory_bank, word_ptr, word_count }, s)),
                },
            },
        }
    }

    /// The fields read in order, or the first error.
    #[verifier::opaque]
    pub open spec fn read_fields(s: DecoderState) -> Result<(C1G2Read, DecoderState), Error> {
        match Self::read_front(s) {
            Err(e) => Err(e),
            Ok((front, s)) => Self::read_back(front, s),
        }
    }

    /// The state after the fields have been written in order.
    #[verifier::opaque]
    pub open spec fn write_fields(v: C1G2Read, s: EncoderState) -> EncoderState {
        let s = <u16 as LLRPValue>::emit(v.op_spec_id, s);
        let s = <u32 as LLRPValue>::emit(v.access_password, s);
        let s = <u8 as LLRPValue>::emit(v.memory_bank, s);
        let s = <u16 as LLRPValue>::emit(v.word_ptr, s);
        let s = <u16 as LLRPValue>::emit(v.word_count, s);
        s
    }

    fn decode_front(decoder: &mut Decoder) -> (r: Result<(u16, u32), Error>)
        ensures
            match Self::read_front(old(decoder)@) {
                Ok((front, s)) => {
                    &&& r is Ok
                    &&& r->Ok_0.0 == front.0
                    &&& r->Ok_0.1 == front.1
                    &&& final(decoder)@ == s
                },
                Err(e) => r == Err::<(u16, u32), Error>(e),
            },
    {
        proof {
            reveal(C1G2Read::read_front);
        }
        let op_spec_id = decoder.read::<u16>()?;
        let access_password = decoder.read::<u32>()?;
        Ok((op_spec_id, access_password))
    }

    fn decode_back(front: (u16, u32), decoder: &mut Decoder) -> (r: Result<C1G2Read, Error>)
        ensures
            decoded::<C1G2Read>(
                Self::read_back((front.0, front.1), old(decoder)@),
                r,
                final(decoder)@,
            ),
    {
        proof {
            reveal(C1G2Read::read_back);
        }
        let memory_bank = decoder.read::<u8>()?;
        let word_ptr = decoder.read::<u16>()?;
        let word_count = decoder.read::<u16>()?;
        Ok(C1G2Read { op_spec_id: front.0, access_password: front.1, memory_bank, word_ptr, word_count })
    }

    /// The first fields are read back from the bytes of all.
    pub proof fn lemma_parse_front(v: C1G2Read)
        ensures
            Self::fits(v) ==> Self::read_front(DecoderState::start(Self::wire_from(v, 0))) == Ok::<
                ((u16, u32), DecoderState),
                Error,
            >(((v.op_spec_id, v.access_password), DecoderState::start(Self::wire_from(v, 2)))),
    {
        reveal(C1G2Read::fits);
        reveal(C1G2Read::read_front);
        if Self::fits(v) {
            C1G2Read::lemma_wire_from(v);
            assert(<u16 as LLRPValue>::parse(DecoderState::start(Self::wire_from(v, 0))) == Ok::<(u16, DecoderState), Error>((v.op_spec_id, DecoderState::start(Self::wire_from(v, 1))))) by {
                <u16 as LLRPValue>::lemma_parse(v.op_spec_id, Self::wire_from(v, 1));
            }
            assert(<u32 as LLRPValue>::parse(DecoderState::start(Self::wire_from(v, 1))) == Ok::<(u32, DecoderState), Error>((v.access_password, DecoderState::start(Self::wire_from(v, 2))))) by {
                <u32 as LLRPValue>::lemma_parse(v.access_password, Self::wire_from(v, 2));
            }
        }
    }

    /// The other fields are read back from the bytes behind the first.
    pub proof fn lemma_parse_back(v: C1G2Read)
        ensures
            Self::fits(
                v) ==> Self::read_back((v.op_spec_id,
                v.access_password), DecoderState::start(Self::wire_from(v, 2)),
            )
                == Ok::<(C1G2Read, DecoderState), Error>((v, DecoderState::start(Seq::empty()))),
    {
        reveal(C1G2Read::fits);
        reveal(C1G2Read::read_back);
        if Self::fits(v) {
            C1G2Read::lemma_wire_from(v);
            assert(<u8 as LLRPValue>::parse(DecoderState::start(Self::wire_from(v, 2))) == Ok::<(u8, DecoderState), Error>((v.memory_bank, DecoderState::start(Self::wire_from(v, 3))))) by {
                <u8 as LLRPValue>::lemma_parse(v.memory_bank, Self::wire_from(v, 3));
            }
            assert(<u16 as LLRPValue>::parse(DecoderState::start(Self::wire_from(v, 3))) == Ok::<(u16, DecoderState), Error>((v.word_ptr, DecoderState::start(Self::wire_from(v, 4))))) by {
                <u16 as LLRPValue>::lemma_parse(v.word_ptr, Self::wire_from(v, 4));
            }
            assert(<u16 as LLRPValue>::parse(DecoderState::start(Self::wire_from(v, 4))) == Ok::<(u16, DecoderState), Error>((v.word_count, DecoderState::start(Self::wire_from(v, 5))))) by {
                <u16 as LLRPValue>::lemma_parse(v.word_count, Self::wire_from(v, 5));
            }
        }
    }
}

impl TlvParameter for C1G2Read {
    const ID: u16 = 341;

    open spec fn parse_body(s: DecoderState) -> Result<(C1G2Read, DecoderState), Error> {
        Self::read_fields(s)
    }

    open spec fn emit_body(v: C1G2Read, s: EncoderState) -> EncoderState {
        Self::write_fields(v, s)
    }

    open spec fn wire_body(v: C1G2Read) -> Seq<u8> {
        Self::wire_from(v, 0)
    }

    open spec fn canonical_body(v: C1G2Read) -> bool {
        Self::fits(v)
    }

    proof fn lemma_emit_body(v: C1G2Read, s: EncoderState) {
        reveal(C1G2Read::write_fields);
        C1G2Read::lemma_wire_from(v);
        <u16 as LLRPValue>::lemma_emit(v.op_spec_id, s);
        let s1 = s.write_bytes(<u16 as LLRPValue>::wire(v.op_spec_id));
        <u32 as LLRPValue>::lemma_emit(v.access_password, s1);
        let s2 = s1.write_bytes(<u32 as LLRPValue>::wire(v.access_password));
        <u8 as LLRPValue>::lemma_emit(v.memory_bank, s2);
        let s3 = s2.write_bytes(<u8 as LLRPValue>::wire(v.memory_bank));
        <u16 as LLRPValue>::lemma_emit(v.word_ptr, s3);
        let s4 = s3.write_bytes(<u16 as LLRPValue>::wire(v.word_ptr));
        <u16 as LLRPValue>::lemma_emit(v.word_count, s4);
        let s5 = s4.write_bytes(<u16 as LLRPValue>::wire(v.word_count));
        lemma_concat_empty(s5.bytes);
        lemma_concat_assoc(
            s4.bytes,
            <u16 as LLRPValue>::wire(v.word_count),
            C1G2Read::wire_from(v, 5),
        );
        lemma_concat_assoc(
            s3.bytes,
            <u16 as LLRPValue>::wire(v.word_ptr),
            C1G2Read::wire_from(v, 4),
        );
        lemma_concat_assoc(
            s2.bytes,
            <u8 as LLRPValue>::wire(v.memory_bank),
            C1G2Read::wire_from(v, 3),
        );
        lemma_concat_assoc(
            s1.bytes,
            <u32 as LLRPValue>::wire(v.access_password),
            C1G2Read::wire_from(v, 2),
        );
        lemma_concat_assoc(
            s.bytes,
            <u16 as LLRPValue>::wire(v.op_spec_id),
            C1G2Read::wire_from(v, 1),
        );
    }

    proof fn lemma_parse_body(v: C1G2Read) {
        C1G2Read::lemma_parse_front(v);
        C1G2Read::lemma_parse_back(v);
        reveal(C1G2Read::read_fields);
    }

    fn decode_body(decoder: &mut Decoder) -> (r: Result<Self, Error>) {
        proof {
            reveal(C1G2Read::read_fields);
        }
        let front = Self::decode_front(decoder)?;
        Self::decode_back(front, decoder)
    }

    fn encode_body(&self, encoder: &mut Encoder) {
        proof {
            reveal(C1G2Read::write_fields);
        }
        encoder.write(&self.op_spec_id);
        encoder.write(&self.access_password);
        encoder.write(&self.memory_bank);
        encoder.write(&self.word_ptr);
        encoder.write(&self.word_count);
    }
}

/// Writes words to a tag's memory.
#[derive(Debug, PartialEq, Eq)]
pub struct C1G2Write {
    pub op_spec_id: u16,
    pub access_password: u32,
    pub memory_bank: u8,
    pub word_ptr: u16,
    pub write_data: Vec<u16>,
}

/// The model of a `C1G2Write`.
pub struct C1G2WriteView {
    pub op_spec_id: u16,
    pub access_password: u32,
    pub memory_bank: u8,
    pub word_ptr: u16,
    pub write_data: Seq<u16>,
}

impl DeepView for C1G2Write {
    type V = C1G2WriteView;

    open spec fn deep_view(&self) -> C1G2WriteView {
        C1G2WriteView {
            op_spec_id: self.op_spec_id,
            access_password: self.access_password,
            memory_bank: self.memory_bank,
            word_ptr: self.word_ptr,
            write_data: self.write_data.deep_view(),
        }
    }
}

impl C1G2Write {
    /// The bytes of the fields from the `k`-th on.
    #[verifier::opaque]
    pub open spec fn wire_from(v: C1G2WriteView, k: nat) -> Seq<u8>
        decreases 5 - k,
    {
        if k == 0 {
            <u16 as LLRPValue>::wire(v.op_spec_id) + Self::wire_from(v, 1)
        } else if k == 1 {
            <u32 as LLRPValue>::wire(v.access_password) + Self::wire_from(v, 2)
        } else if k == 2 {
            <u8 as LLRPValue>::wire(v.memory_bank) + Self::wire_from(v, 3)
        } else if k == 3 {
            <u16 as LLRPValue>::wire(v.word_ptr) + Self::wire_from(v, 4)
        } else if k == 4 {
            array_wire::<u16>(v.write_data) + Self::wire_from(v, 5)
        } else {
            Seq::empty()
        }
    }

    /// The bytes of the fields, one field at a time.
    pub proof fn lemma_wire_from(v: C1G2WriteView)
        ensures
            Self::wire_from(v, 0) == <u16 as LLRPValue>::wire(v.op_spec_id) + Self::wire_from(v, 1),
            Self::wire_from(v, 1) == <u32 as LLRPValue>::wire(v.access_password)
                + Self::wire_from(v, 2),
            Self::wire_from(v, 2) == <u8 as LLRPValue>::wire(v.memory_bank) + Self::wire_from(v, 3),
            Self::wire_from(v, 3) == <u16 as LLRPValue>::wire(v.word_ptr) + Self::wire_from(v, 4),
            Self::wire_from(v, 4) == array_wire::<u16>(v.write_data) + Self::wire_from(v, 5),
            Self::wire_from(v, 5) == Seq::<u8>::empty(),
    {
        reveal(C1G2Write::wire_from);
    }

    /// Whether the fields fit the format, each before the fields behind it.
    #[verifier::opaque]
    pub open spec fn fits(v: C1G2WriteView) -> bool {
        &&& array_canonical::<u16>(v.write_data)
    }

    /// The first fields read in order, or the first error.
    #[verifier::opaque]
    pub open spec fn read_front(s: DecoderState) -> Result<((u16, u32), DecoderState), Error> {
        match <u16 as LLRPValue>::parse(s) {
            Err(e) => Err(e),
            Ok((op_spec_id, s)) => match <u32 as LLRPValue>::parse(s) {
                Err(e) => Err(e),
                Ok((access_password, s)) => Ok(((op_spec_id, access_password), s)),
            },
        }
    }

    /// The other fields read in order behind the first, or the first error.
    #[verifier::opaque]
    pub open spec fn read_back(front: (u16, u32), s: DecoderState) -> Result<
        (C1G2WriteView, DecoderState),
        Error,
    > {
        match <u8 as LLRPValue>::parse(s) {
            Err(e) => Err(e),
            Ok((memory_bank, s)) => match <u16 as LLRPValue>::parse(s) {
                Err(e) => Err(e),
                Ok((word_ptr, s)) => match parse_array::<u16>(s) {
                    Err(e) => Err(e),
                    Ok((write_data, s)) => Ok((C1G2WriteView { op_spec_id: front.0, access_password: front.1, memory_bank, word_ptr, write_data }, s)),
                },
            },
        }
    }

    /// The fields read in order, or the first error.
    #[verifier::opaque]
    pub open spec fn read_fields(s: DecoderState) -> Result<(C1G2WriteView, DecoderState), Error> {
        match Self::read_front(s) {
            Err(e) => Err(e),
            Ok((front, s)) => Self::read_back(front, s),
        }
    }

    /// The state after the fields have been written in order.
    #[verifier::opaque]
    pub open spec fn write_fields(v: C1G2WriteView, s: EncoderState) -> EncoderState {
        let s = <u16 as LLRPValue>::emit(v.op_spec_id, s);
        let s = <u32 as LLRPValue>::emit(v.access_password, s);
        let s = <u8 as LLRPValue>::emit(v.memory_bank, s);
        let s = <u16 as LLRPValue>::emit(v.word_ptr, s);
        let s = emit_array::<u16>(v.write_data, s);
        s
    }

    fn decode_front(decoder: &mut Decoder) -> (r: Result<(u16, u32), Error>)
        ensures
            match Self::read_front(old(decoder)@) {
                Ok((front, s)) => {
                    &&& r is Ok
                    &&& r->Ok_0.0 == front.0
                    &&& r->Ok_0.1 == front.1
                    &&& final(decoder)@ == s
                },
                Err(e) => r == Err::<(u16, u32), Error>(e),
            },
    {
        proof {
            reveal(C1G2Write::read_front);
        }
        let op_spec_id = decoder.read::<u16>()?;
        let access_password = decoder.read::<u32>()?;
        Ok((op_spec_id, access_password))
    }

    fn decode_back(front: (u16, u32), decoder: &mut Decoder) -> (r: Result<C1G2Write, Error>)
        ensures
            decoded::<C1G2Write>(
                Self::read_back((front.0, front.1), old(decoder)@),
                r,
                final(decoder)@,
            ),
    {
        proof {
            reveal(C1G2Write::read_back);
        }
        let memory_bank = decoder.read::<u8>()?;
        let word_ptr = decoder.read::<u16>()?;
        let read_write_data = |d: &mut Decoder| -> (r: Result<u16, Error>)
            ensures
                decoded::<u16>(<u16 as LLRPValue>::parse(old(d)@), r, final(d)@),
            {
                d.read::<u16>()
            };
        let ghost write_data_reader = read_write_data;
        let ghost write_data_start = decoder@;
        let write_data = decoder.array(read_write_data);
        proof {
            lemma_array_decoded::<u16, _>(
                write_data_reader,
                write_data_start,
                write_data,
                decoder@,
            );
        }
        let write_data = write_data?;
        Ok(C1G2Write { op_spec_id: front.0, access_password: front.1, memory_bank, word_ptr, write_data })
    }

    /// The first fields are read back from the bytes of all.
    pub proof fn lemma_parse_front(v: C1G2WriteView)
        ensures
            Self::fits(v) ==> Self::read_front(DecoderState::start(Self::wire_from(v, 0))) == Ok::<
                ((u16, u32), DecoderState),
                Error,
            >(((v.op_spec_id, v.access_password), DecoderState::start(Self::wire_from(v, 2)))),
    {
        reveal(C1G2Write::fits);
        reveal(C1G2Write::read_front);
        if Self::fits(v) {
            C1G2Write::lemma_wire_from(v);
            assert(<u16 as LLRPValue>::parse(DecoderState::start(Self::wire_from(v, 0))) == Ok::<(u16, DecoderState), Error>((v.op_spec_id, DecoderState::start(Self::wire_from(v, 1))))) by {
                <u16 as LLRPValue>::lemma_parse(v.op_spec_id, Self::wire_from(v, 1));
            }
            assert(<u32 as LLRPValue>::parse(DecoderState::start(Self::wire_from(v, 1))) == Ok::<(u32, DecoderState), Error>((v.access_password, DecoderState::start(Self::wire_from(v, 2))))) by {
                <u32 as LLRPValue>::lemma_parse(v.access_password, Self::wire_from(v, 2));
            }
        }
    }

    /// The other fields are read back from the bytes behind the first.
    pub proof fn lemma_parse_back(v: C1G2WriteView)
        ensures
            Self::fits(
                v) ==> Self::read_back((v.op_spec_id,
                v.access_password), DecoderState::start(Self::wire_from(v, 2)),
            )
                == Ok::<(
                    C1G2WriteView,
                    DecoderState), Error>((v,
                    DecoderState::start(Seq::empty())),
                ),
    {
        reveal(C1G2Write::fits);
        reveal(C1G2Write::read_back);
        if Self::fits(v) {
            C1G2Write::lemma_wire_from(v);
            assert(<u8 as LLRPValue>::parse(DecoderState::start(Self::wire_from(v, 2))) == Ok::<(u8, DecoderState), Error>((v.memory_bank, DecoderState::start(Self::wire_from(v, 3))))) by {
                <u8 as LLRPValue>::lemma_parse(v.memory_bank, Self::wire_from(v, 3));
            }
            assert(<u16 as LLRPValue>::parse(DecoderState::start(Self::wire_from(v, 3))) == Ok::<(u16, DecoderState), Error>((v.word_ptr, DecoderState::start(Self::wire_from(v, 4))))) by {
                <u16 as LLRPValue>::lemma_parse(v.word_ptr, Self::wire_from(v, 4));
            }
            assert(parse_array::<u16>(DecoderState::start(Self::wire_from(v, 4))) == Ok::<(Seq<u16>, DecoderState), Error>((v.write_data, DecoderState::start(Self::wire_from(v, 5))))) by {
                lemma_array_front::<u16>(v.write_data, Self::wire_from(v, 5));
            }
        }
    }
}

impl TlvParameter for C1G2Write {
    const ID: u16 = 342;

    open spec fn parse_body(s: DecoderState) -> Result<(C1G2WriteView, DecoderState), Error> {
        Self::read_fields(s)
    }

    open spec fn emit_body(v: C1G2WriteView, s: EncoderState) -> EncoderState {
        Self::write_fields(v, s)
    }

    open spec fn wire_body(v: C1G2WriteView) -> Seq<u8> {
        Self::wire_from(v, 0)
    }

    open spec fn canonical_body(v: C1G2WriteView) -> bool {
        Self::fits(v)
    }

    proof fn lemma_emit_body(v: C1G2WriteView, s: EncoderState) {
        reveal(C1G2Write::write_fields);
        C1G2Write::lemma_wire_from(v);
        <u16 as LLRPValue>::lemma_emit(v.op_spec_id, s);
        let s1 = s.write_bytes(<u16 as LLRPValue>::wire(v.op_spec_id));
        <u32 as LLRPValue>::lemma_emit(v.access_password, s1);
        let s2 = s1.write_bytes(<u32 as LLRPValue>::wire(v.access_password));
        <u8 as LLRPValue>::lemma_emit(v.memory_bank, s2);
        let s3 = s2.write_bytes(<u8 as LLRPValue>::wire(v.memory_bank));
        <u16 as LLRPValue>::lemma_emit(v.word_ptr, s3);
        let s4 = s3.write_bytes(<u16 as LLRPValue>::wire(v.word_ptr));
        lemma_array_written::<u16>(v.write_data, s4);
        let s5 = s4.write_bytes(array_wire::<u16>(v.write_data));
        lemma_concat_empty(s5.bytes);
        lemma_concat_assoc(s4.bytes, array_wire::<u16>(v.write_data), C1G2Write::wire_from(v, 5));
        lemma_concat_assoc(
            s3.bytes,
            <u16 as LLRPValue>::wire(v.word_ptr),
            C1G2Write::wire_from(v, 4),
        );
        lemma_concat_assoc(
            s2.bytes,
            <u8 as LLRPValue>::wire(v.memory_bank),
            C1G2Write::wire_from(v, 3),
        );
        lemma_concat_assoc(
            s1.bytes,
            <u32 as LLRPValue>::wire(v.access_password),
            C1G2Write::wire_from(v, 2),
        );
        lemma_concat_assoc(
            s.bytes,
            <u16 as LLRPValue>::wire(v.op_spec_id),
            C1G2Write::wire_from(v, 1),
        );
    }

    proof fn lemma_parse_body(v: C1G2WriteView) {
        C1G2Write::lemma_parse_front(v);
        C1G2Write::lemma_parse_back(v);
        reveal(C1G2Write::read_fields);
    }

    fn decode_body(decoder: &mut Decoder) -> (r: Result<Self, Error>) {
        proof {
            reveal(C1G2Write::read_fields);
        }
        let front = Self::decode_front(decoder)?;
        Self::decode_back(front, decoder)
    }

    fn encode_body(&self, encoder: &mut Encoder) {
        proof {
            reveal(C1G2Write::write_fields);
        }
        encoder.write(&self.op_spec_id);
        encoder.write(&self.access_password);
        encoder.write(&self.memory_bank);
        encoder.write(&self.word_ptr);
        let write_write_data = |e: &mut Encoder, x: &u16|
            ensures
                final(e)@ == <u16 as LLRPValue>::emit(x.deep_view(), old(e)@),
            {
                e.write(x)
            };
        let ghost write_data_writer = write_write_data;
        let ghost write_data_start = encoder@;
        encoder.array(self.write_data.as_slice(), write_write_data);
        proof {
            lemma_array_encoded::<u16, _>(
                write_data_writer,
                write_data_start,
                self.write_data@,
                encoder@,
            );
        }
    }
}

/// Kills a tag.
#[derive(Debug, PartialEq, Eq)]
pub struct C1G2Kill {
    pub op_spec_id: u16,
    pub kill_password: u16,
}

impl DeepView for C1G2Kill {
    type V = C1G2Kill;

    open spec fn deep_view(&self) -> C1G2Kill {
        *self
    }
}

impl C1G2Kill {
    /// The bytes of the fields from the `k`-th on.
    #[verifier::opaque]
    pub open spec fn wire_from(v: C1G2Kill, k: nat) -> Seq<u8>
        decreases 2 - k,
    {
        if k == 0 {
            <u16 as LLRPValue>::wire(v.op_spec_id) + Self::wire_from(v, 1)
        } else if k == 1 {
            <u16 as LLRPValue>::wire(v.kill_password) + Self::wire_from(v, 2)
        } else {
            Seq::empty()
        }
    }

    /// The bytes of the fields, one field at a time.
    pub proof fn lemma_wire_from(v: C1G2Kill)
        ensures
            Self::wire_from(v, 0) == <u16 as LLRPValue>::wire(v.op_spec_id) + Self::wire_from(v, 1),
            Self::wire_from(v, 1) == <u16 as LLRPValue>::wire(v.kill_password)
                + Self::wire_from(v, 2),
            Self::wire_from(v, 2) == Seq::<u8>::empty(),
    {
        reveal(C1G2Kill::wire_from);
    }

    /// Whether the fields fit the format, each before the fields behind it.
    #[verifier::opaque]
    pub open spec fn fits(v: C1G2Kill) -> bool {
        true
    }

    /// The fields read in order, or the first error.
    #[verifier::opaque]
    pub open spec fn read_fields(s: DecoderState) -> Result<(C1G2Kill, DecoderState), Error> {
        match <u16 as LLRPValue>::parse(s) {
            Err(e) => Err(e),
            Ok((op_spec_id, s)) => match <u16 as LLRPValue>::parse(s) {
                Err(e) => Err(e),
                Ok((kill_password, s)) => Ok((C1G2Kill { op_spec_id, kill_password }, s)),
            },
        }
    }

    /// The state after the fields have been written in order.
    #[verifier::opaque]
    pub open spec fn write_fields(v: C1G2Kill, s: EncoderState) -> EncoderState {
        let s = <u16 as LLRPValue>::emit(v.op_spec_id, s);
        let s = <u16 as LLRPValue>::emit(v.kill_password, s);
        s
    }
}

impl TlvParameter for C1G2Kill {
    const ID: u16 = 343;

    open spec fn parse_body(s: DecoderState) -> Result<(C1G2Kill, DecoderState), Error> {
        Self::read_fields(s)
    }

    open spec fn emit_body(v: C1G2Kill, s: EncoderState) -> EncoderState {
        Self::write_fields(v, s)
    }

    open spec fn wire_body(v: C1G2Kill) -> Seq<u8> {
        Self::wire_from(v, 0)
    }

    open spec fn canonical_body(v: C1G2Kill) -> bool {
        Self::fits(v)
    }

    proof fn lemma_emit_body(v: C1G2Kill, s: EncoderState) {
        reveal(C1G2Kill::write_fields);
        C1G2Kill::lemma_wire_from(v);
        <u16 as LLRPValue>::lemma_emit(v.op_spec_id, s);
        let s1 = s.write_bytes(<u16 as LLRPValue>::wire(v.op_spec_id));
        <u16 as LLRPValue>::lemma_emit(v.kill_password, s1);
        let s2 = s1.write_bytes(<u16 as LLRPValue>::wire(v.kill_password));
        lemma_concat_empty(s2.bytes);
        lemma_concat_assoc(
            s1.bytes,
            <u16 as LLRPValue>::wire(v.kill_password),
            C1G2Kill::wire_from(v, 2),
        );
        lemma_concat_assoc(
            s.bytes,
            <u16 as LLRPValue>::wire(v.op_spec_id),
            C1G2Kill::wire_from(v, 1),
        );
    }

    proof fn lemma_parse_body(v: C1G2Kill) {
        reveal(C1G2Kill::fits);
        reveal(C1G2Kill::read_fields);
        if Self::canonical_body(v) {
            C1G2Kill::lemma_wire_from(v);
            assert(<u16 as LLRPValue>::parse(DecoderState::start(Self::wire_from(v, 0))) == Ok::<(u16, DecoderState), Error>((v.op_spec_id, DecoderState::start(Self::wire_from(v, 1))))) by {
                <u16 as LLRPValue>::lemma_parse(v.op_spec_id, Self::wire_from(v, 1));
            }
            assert(<u16 as LLRPValue>::parse(DecoderState::start(Self::wire_from(v, 1))) == Ok::<(u16, DecoderState), Error>((v.kill_password, DecoderState::start(Self::wire_from(v, 2))))) by {
                <u16 as LLRPValue>::lemma_parse(v.kill_password, Self::wire_from(v, 2));
            }
        }
    }

    fn decode_body(decoder: &mut Decoder) -> (r: Result<Self, Error>) {
        proof {
            reveal(C1G2Kill::read_fields);
        }
        let op_spec_id = decoder.read::<u16>()?;
        let kill_password = decoder.read::<u16>()?;
        Ok(C1G2Kill { op_spec_id, kill_password })
    }

    fn encode_body(&self, encoder: &mut Encoder) {
        proof {
            reveal(C1G2Kill::write_fields);
        }
        encoder.write(&self.op_spec_id);
        encoder.write(&self.kill_password);
    }
}

/// Recommissions a tag.
#[derive(Debug, PartialEq, Eq)]
pub struct C1G2Recommission {
    pub op_spec_id: u16,
    pub kill_password: u16,
    pub params: u8,
}

impl DeepView for C1G2Recommission {
    type V = C1G2Recommission;

    open spec fn deep_view(&self) -> C1G2Recommission {
        *self
    }
}

impl C1G2Recommission {
    /// The bytes of the fields from the `k`-th on.
    #[verifier::opaque]
    pub open spec fn wire_from(v: C1G2Recommission, k: nat) -> Seq<u8>
        decreases 3 - k,
    {
        if k == 0 {
            <u16 as LLRPValue>::wire(v.op_spec_id) + Self::wire_from(v, 1)
        } else if k == 1 {
            <u16 as LLRPValue>::wire(v.kill_password) + Self::wire_from(v, 2)
        } else if k == 2 {
            <u8 as LLRPValue>::wire(v.params) + Self::wire_from(v, 3)
        } else {
            Seq::empty()
        }
    }

    /// The bytes of the fields, one field at a time.
    pub proof fn lemma_wire_from(v: C1G2Recommission)
        ensures
            Self::wire_from(v, 0) == <u16 as LLRPValue>::wire(v.op_spec_id) + Self::wire_from(v, 1),
            Self::wire_from(v, 1) == <u16 as LLRPValue>::wire(v.kill_password)
                + Self::wire_from(v, 2),
            Self::wire_from(v, 2) == <u8 as LLRPValue>::wire(v.params) + Self::wire_from(v, 3),
            Self::wire_from(v, 3) == Seq::<u8>::empty(),
    {
        reveal(C1G2Recommission::wire_from);
    }

    /// Whether the fields fit the format, each before the fields behind it.
    #[verifier::opaque]
    pub open spec fn fits(v: C1G2Recommission) -> bool {
        true
    }

    /// The fields read in order, or the first error.
    #[verifier::opaque]
    pub open spec fn read_fields(s: DecoderState) -> Result<
        (C1G2Recommission, DecoderState),
        Error,
    > {
        match <u16 as LLRPValue>::parse(s) {
            Err(e) => Err(e),
            Ok((op_spec_id, s)) => match <u16 as LLRPValue>::parse(s) {
                Err(e) => Err(e),
                Ok((kill_password, s)) => match <u8 as LLRPValue>::parse(s) {
                    Err(e) => Err(e),
                    Ok(
                        (params, s)) => Ok((C1G2Recommission { op_spec_id, kill_password, params },
                        s),
                    ),
                },
            },
        }
    }

    /// The state after the fields have been written in order.
    #[verifier::opaque]
    pub open spec fn write_fields(v: C1G2Recommission, s: EncoderState) -> EncoderState {
        let s = <u16 as LLRPValue>::emit(v.op_spec_id, s);
        let s = <u16 as LLRPValue>::emit(v.kill_password, s);
        let s = <u8 as LLRPValue>::emit(v.params, s);
        s
    }
}

impl TlvParameter for C1G2Recommission {
    const ID: u16 = 357;

    open spec fn parse_body(s: DecoderState) -> Result<(C1G2Recommission, DecoderState), Error> {
        Self::read_fields(s)
    }

    open spec fn emit_body(v: C1G2Recommission, s: EncoderState) -> EncoderState {
        Self::write_fields(v, s)
    }

    open spec fn wire_body(v: C1G2Recommission) -> Seq<u8> {
        Self::wire_from(v, 0)
    }

    open spec fn canonical_body(v: C1G2Recommission) -> bool {
        Self::fits(v)
    }

    proof fn lemma_emit_body(v: C1G2Recommission, s: EncoderState) {
        reveal(C1G2Recommission::write_fields);
        C1G2Recommission::lemma_wire_from(v);
        <u16 as LLRPValue>::lemma_emit(v.op_spec_id, s);
        let s1 = s.write_bytes(<u16 as LLRPValue>::wire(v.op_spec_id));
        <u16 as LLRPValue>::lemma_emit(v.kill_password, s1);
        let s2 = s1.write_bytes(<u16 as LLRPValue>::wire(v.kill_password));
        <u8 as LLRPValue>::lemma_emit(v.params, s2);
        let s3 = s2.write_bytes(<u8 as LLRPValue>::wire(v.params));
        lemma_concat_empty(s3.bytes);
        lemma_concat_assoc(
            s2.bytes,
            <u8 as LLRPValue>::wire(v.params),
            C1G2Recommission::wire_from(v, 3),
        );
        lemma_concat_assoc(
            s1.bytes,
            <u16 as LLRPValue>::wire(v.kill_password),
            C1G2Recommission::wire_from(v, 2),
        );
        lemma_concat_assoc(
            s.bytes,
            <u16 as LLRPValue>::wire(v.op_spec_id),
            C1G2Recommission::wire_from(v, 1),
        );
    }

    proof fn lemma_parse_body(v: C1G2Recommission) {
        reveal(C1G2Recommission::fits);
        reveal(C1G2Recommission::read_fields);
        if Self::canonical_body(v) {
            C1G2Recommission::lemma_wire_from(v);
            assert(<u16 as LLRPValue>::parse(DecoderState::start(Self::wire_from(v, 0))) == Ok::<(u16, DecoderState), Error>((v.op_spec_id, DecoderState::start(Self::wire_from(v, 1))))) by {
                <u16 as LLRPValue>::lemma_parse(v.op_spec_id, Self::wire_from(v, 1));
            }
            assert(<u16 as LLRPValue>::parse(DecoderState::start(Self::wire_from(v, 1))) == Ok::<(u16, DecoderState), Error>((v.kill_password, DecoderState::start(Self::wire_from(v, 2))))) by {
                <u16 as LLRPValue>::lemma_parse(v.kill_password, Self::wire_from(v, 2));
            }
            assert(<u8 as LLRPValue>::parse(DecoderState::start(Self::wire_from(v, 2))) == Ok::<(u8, DecoderState), Error>((v.params, DecoderState::start(Self::wire_from(v, 3))))) by {
                <u8 as LLRPValue>::lemma_parse(v.params, Self::wire_from(v, 3));
            }
        }
    }

    fn decode_body(decoder: &mut Decoder) -> (r: Result<Self, Error>) {
        proof {
            reveal(C1G2Recommission::read_fields);
        }
        let op_spec_id = decoder.read::<u16>()?;
        let kill_password = decoder.read::<u16>()?;
        let params = decoder.read::<u8>()?;
        Ok(C1G2Recommission { op_spec_id, kill_password, params })
    }

    fn encode_body(&self, encoder: &mut Encoder) {
        proof {
            reveal(C1G2Recommission::write_fields);
        }
        encoder.write(&self.op_spec_id);
        encoder.write(&self.kill_password);
        encoder.write(&self.params);
    }
}

/// Locks parts of a tag's memory.
#[derive(Debug, PartialEq, Eq)]
pub struct C1G2Lock {
    pub op_spec_id: u16,
    pub access_password: u32,
    pub lock_parms: Vec<C1G2LockPayload>,
}

/// The model of a `C1G2Lock`.
pub struct C1G2LockView {
    pub op_spec_id: u16,
    pub access_password: u32,
    pub lock_parms: Seq<C1G2LockPayload>,
}

impl DeepView for C1G2Lock {
    type V = C1G2LockView;

    open spec fn deep_view(&self) -> C1G2LockView {
        C1G2LockView {
            op_spec_id: self.op_spec_id,
            access_password: self.access_password,
            lock_parms: self.lock_parms.deep_view(),
        }
    }
}

impl C1G2Lock {
    /// The bytes of the fields from the `k`-th on.
    #[verifier::opaque]
    pub open spec fn wire_from(v: C1G2LockView, k: nat) -> Seq<u8>
        decreases 3 - k,
    {
        if k == 0 {
            <u16 as LLRPValue>::wire(v.op_spec_id) + Self::wire_from(v, 1)
        } else if k == 1 {
            <u32 as LLRPValue>::wire(v.access_password) + Self::wire_from(v, 2)
        } else if k == 2 {
            <Vec<C1G2LockPayload> as LLRPValue>::wire(v.lock_parms) + Self::wire_from(v, 3)
        } else {
            Seq::empty()
        }
    }

    /// The bytes of the fields, one field at a time.
    pub proof fn lemma_wire_from(v: C1G2LockView)
        ensures
            Self::wire_from(v, 0) == <u16 as LLRPValue>::wire(v.op_spec_id) + Self::wire_from(v, 1),
            Self::wire_from(v, 1) == <u32 as LLRPValue>::wire(v.access_password)
                + Self::wire_from(v, 2),
            Self::wire_from(v, 2) == <Vec<C1G2LockPayload> as LLRPValue>::wire(v.lock_parms)
                + Self::wire_from(v, 3),
            Self::wire_from(v, 3) == Seq::<u8>::empty(),
    {
        reveal(C1G2Lock::wire_from);
    }

    /// Whether the fields fit the format, each before the fields behind it.
    #[verifier::opaque]
    pub open spec fn fits(v: C1G2LockView) -> bool {
        &&& <Vec<C1G2LockPayload> as LLRPValue>::canonical(v.lock_parms)
        &&& <Vec<C1G2LockPayload> as LLRPValue>::follow_ok(v.lock_parms, Self::wire_from(v, 3))
    }

    /// The fields read in order, or the first error.
    #[verifier::opaque]
    pub open spec fn read_fields(s: DecoderState) -> Result<(C1G2LockView, DecoderState), Error> {
        match <u16 as LLRPValue>::parse(s) {
            Err(e) => Err(e),
            Ok((op_spec_id, s)) => match <u32 as LLRPValue>::parse(s) {
                Err(e) => Err(e),
                Ok((access_password, s)) => match <Vec<C1G2LockPayload> as LLRPValue>::parse(s) {
                    Err(e) => Err(e),
                    Ok((lock_parms, s)) => Ok((C1G2LockView { op_spec_id, access_password, lock_parms }, s)),
                },
            },
        }
    }

    /// The state after the fields have been written in order.
    #[verifier::opaque]
    pub open spec fn write_fields(v: C1G2LockView, s: EncoderState) -> EncoderState {
        let s = <u16 as LLRPValue>::emit(v.op_spec_id, s);
        let s = <u32 as LLRPValue>::emit(v.access_password, s);
        let s = <Vec<C1G2LockPayload> as LLRPValue>::emit(v.lock_parms, s);
        s
    }
}

impl TlvParameter for C1G2Lock {
    const ID: u16 = 344;

    open spec fn parse_body(s: DecoderState) -> Result<(C1G2LockView, DecoderState), Error> {
        Self::read_fields(s)
    }

    open spec fn emit_body(v: C1G2LockView, s: EncoderState) -> EncoderState {
        Self::write_fields(v, s)
    }

    open spec fn wire_body(v: C1G2LockView) -> Seq<u8> {
        Self::wire_from(v, 0)
    }

    open spec fn canonical_body(v: C1G2LockView) -> bool {
        Self::fits(v)
    }

    proof fn lemma_emit_body(v: C1G2LockView, s: EncoderState) {
        reveal(C1G2Lock::write_fields);
        C1G2Lock::lemma_wire_from(v);
        <u16 as LLRPValue>::lemma_emit(v.op_spec_id, s);
        let s1 = s.write_bytes(<u16 as LLRPValue>::wire(v.op_spec_id));
        <u32 as LLRPValue>::lemma_emit(v.access_password, s1);
        let s2 = s1.write_bytes(<u32 as LLRPValue>::wire(v.access_password));
        <Vec<C1G2LockPayload> as LLRPValue>::lemma_emit(v.lock_parms, s2);
        let s3 = s2.write_bytes(<Vec<C1G2LockPayload> as LLRPValue>::wire(v.lock_parms));
        lemma_concat_empty(s3.bytes);
        lemma_concat_assoc(
            s2.bytes,
            <Vec<C1G2LockPayload> as LLRPValue>::wire(v.lock_parms),
            C1G2Lock::wire_from(v, 3),
        );
        lemma_concat_assoc(
            s1.bytes,
            <u32 as LLRPValue>::wire(v.access_password),
            C1G2Lock::wire_from(v, 2),
        );
        lemma_concat_assoc(
            s.bytes,
            <u16 as LLRPValue>::wire(v.op_spec_id),
            C1G2Lock::wire_from(v, 1),
        );
    }

    proof fn lemma_parse_body(v: C1G2LockView) {
        reveal(C1G2Lock::fits);
        reveal(C1G2Lock::read_fields);
        if Self::canonical_body(v) {
            C1G2Lock::lemma_wire_from(v);
            assert(<u16 as LLRPValue>::parse(DecoderState::start(Self::wire_from(v, 0))) == Ok::<(u16, DecoderState), Error>((v.op_spec_id, DecoderState::start(Self::wire_from(v, 1))))) by {
                <u16 as LLRPValue>::lemma_parse(v.op_spec_id, Self::wire_from(v, 1));
            }
            assert(<u32 as LLRPValue>::parse(DecoderState::start(Self::wire_from(v, 1))) == Ok::<(u32, DecoderState), Error>((v.access_password, DecoderState::start(Self::wire_from(v, 2))))) by {
                <u32 as LLRPValue>::lemma_parse(v.access_password, Self::wire_from(v, 2));
            }
            assert(<Vec<C1G2LockPayload> as LLRPValue>::parse(DecoderState::start(Self::wire_from(v, 2))) == Ok::<(Seq<C1G2LockPayload>, DecoderState), Error>((v.lock_parms, DecoderState::start(Self::wire_from(v, 3))))) by {
                <Vec<C1G2LockPayload> as LLRPValue>::lemma_parse(
                    v.lock_parms,
                    Self::wire_from(v, 3),
                );
            }
        }
    }

    fn decode_body(decoder: &mut Decoder) -> (r: Result<Self, Error>) {
        proof {
            reveal(C1G2Lock::read_fields);
        }
        let op_spec_id = decoder.read::<u16>()?;
        let access_password = decoder.read::<u32>()?;
        let lock_parms = decoder.read::<Vec<C1G2LockPayload>>()?;
        Ok(C1G2Lock { op_spec_id, access_password, lock_parms })
    }

    fn encode_body(&self, encoder: &mut Encoder) {
        proof {
            reveal(C1G2Lock::write_fields);
        }
        encoder.write(&self.op_spec_id);
        encoder.write(&self.access_password);
        encoder.write(&self.lock_parms);
    }
}

/// One lock: the privilege and the part of memory it is for.
#[derive(Debug, PartialEq, Eq)]
pub struct C1G2LockPayload {
    pub privilaged: u8,
    pub data_field: u8,
}

impl DeepView for C1G2LockPayload {
    type V = C1G2LockPayload;

    open spec fn deep_view(&self) -> C1G2LockPayload {
        *self
    }
}

impl C1G2LockPayload {
    /// The bytes of the fields from the `k`-th on.
    #[verifier::opaque]
    pub open spec fn wire_from(v: C1G2LockPayload, k: nat) -> Seq<u8>
        decreases 2 - k,
    {
        if k == 0 {
            <u8 as LLRPValue>::wire(v.privilaged) + Self::wire_from(v, 1)
        } else if k == 1 {
            <u8 as LLRPValue>::wire(v.data_field) + Self::wire_from(v, 2)
        } else {
            Seq::empty()
        }
    }

    /// The bytes of the fields, one field at a time.
    pub proof fn lemma_wire_from(v: C1G2LockPayload)
        ensures
            Self::wire_from(v, 0) == <u8 as LLRPValue>::wire(v.privilaged) + Self::wire_from(v, 1),
            Self::wire_from(v, 1) == <u8 as LLRPValue>::wire(v.data_field) + Self::wire_from(v, 2),
            Self::wire_from(v, 2) == Seq::<u8>::empty(),
    {
        reveal(C1G2LockPayload::wire_from);
    }

    /// Whether the fields fit the format, each before the fields behind it.
    #[verifier::opaque]
    pub open spec fn fits(v: C1G2LockPayload) -> bool {
        true
    }

    /// The fields read in order, or the first error.
    #[verifier::opaque]
    pub open spec fn read_fields(s: DecoderState) -> Result<
        (C1G2LockPayload, DecoderState),
        Error,
    > {
        match <u8 as LLRPValue>::parse(s) {
            Err(e) => Err(e),
            Ok((privilaged, s)) => match <u8 as LLRPValue>::parse(s) {
                Err(e) => Err(e),
                Ok((data_field, s)) => Ok((C1G2LockPayload { privilaged, data_field }, s)),
            },
        }
    }

    /// The state after the fields have been written in order.
    #[verifier::opaque]
    pub open spec fn write_fields(v: C1G2LockPayload, s: EncoderState) -> EncoderState {
        let s = <u8 as LLRPValue>::emit(v.privilaged, s);
        let s = <u8 as LLRPValue>::emit(v.data_field, s);
        s
    }
}

impl TlvParameter for C1G2LockPayload {
    const ID: u16 = 345;

    open spec fn parse_body(s: DecoderState) -> Result<(C1G2LockPayload, DecoderState), Error> {
        Self::read_fields(s)
    }

    open spec fn emit_body(v: C1G2LockPayload, s: EncoderState) -> EncoderState {
        Self::write_fields(v, s)
    }

    open spec fn wire_body(v: C1G2LockPayload) -> Seq<u8> {
        Self::wire_from(v, 0)
    }

    open spec fn canonical_body(v: C1G2LockPayload) -> bool {
        Self::fits(v)
    }

    proof fn lemma_emit_body(v: C1G2LockPayload, s: EncoderState) {
        reveal(C1G2LockPayload::write_fields);
        C1G2LockPayload::lemma_wire_from(v);
        <u8 as LLRPValue>::lemma_emit(v.privilaged, s);
        let s1 = s.write_bytes(<u8 as LLRPValue>::wire(v.privilaged));
        <u8 as LLRPValue>::lemma_emit(v.data_field, s1);
        let s2 = s1.write_bytes(<u8 as LLRPValue>::wire(v.data_field));
        lemma_concat_empty(s2.bytes);
        lemma_concat_assoc(
            s1.bytes,
            <u8 as LLRPValue>::wire(v.data_field),
            C1G2LockPayload::wire_from(v, 2),
        );
        lemma_concat_assoc(
            s.bytes,
            <u8 as LLRPValue>::wire(v.privilaged),
            C1G2LockPayload::wire_from(v, 1),
        );
    }

    proof fn lemma_parse_body(v: C1G2LockPayload) {
        reveal(C1G2LockPayload::fits);
        reveal(C1G2LockPayload::read_fields);
        if Self::canonical_body(v) {
            C1G2LockPayload::lemma_wire_from(v);
            assert(<u8 as LLRPValue>::parse(DecoderState::start(Self::wire_from(v, 0))) == Ok::<(u8, DecoderState), Error>((v.privilaged, DecoderState::start(Self::wire_from(v, 1))))) by {
                <u8 as LLRPValue>::lemma_parse(v.privilaged, Self::wire_from(v, 1));
            }
            assert(<u8 as LLRPValue>::parse(DecoderState::start(Self::wire_from(v, 1))) == Ok::<(u8, DecoderState), Error>((v.data_field, DecoderState::start(Self::wire_from(v, 2))))) by {
                <u8 as LLRPValue>::lemma_parse(v.data_field, Self::wire_from(v, 2));
            }
        }
    }

    fn decode_body(decoder: &mut Decoder) -> (r: Result<Self, Error>) {
        proof {
            reveal(C1G2LockPayload::read_fields);
        }
        let privilaged = decoder.read::<u8>()?;
        let data_field = decoder.read::<u8>()?;
        Ok(C1G2LockPayload { privilaged, data_field })
    }

    fn encode_body(&self, encoder: &mut Encoder) {
        proof {
            reveal(C1G2LockPayload::write_fields);
        }
        encoder.write(&self.privilaged);
        encoder.write(&self.data_field);
    }
}

/// Erases a block of a tag's memory.
#[derive(Debug, PartialEq, Eq)]
pub struct C1G2BlockErase {
    pub op_spec_id: u16,
    pub access_password: u32,
    pub memory_bank: u8,
    pub word_ptr: u16,
    pub word_count: u16,
}

impl DeepView for C1G2BlockErase {
    type V = C1G2BlockErase;

    open spec fn deep_view(&self) -> C1G2BlockErase {
        *self
    }
}

impl C1G2BlockErase {
    /// The bytes of the fields from the `k`-th on.
    #[verifier::opaque]
    pub open spec fn wire_from(v: C1G2BlockErase, k: nat) -> Seq<u8>
        decreases 5 - k,
    {
        if k == 0 {
            <u16 as LLRPValue>::wire(v.op_spec_id) + Self::wire_from(v, 1)
        } else if k == 1 {
            <u32 as LLRPValue>::wire(v.access_password) + Self::wire_from(v, 2)
        } else if k == 2 {
            <u8 as LLRPValue>::wire(v.memory_bank) + Self::wire_from(v, 3)
        } else if k == 3 {
            <u16 as LLRPValue>::wire(v.word_ptr) + Self::wire_from(v, 4)
        } else if k == 4 {
            <u16 as LLRPValue>::wire(v.word_count) + Self::wire_from(v, 5)
        } else {
            Seq::empty()
        }
    }

    /// The bytes of the fields, one field at a time.
    pub proof fn lemma_wire_from(v: C1G2BlockErase)
        ensures
            Self::wire_from(v, 0) == <u16 as LLRPValue>::wire(v.op_spec_id) + Self::wire_from(v, 1),
            Self::wire_from(v, 1) == <u32 as LLRPValue>::wire(v.access_password)
                + Self::wire_from(v, 2),
            Self::wire_from(v, 2) == <u8 as LLRPValue>::wire(v.memory_bank) + Self::wire_from(v, 3),
            Self::wire_from(v, 3) == <u16 as LLRPValue>::wire(v.word_ptr) + Self::wire_from(v, 4),
            Self::wire_from(v, 4) == <u16 as LLRPValue>::wire(v.word_count) + Self::wire_from(v, 5),
            Self::wire_from(v, 5) == Seq::<u8>::empty(),
    {
        reveal(C1G2BlockErase::wire_from);
    }

    /// Whether the fields fit the format, each before the fields behind it.
    #[verifier::opaque]
    pub open spec fn fits(v: C1G2BlockErase) -> bool {
        true
    }

    /// The first fields read in order, or the first error.
    #[verifier::opaque]
    pub open spec fn read_front(s: DecoderState) -> Result<((u16, u32), DecoderState), Error> {
        match <u16 as LLRPValue>::parse(s) {
            Err(e) => Err(e),
            Ok((op_spec_id, s)) => match <u32 as LLRPValue>::parse(s) {
                Err(e) => Err(e),
                Ok((access_password, s)) => Ok(((op_spec_id, access_password), s)),
            },
        }
    }

    /// The other fields read in order behind the first, or the first error.
    #[verifier::opaque]
    pub open spec fn read_back(front: (u16, u32), s: DecoderState) -> Result<
        (C1G2BlockErase, DecoderState),
        Error,
    > {
        match <u8 as LLRPValue>::parse(s) {
            Err(e) => Err(e),
            Ok((memory_bank, s)) => match <u16 as LLRPValue>::parse(s) {
                Err(e) => Err(e),
                Ok((word_ptr, s)) => match <u16 as LLRPValue>::parse(s) {
                    Err(e) => Err(e),
                    Ok((word_count, s)) => Ok((C1G2BlockErase { op_spec_id: front.0, access_password: front.1, memory_bank, word_ptr, word_count }, s)),
                },
            },
        }
    }

    /// The fields read in order, or the first error.
    #[verifier::opaque]
    pub open spec fn read_fields(s: DecoderState) -> Result<(C1G2BlockErase, DecoderState), Error> {
        match Self::read_front(s) {
            Err(e) => Err(e),
            Ok((front, s)) => Self::read_back(front, s),
        }
    }

    /// The state after the fields have been written in order.
    #[verifier::opaque]
    pub open spec fn write_fields(v: C1G2BlockErase, s: EncoderState) -> EncoderState {
        let s = <u16 as LLRPValue>::emit(v.op_spec_id, s);
        let s = <u32 as LLRPValue>::emit(v.access_password, s);
        let s = <u8 as LLRPValue>::emit(v.memory_bank, s);
        let s = <u16 as LLRPValue>::emit(v.word_ptr, s);
        let s = <u16 as LLRPValue>::emit(v.word_count, s);
        s
    }

    fn decode_front(decoder: &mut Decoder) -> (r: Result<(u16, u32), Error>)
        ensures
            match Self::read_front(old(decoder)@) {
                Ok((front, s)) => {
                    &&& r is Ok
                    &&& r->Ok_0.0 == front.0
                    &&& r->Ok_0.1 == front.1
                    &&& final(decoder)@ == s
                },
                Err(e) => r == Err::<(u16, u32), Error>(e),
            },
    {
        proof {
            reveal(C1G2BlockErase::read_front);
        }
        let op_spec_id = decoder.read::<u16>()?;
        let access_password = decoder.read::<u32>()?;
        Ok((op_spec_id, access_password))
    }

    fn decode_back(front: (u16, u32), decoder: &mut Decoder) -> (r: Result<C1G2BlockErase, Error>)
        ensures
            decoded::<C1G2BlockErase>(
                Self::read_back((front.0, front.1), old(decoder)@),
                r,
                final(decoder)@,
            ),
    {
        proof {
            reveal(C1G2BlockErase::read_back);
        }
        let memory_bank = decoder.read::<u8>()?;
        let word_ptr = decoder.read::<u16>()?;
        let word_count = decoder.read::<u16>()?;
        Ok(C1G2BlockErase { op_spec_id: front.0, access_password: front.1, memory_bank, word_ptr, word_count })
    }

    /// The first fields are read back from the bytes of all.
    pub proof fn lemma_parse_front(v: C1G2BlockErase)
        ensures
            Self::fits(v) ==> Self::read_front(DecoderState::start(Self::wire_from(v, 0))) == Ok::<
                ((u16, u32), DecoderState),
                Error,
            >(((v.op_spec_id, v.access_password), DecoderState::start(Self::wire_from(v, 2)))),
    {
        reveal(C1G2BlockErase::fits);
        reveal(C1G2BlockErase::read_front);
        if Self::fits(v) {
            C1G2BlockErase::lemma_wire_from(v);
            assert(<u16 as LLRPValue>::parse(DecoderState::start(Self::wire_from(v, 0))) == Ok::<(u16, DecoderState), Error>((v.op_spec_id, DecoderState::start(Self::wire_from(v, 1))))) by {
                <u16 as LLRPValue>::lemma_parse(v.op_spec_id, Self::wire_from(v, 1));
            }
            assert(<u32 as LLRPValue>::parse(DecoderState::start(Self::wire_from(v, 1))) == Ok::<(u32, DecoderState), Error>((v.access_password, DecoderState::start(Self::wire_from(v, 2))))) by {
                <u32 as LLRPValue>::lemma_parse(v.access_password, Self::wire_from(v, 2));
            }
        }
    }

    /// The other fields are read back from the bytes behind the first.
    pub proof fn lemma_parse_back(v: C1G2BlockErase)
        ensures
            Self::fits(
                v) ==> Self::read_back((v.op_spec_id,
                v.access_password), DecoderState::start(Self::wire_from(v, 2)),
            )
                == Ok::<(
                    C1G2BlockErase,
                    DecoderState), Error>((v,
                    DecoderState::start(Seq::empty())),
                ),
    {
        reveal(C1G2BlockErase::fits);
        reveal(C1G2BlockErase::read_back);
        if Self::fits(v) {
            C1G2BlockErase::lemma_wire_from(v);
            assert(<u8 as LLRPValue>::parse(DecoderState::start(Self::wire_from(v, 2))) == Ok::<(u8, DecoderState), Error>((v.memory_bank, DecoderState::start(Self::wire_from(v, 3))))) by {
                <u8 as LLRPValue>::lemma_parse(v.memory_bank, Self::wire_from(v, 3));
            }
            assert(<u16 as LLRPValue>::parse(DecoderState::start(Self::wire_from(v, 3))) == Ok::<(u16, DecoderState), Error>((v.word_ptr, DecoderState::start(Self::wire_from(v, 4))))) by {
                <u16 as LLRPValue>::lemma_parse(v.word_ptr, Self::wire_from(v, 4));
            }
            assert(<u16 as LLRPValue>::parse(DecoderState::start(Self::wire_from(v, 4))) == Ok::<(u16, DecoderState), Error>((v.word_count, DecoderState::start(Self::wire_from(v, 5))))) by {
                <u16 as LLRPValue>::lemma_parse(v.word_count, Self::wire_from(v, 5));
            }
        }
    }
}

impl TlvParameter for C1G2BlockErase {
    const ID: u16 = 346;

    open spec fn parse_body(s: DecoderState) -> Result<(C1G2BlockErase, DecoderState), Error> {
        Self::read_fields(s)
    }

    open spec fn emit_body(v: C1G2BlockErase, s: EncoderState) -> EncoderState {
        Self::write_fields(v, s)
    }

    open spec fn wire_body(v: C1G2BlockErase) -> Seq<u8> {
        Self::wire_from(v, 0)
    }

    open spec fn canonical_body(v: C1G2BlockErase) -> bool {
        Self::fits(v)
    }

    proof fn lemma_emit_body(v: C1G2BlockErase, s: EncoderState) {
        reveal(C1G2BlockErase::write_fields);
        C1G2BlockErase::lemma_wire_from(v);
        <u16 as LLRPValue>::lemma_emit(v.op_spec_id, s);
        let s1 = s.write_bytes(<u16 as LLRPValue>::wire(v.op_spec_id));
        <u32 as LLRPValue>::lemma_emit(v.access_password, s1);
        let s2 = s1.write_bytes(<u32 as LLRPValue>::wire(v.access_password));
        <u8 as LLRPValue>::lemma_emit(v.memory_bank, s2);
        let s3 = s2.write_bytes(<u8 as LLRPValue>::wire(v.memory_bank));
        <u16 as LLRPValue>::lemma_emit(v.word_ptr, s3);
        let s4 = s3.write_bytes(<u16 as LLRPValue>::wire(v.word_ptr));
        <u16 as LLRPValue>::lemma_emit(v.word_count, s4);
        let s5 = s4.write_bytes(<u16 as LLRPValue>::wire(v.word_count));
        lemma_concat_empty(s5.bytes);
        lemma_concat_assoc(
            s4.bytes,
            <u16 as LLRPValue>::wire(v.word_count),
            C1G2BlockErase::wire_from(v, 5),
        );
        lemma_concat_assoc(
            s3.bytes,
            <u16 as LLRPValue>::wire(v.word_ptr),
            C1G2BlockErase::wire_from(v, 4),
        );
        lemma_concat_assoc(
            s2.bytes,
            <u8 as LLRPValue>::wire(v.memory_bank),
            C1G2BlockErase::wire_from(v, 3),
        );
        lemma_concat_assoc(
            s1.bytes,
            <u32 as LLRPValue>::wire(v.access_password),
            C1G2BlockErase::wire_from(v, 2),
        );
        lemma_concat_assoc(
            s.bytes,
            <u16 as LLRPValue>::wire(v.op_spec_id),
            C1G2BlockErase::wire_from(v, 1),
        );
    }

    proof fn lemma_parse_body(v: C1G2BlockErase) {
        C1G2BlockErase::lemma_parse_front(v);
        C1G2BlockErase::lemma_parse_back(v);
        reveal(C1G2BlockErase::read_fields);
    }

    fn decode_body(decoder: &mut Decoder) -> (r: Result<Self, Error>) {
        proof {
            reveal(C1G2BlockErase::read_fields);
        }
        let front = Self::decode_front(decoder)?;
        Self::decode_back(front, decoder)
    }

    fn encode_body(&self, encoder: &mut Encoder) {
        proof {
            reveal(C1G2BlockErase::write_fields);
        }
        encoder.write(&self.op_spec_id);
        encoder.write(&self.access_password);
        encoder.write(&self.memory_bank);
        encoder.write(&self.word_ptr);
        encoder.write(&self.word_count);
    }
}

/// Writes a block of a tag's memory.
#[derive(Debug, PartialEq, Eq)]
pub struct C1G2BlockWrite {
    pub op_spec_id: u16,
    pub access_password: u32,
    pub memory_bank: u8,
    pub word_ptr: u16,
    pub write_data: Vec<u16>,
}

/// The model of a `C1G2BlockWrite`.
pub struct C1G2BlockWriteView {
    pub op_spec_id: u16,
    pub access_password: u32,
    pub memory_bank: u8,
    pub word_ptr: u16,
    pub write_data: Seq<u16>,
}

impl DeepView for C1G2BlockWrite {
    type V = C1G2BlockWriteView;

    open spec fn deep_view(&self) -> C1G2BlockWriteView {
        C1G2BlockWriteView {
            op_spec_id: self.op_spec_id,
            access_password: self.access_password,
            memory_bank: self.memory_bank,
            word_ptr: self.word_ptr,
            write_data: self.write_data.deep_view(),
        }
    }
}

impl C1G2BlockWrite {
    /// The bytes of the fields from the `k`-th on.
    #[verifier::opaque]
    pub open spec fn wire_from(v: C1G2BlockWriteView, k: nat) -> Seq<u8>
        decreases 5 - k,
    {
        if k == 0 {
            <u16 as LLRPValue>::wire(v.op_spec_id) + Self::wire_from(v, 1)
        } else if k == 1 {
            <u32 as LLRPValue>::wire(v.access_password) + Self::wire_from(v, 2)
        } else if k == 2 {
            <u8 as LLRPValue>::wire(v.memory_bank) + Self::wire_from(v, 3)
        } else if k == 3 {
            <u16 as LLRPValue>::wire(v.word_ptr) + Self::wire_from(v, 4)
        } else if k == 4 {
            array_wire::<u16>(v.write_data) + Self::wire_from(v, 5)
        } else {
            Seq::empty()
        }
    }

    /// The bytes of the fields, one field at a time.
    pub proof fn lemma_wire_from(v: C1G2BlockWriteView)
        ensures
            Self::wire_from(v, 0) == <u16 as LLRPValue>::wire(v.op_spec_id) + Self::wire_from(v, 1),
            Self::wire_from(v, 1) == <u32 as LLRPValue>::wire(v.access_password)
                + Self::wire_from(v, 2),
            Self::wire_from(v, 2) == <u8 as LLRPValue>::wire(v.memory_bank) + Self::wire_from(v, 3),
            Self::wire_from(v, 3) == <u16 as LLRPValue>::wire(v.word_ptr) + Self::wire_from(v, 4),
            Self::wire_from(v, 4) == array_wire::<u16>(v.write_data) + Self::wire_from(v, 5),
            Self::wire_from(v, 5) == Seq::<u8>::empty(),
    {
        reveal(C1G2BlockWrite::wire_from);
    }

    /// Whether the fields fit the format, each before the fields behind it.
    #[verifier::opaque]
    pub open spec fn fits(v: C1G2BlockWriteView) -> bool {
        &&& array_canonical::<u16>(v.write_data)
    }

    /// The first fields read in order, or the first error.
    #[verifier::opaque]
    pub open spec fn read_front(s: DecoderState) -> Result<((u16, u32), DecoderState), Error> {
        match <u16 as LLRPValue>::parse(s) {
            Err(e) => Err(e),
            Ok((op_spec_id, s)) => match <u32 as LLRPValue>::parse(s) {
                Err(e) => Err(e),
                Ok((access_password, s)) => Ok(((op_spec_id, access_password), s)),
            },
        }
    }

    /// The other fields read in order behind the first, or the first error.
    #[verifier::opaque]
    pub open spec fn read_back(front: (u16, u32), s: DecoderState) -> Result<
        (C1G2BlockWriteView, DecoderState),
        Error,
    > {
        match <u8 as LLRPValue>::parse(s) {
            Err(e) => Err(e),
            Ok((memory_bank, s)) => match <u16 as LLRPValue>::parse(s) {
                Err(e) => Err(e),
                Ok((word_ptr, s)) => match parse_array::<u16>(s) {
                    Err(e) => Err(e),
                    Ok((write_data, s)) => Ok((C1G2BlockWriteView { op_spec_id: front.0, access_password: front.1, memory_bank, word_ptr, write_data }, s)),
                },
            },
        }
    }

    /// The fields read in order, or the first error.
    #[verifier::opaque]
    pub open spec fn read_fields(s: DecoderState) -> Result<
        (C1G2BlockWriteView, DecoderState),
        Error,
    > {
        match Self::read_front(s) {
            Err(e) => Err(e),
            Ok((front, s)) => Self::read_back(front, s),
        }
    }

    /// The state after the fields have been written in order.
    #[verifier::opaque]
    pub open spec fn write_fields(v: C1G2BlockWriteView, s: EncoderState) -> EncoderState {
        let s = <u16 as LLRPValue>::emit(v.op_spec_id, s);
        let s = <u32 as LLRPValue>::emit(v.access_password, s);
        let s = <u8 as LLRPValue>::emit(v.memory_bank, s);
        let s = <u16 as LLRPValue>::emit(v.word_ptr, s);
        let s = emit_array::<u16>(v.write_data, s);
        s
    }

    fn decode_front(decoder: &mut Decoder) -> (r: Result<(u16, u32), Error>)
        ensures
            match Self::read_front(old(decoder)@) {
                Ok((front, s)) => {
                    &&& r is Ok
                    &&& r->Ok_0.0 == front.0
                    &&& r->Ok_0.1 == front.1
                    &&& final(decoder)@ == s
                },
                Err(e) => r == Err::<(u16, u32), Error>(e),
            },
    {
        proof {
            reveal(C1G2BlockWrite::read_front);
        }
        let op_spec_id = decoder.read::<u16>()?;
        let access_password = decoder.read::<u32>()?;
        Ok((op_spec_id, access_password))
    }

    fn decode_back(front: (u16, u32), decoder: &mut Decoder) -> (r: Result<C1G2BlockWrite, Error>)
        ensures
            decoded::<C1G2BlockWrite>(
                Self::read_back((front.0, front.1), old(decoder)@),
                r,
                final(decoder)@,
            ),
    {
        proof {
            reveal(C1G2BlockWrite::read_back);
        }
        let memory_bank = decoder.read::<u8>()?;
        let word_ptr = decoder.read::<u16>()?;
        let read_write_data = |d: &mut Decoder| -> (r: Result<u16, Error>)
            ensures
                decoded::<u16>(<u16 as LLRPValue>::parse(old(d)@), r, final(d)@),
            {
                d.read::<u16>()
            };
        let ghost write_data_reader = read_write_data;
        let ghost write_data_start = decoder@;
        let write_data = decoder.array(read_write_data);
        proof {
            lemma_array_decoded::<u16, _>(
                write_data_reader,
                write_data_start,
                write_data,
                decoder@,
            );
        }
        let write_data = write_data?;
        Ok(C1G2BlockWrite { op_spec_id: front.0, access_password: front.1, memory_bank, word_ptr, write_data })
    }

    /// The first fields are read back from the bytes of all.
    pub proof fn lemma_parse_front(v: C1G2BlockWriteView)
        ensures
            Self::fits(v) ==> Self::read_front(DecoderState::start(Self::wire_from(v, 0))) == Ok::<
                ((u16, u32), DecoderState),
                Error,
            >(((v.op_spec_id, v.access_password), DecoderState::start(Self::wire_from(v, 2)))),
    {
        reveal(C1G2BlockWrite::fits);
        reveal(C1G2BlockWrite::read_front);
        if Self::fits(v) {
            C1G2BlockWrite::lemma_wire_from(v);
            assert(<u16 as LLRPValue>::parse(DecoderState::start(Self::wire_from(v, 0))) == Ok::<(u16, DecoderState), Error>((v.op_spec_id, DecoderState::start(Self::wire_from(v, 1))))) by {
                <u16 as LLRPValue>::lemma_parse(v.op_spec_id, Self::wire_from(v, 1));
            }
            assert(<u32 as LLRPValue>::parse(DecoderState::start(Self::wire_from(v, 1))) == Ok::<(u32, DecoderState), Error>((v.access_password, DecoderState::start(Self::wire_from(v, 2))))) by {
                <u32 as LLRPValue>::lemma_parse(v.access_password, Self::wire_from(v, 2));
            }
        }
    }

    /// The other fields are read back from the bytes behind the first.
    pub proof fn lemma_parse_back(v: C1G2BlockWriteView)
        ensures
            Self::fits(
                v) ==> Self::read_back((v.op_spec_id,
                v.access_password), DecoderState::start(Self::wire_from(v, 2)),
            )
                == Ok::<(
                    C1G2BlockWriteView,
                    DecoderState), Error>((v,
                    DecoderState::start(Seq::empty())),
                ),
    {
        reveal(C1G2BlockWrite::fits);
        reveal(C1G2BlockWrite::read_back);
        if Self::fits(v) {
            C1G2BlockWrite::lemma_wire_from(v);
            assert(<u8 as LLRPValue>::parse(DecoderState::start(Self::wire_from(v, 2))) == Ok::<(u8, DecoderState), Error>((v.memory_bank, DecoderState::start(Self::wire_from(v, 3))))) by {
                <u8 as LLRPValue>::lemma_parse(v.memory_bank, Self::wire_from(v, 3));
            }
            assert(<u16 as LLRPValue>::parse(DecoderState::start(Self::wire_from(v, 3))) == Ok::<(u16, DecoderState), Error>((v.word_ptr, DecoderState::start(Self::wire_from(v, 4))))) by {
                <u16 as LLRPValue>::lemma_parse(v.word_ptr, Self::wire_from(v, 4));
            }
            assert(parse_array::<u16>(DecoderState::start(Self::wire_from(v, 4))) == Ok::<(Seq<u16>, DecoderState), Error>((v.write_data, DecoderState::start(Self::wire_from(v, 5))))) by {
                lemma_array_front::<u16>(v.write_data, Self::wire_from(v, 5));
            }
        }
    }
}

impl TlvParameter for C1G2BlockWrite {
    const ID: u16 = 347;

    open spec fn parse_body(s: DecoderState) -> Result<(C1G2BlockWriteView, DecoderState), Error> {
        Self::read_fields(s)
    }

    open spec fn emit_body(v: C1G2BlockWriteView, s: EncoderState) -> EncoderState {
        Self::write_fields(v, s)
    }

    open spec fn wire_body(v: C1G2BlockWriteView) -> Seq<u8> {
        Self::wire_from(v, 0)
    }

    open spec fn canonical_body(v: C1G2BlockWriteView) -> bool {
        Self::fits(v)
    }

    proof fn lemma_emit_body(v: C1G2BlockWriteView, s: EncoderState) {
        reveal(C1G2BlockWrite::write_fields);
        C1G2BlockWrite::lemma_wire_from(v);
        <u16 as LLRPValue>::lemma_emit(v.op_spec_id, s);
        let s1 = s.write_bytes(<u16 as LLRPValue>::wire(v.op_spec_id));
        <u32 as LLRPValue>::lemma_emit(v.access_password, s1);
        let s2 = s1.write_bytes(<u32 as LLRPValue>::wire(v.access_password));
        <u8 as LLRPValue>::lemma_emit(v.memory_bank, s2);
        let s3 = s2.write_bytes(<u8 as LLRPValue>::wire(v.memory_bank));
        <u16 as LLRPValue>::lemma_emit(v.word_ptr, s3);
        let s4 = s3.write_bytes(<u16 as LLRPValue>::wire(v.word_ptr));
        lemma_array_written::<u16>(v.write_data, s4);
        let s5 = s4.write_bytes(array_wire::<u16>(v.write_data));
        lemma_concat_empty(s5.bytes);
        lemma_concat_assoc(
            s4.bytes,
            array_wire::<u16>(v.write_data),
            C1G2BlockWrite::wire_from(v, 5),
        );
        lemma_concat_assoc(
            s3.bytes,
            <u16 as LLRPValue>::wire(v.word_ptr),
            C1G2BlockWrite::wire_from(v, 4),
        );
        lemma_concat_assoc(
            s2.bytes,
            <u8 as LLRPValue>::wire(v.memory_bank),
            C1G2BlockWrite::wire_from(v, 3),
        );
        lemma_concat_assoc(
            s1.bytes,
            <u32 as LLRPValue>::wire(v.access_password),
            C1G2BlockWrite::wire_from(v, 2),
        );
        lemma_concat_assoc(
            s.bytes,
            <u16 as LLRPValue>::wire(v.op_spec_id),
            C1G2BlockWrite::wire_from(v, 1),
        );
    }

    proof fn lemma_parse_body(v: C1G2BlockWriteView) {
        C1G2BlockWrite::lemma_parse_front(v);
        C1G2BlockWrite::lemma_parse_back(v);
        reveal(C1G2BlockWrite::read_fields);
    }

    fn decode_body(decoder: &mut Decoder) -> (r: Result<Self, Error>) {
        proof {
            reveal(C1G2BlockWrite::read_fields);
        }
        let front = Self::decode_front(decoder)?;
        Self::decode_back(front, decoder)
    }

    fn encode_body(&self, encoder: &mut Encoder) {
        proof {
            reveal(C1G2BlockWrite::write_fields);
        }
        encoder.write(&self.op_spec_id);
        encoder.write(&self.access_password);
        encoder.write(&self.memory_bank);
        encoder.write(&self.word_ptr);
        let write_write_data = |e: &mut Encoder, x: &u16|
            ensures
                final(e)@ == <u16 as LLRPValue>::emit(x.deep_view(), old(e)@),
            {
                e.write(x)
            };
        let ghost write_data_writer = write_write_data;
        let ghost write_data_start = encoder@;
        encoder.array(self.write_data.as_slice(), write_write_data);
        proof {
            lemma_array_encoded::<u16, _>(
                write_data_writer,
                write_data_start,
                self.write_data@,
                encoder@,
            );
        }
    }
}

/// Locks blocks of a tag's memory for good.
#[derive(Debug, PartialEq, Eq)]
pub struct C1G2BlockPermalock {
    pub op_spec_id: u16,
    pub access_password: u32,
    pub memory_bank: u8,
    pub block_ptr: u16,
    pub block_mask: Vec<u16>,
}

/// The model of a `C1G2BlockPermalock`.
pub struct C1G2BlockPermalockView {
    pub op_spec_id: u16,
    pub access_password: u32,
    pub memory_bank: u8,
    pub block_ptr: u16,
    pub block_mask: Seq<u16>,
}

impl DeepView for C1G2BlockPermalock {
    type V = C1G2BlockPermalockView;

    open spec fn deep_view(&self) -> C1G2BlockPermalockView {
        C1G2BlockPermalockView {
            op_spec_id: self.op_spec_id,
            access_password: self.access_password,
            memory_bank: self.memory_bank,
            block_ptr: self.block_ptr,
            block_mask: self.block_mask.deep_view(),
        }
    }
}

impl C1G2BlockPermalock {
    /// The bytes of the fields from the `k`-th on.
    #[verifier::opaque]
    pub open spec fn wire_from(v: C1G2BlockPermalockView, k: nat) -> Seq<u8>
        decreases 5 - k,
    {
        if k == 0 {
            <u16 as LLRPValue>::wire(v.op_spec_id) + Self::wire_from(v, 1)
        } else if k == 1 {
            <u32 as LLRPValue>::wire(v.access_password) + Self::wire_from(v, 2)
        } else if k == 2 {
            <u8 as LLRPValue>::wire(v.memory_bank) + Self::wire_from(v, 3)
        } else if k == 3 {
            <u16 as LLRPValue>::wire(v.block_ptr) + Self::wire_from(v, 4)
        } else if k == 4 {
            array_wire::<u16>(v.block_mask) + Self::wire_from(v, 5)
        } else {
            Seq::empty()
        }
    }

    /// The bytes of the fields, one field at a time.
    pub proof fn lemma_wire_from(v: C1G2BlockPermalockView)
        ensures
            Self::wire_from(v, 0) == <u16 as LLRPValue>::wire(v.op_spec_id) + Self::wire_from(v, 1),
            Self::wire_from(v, 1) == <u32 as LLRPValue>::wire(v.access_password)
                + Self::wire_from(v, 2),
            Self::wire_from(v, 2) == <u8 as LLRPValue>::wire(v.memory_bank) + Self::wire_from(v, 3),
            Self::wire_from(v, 3) == <u16 as LLRPValue>::wire(v.block_ptr) + Self::wire_from(v, 4),
            Self::wire_from(v, 4) == array_wire::<u16>(v.block_mask) + Self::wire_from(v, 5),
            Self::wire_from(v, 5) == Seq::<u8>::empty(),
    {
        reveal(C1G2BlockPermalock::wire_from);
    }

    /// Whether the fields fit the format, each before the fields behind it.
    #[verifier::opaque]
    pub open spec fn fits(v: C1G2BlockPermalockView) -> bool {
        &&& array_canonical::<u16>(v.block_mask)
    }

    /// The first fields read in order, or the first error.
    #[verifier::opaque]
    pub open spec fn read_front(s: DecoderState) -> Result<((u16, u32), DecoderState), Error> {
        match <u16 as LLRPValue>::parse(s) {
            Err(e) => Err(e),
            Ok((op_spec_id, s)) => match <u32 as LLRPValue>::parse(s) {
                Err(e) => Err(e),
                Ok((access_password, s)) => Ok(((op_spec_id, access_password), s)),
            },
        }
    }

    /// The other fields read in order behind the first, or the first error.
    #[verifier::opaque]
    pub open spec fn read_back(front: (u16, u32), s: DecoderState) -> Result<
        (C1G2BlockPermalockView, DecoderState),
        Error,
    > {
        match <u8 as LLRPValue>::parse(s) {
            Err(e) => Err(e),
            Ok((memory_bank, s)) => match <u16 as LLRPValue>::parse(s) {
                Err(e) => Err(e),
                Ok((block_ptr, s)) => match parse_array::<u16>(s) {
                    Err(e) => Err(e),
                    Ok((block_mask, s)) => Ok((C1G2BlockPermalockView { op_spec_id: front.0, access_password: front.1, memory_bank, block_ptr, block_mask }, s)),
                },
            },
        }
    }

    /// The fields read in order, or the first error.
    #[verifier::opaque]
    pub open spec fn read_fields(s: DecoderState) -> Result<
        (C1G2BlockPermalockView, DecoderState),
        Error,
    > {
        match Self::read_front(s) {
            Err(e) => Err(e),
            Ok((front, s)) => Self::read_back(front, s),
        }
    }

    /// The state after the fields have been written in order.
    #[verifier::opaque]
    pub open spec fn write_fields(v: C1G2BlockPermalockView, s: EncoderState) -> EncoderState {
        let s = <u16 as LLRPValue>::emit(v.op_spec_id, s);
        let s = <u32 as LLRPValue>::emit(v.access_password, s);
        let s = <u8 as LLRPValue>::emit(v.memory_bank, s);
        let s = <u16 as LLRPValue>::emit(v.block_ptr, s);
        let s = emit_array::<u16>(v.block_mask, s);
        s
    }

    fn decode_front(decoder: &mut Decoder) -> (r: Result<(u16, u32), Error>)
        ensures
            match Self::read_front(old(decoder)@) {
                Ok((front, s)) => {
                    &&& r is Ok
                    &&& r->Ok_0.0 == front.0
                    &&& r->Ok_0.1 == front.1
                    &&& final(decoder)@ == s
                },
                Err(e) => r == Err::<(u16, u32), Error>(e),
            },
    {
        proof {
            reveal(C1G2BlockPermalock::read_front);
        }
        let op_spec_id = decoder.read::<u16>()?;
        let access_password = decoder.read::<u32>()?;
        Ok((op_spec_id, access_password))
    }

    fn decode_back(front: (u16, u32), decoder: &mut Decoder) -> (r: Result<C1G2BlockPermalock, Error>)
        ensures
            decoded::<C1G2BlockPermalock>(
                Self::read_back((front.0, front.1), old(decoder)@),
                r,
                final(decoder)@,
            ),
    {
        proof {
            reveal(C1G2BlockPermalock::read_back);
        }
        let memory_bank = decoder.read::<u8>()?;
        let block_ptr = decoder.read::<u16>()?;
        let read_block_mask = |d: &mut Decoder| -> (r: Result<u16, Error>)
            ensures
                decoded::<u16>(<u16 as LLRPValue>::parse(old(d)@), r, final(d)@),
            {
                d.read::<u16>()
            };
        let ghost block_mask_reader = read_block_mask;
        let ghost block_mask_start = decoder@;
        let block_mask = decoder.array(read_block_mask);
        proof {
            lemma_array_decoded::<u16, _>(
                block_mask_reader,
                block_mask_start,
                block_mask,
                decoder@,
            );
        }
        let block_mask = block_mask?;
        Ok(C1G2BlockPermalock { op_spec_id: front.0, access_password: front.1, memory_bank, block_ptr, block_mask })
    }

    /// The first fields are read back from the bytes of all.
    pub proof fn lemma_parse_front(v: C1G2BlockPermalockView)
        ensures
            Self::fits(v) ==> Self::read_front(DecoderState::start(Self::wire_from(v, 0))) == Ok::<
                ((u16, u32), DecoderState),
                Error,
            >(((v.op_spec_id, v.access_password), DecoderState::start(Self::wire_from(v, 2)))),
    {
        reveal(C1G2BlockPermalock::fits);
        reveal(C1G2BlockPermalock::read_front);
        if Self::fits(v) {
            C1G2BlockPermalock::lemma_wire_from(v);
            assert(<u16 as LLRPValue>::parse(DecoderState::start(Self::wire_from(v, 0))) == Ok::<(u16, DecoderState), Error>((v.op_spec_id, DecoderState::start(Self::wire_from(v, 1))))) by {
                <u16 as LLRPValue>::lemma_parse(v.op_spec_id, Self::wire_from(v, 1));
            }
            assert(<u32 as LLRPValue>::parse(DecoderState::start(Self::wire_from(v, 1))) == Ok::<(u32, DecoderState), Error>((v.access_password, DecoderState::start(Self::wire_from(v, 2))))) by {
                <u32 as LLRPValue>::lemma_parse(v.access_password, Self::wire_from(v, 2));
            }
        }
    }

    /// The other fields are read back from the bytes behind the first.
    pub proof fn lemma_parse_back(v: C1G2BlockPermalockView)
        ensures
            Self::fits(
                v) ==> Self::read_back((v.op_spec_id,
                v.access_password), DecoderState::start(Self::wire_from(v, 2)),
            )
                == Ok::<(
                    C1G2BlockPermalockView,
                    DecoderState), Error>((v,
                    DecoderState::start(Seq::empty())),
                ),
    {
        reveal(C1G2BlockPermalock::fits);
        reveal(C1G2BlockPermalock::read_back);
        if Self::fits(v) {
            C1G2BlockPermalock::lemma_wire_from(v);
            assert(<u8 as LLRPValue>::parse(DecoderState::start(Self::wire_from(v, 2))) == Ok::<(u8, DecoderState), Error>((v.memory_bank, DecoderState::start(Self::wire_from(v, 3))))) by {
                <u8 as LLRPValue>::lemma_parse(v.memory_bank, Self::wire_from(v, 3));
            }
            assert(<u16 as LLRPValue>::parse(DecoderState::start(Self::wire_from(v, 3))) == Ok::<(u16, DecoderState), Error>((v.block_ptr, DecoderState::start(Self::wire_from(v, 4))))) by {
                <u16 as LLRPValue>::lemma_parse(v.block_ptr, Self::wire_from(v, 4));
            }
            assert(parse_array::<u16>(DecoderState::start(Self::wire_from(v, 4))) == Ok::<(Seq<u16>, DecoderState), Error>((v.block_mask, DecoderState::start(Self::wire_from(v, 5))))) by {
                lemma_array_front::<u16>(v.block_mask, Self::wire_from(v, 5));
            }
        }
    }
}

impl TlvParameter for C1G2BlockPermalock {
    const ID: u16 = 358;

    open spec fn parse_body(s: DecoderState) -> Result<
        (C1G2BlockPermalockView, DecoderState),
        Error,
    > {
        Self::read_fields(s)
    }

    open spec fn emit_body(v: C1G2BlockPermalockView, s: EncoderState) -> EncoderState {
        Self::write_fields(v, s)
    }

    open spec fn wire_body(v: C1G2BlockPermalockView) -> Seq<u8> {
        Self::wire_from(v, 0)
    }

    open spec fn canonical_body(v: C1G2BlockPermalockView) -> bool {
        Self::fits(v)
    }

    proof fn lemma_emit_body(v: C1G2BlockPermalockView, s: EncoderState) {
        reveal(C1G2BlockPermalock::write_fields);
        C1G2BlockPermalock::lemma_wire_from(v);
        <u16 as LLRPValue>::lemma_emit(v.op_spec_id, s);
        let s1 = s.write_bytes(<u16 as LLRPValue>::wire(v.op_spec_id));
        <u32 as LLRPValue>::lemma_emit(v.access_password, s1);
        let s2 = s1.write_bytes(<u32 as LLRPValue>::wire(v.access_password));
        <u8 as LLRPValue>::lemma_emit(v.memory_bank, s2);
        let s3 = s2.write_bytes(<u8 as LLRPValue>::wire(v.memory_bank));
        <u16 as LLRPValue>::lemma_emit(v.block_ptr, s3);
        let s4 = s3.write_bytes(<u16 as LLRPValue>::wire(v.block_ptr));
        lemma_array_written::<u16>(v.block_mask, s4);
        let s5 = s4.write_bytes(array_wire::<u16>(v.block_mask));
        lemma_concat_empty(s5.bytes);
        lemma_concat_assoc(
            s4.bytes,
            array_wire::<u16>(v.block_mask),
            C1G2BlockPermalock::wire_from(v, 5),
        );
        lemma_concat_assoc(
            s3.bytes,
            <u16 as LLRPValue>::wire(v.block_ptr),
            C1G2BlockPermalock::wire_from(v, 4),
        );
        lemma_concat_assoc(
            s2.bytes,
            <u8 as LLRPValue>::wire(v.memory_bank),
            C1G2BlockPermalock::wire_from(v, 3),
        );
        lemma_concat_assoc(
            s1.bytes,
            <u32 as LLRPValue>::wire(v.access_password),
            C1G2BlockPermalock::wire_from(v, 2),
        );
        lemma_concat_assoc(
            s.bytes,
            <u16 as LLRPValue>::wire(v.op_spec_id),
            C1G2BlockPermalock::wire_from(v, 1),
        );
    }

    proof fn lemma_parse_body(v: C1G2BlockPermalockView) {
        C1G2BlockPermalock::lemma_parse_front(v);
        C1G2BlockPermalock::lemma_parse_back(v);
        reveal(C1G2BlockPermalock::read_fields);
    }

    fn decode_body(decoder: &mut Decoder) -> (r: Result<Self, Error>) {
        proof {
            reveal(C1G2BlockPermalock::read_fields);
        }
        let front = Self::decode_front(decoder)?;
        Self::decode_back(front, decoder)
    }

    fn encode_body(&self, encoder: &mut Encoder) {
        proof {
            reveal(C1G2BlockPermalock::write_fields);
        }
        encoder.write(&self.op_spec_id);
        encoder.write(&self.access_password);
        encoder.write(&self.memory_bank);
        encoder.write(&self.block_ptr);
        let write_block_mask = |e: &mut Encoder, x: &u16|
            ensures
                final(e)@ == <u16 as LLRPValue>::emit(x.deep_view(), old(e)@),
            {
                e.write(x)
            };
        let ghost block_mask_writer = write_block_mask;
        let ghost block_mask_start = encoder@;
        encoder.array(self.block_mask.as_slice(), write_block_mask);
        proof {
            lemma_array_encoded::<u16, _>(
                block_mask_writer,
                block_mask_start,
                self.block_mask@,
                encoder@,
            );
        }
    }
}

/// Asks which blocks of a tag's memory are locked for good.
#[derive(Debug, PartialEq, Eq)]
pub struct C1G2GetBlockPermalockStatus {
    pub op_spec_id: u16,
    pub access_password: u32,
    pub memory_bank: u8,
    pub block_ptr: u16,
    pub block_range: u16,
}

impl DeepView for C1G2GetBlockPermalockStatus {
    type V = C1G2GetBlockPermalockStatus;

    open spec fn deep_view(&self) -> C1G2GetBlockPermalockStatus {
        *self
    }
}

impl C1G2GetBlockPermalockStatus {
    /// The bytes of the fields from the `k`-th on.
    #[verifier::opaque]
    pub open spec fn wire_from(v: C1G2GetBlockPermalockStatus, k: nat) -> Seq<u8>
        decreases 5 - k,
    {
        if k == 0 {
            <u16 as LLRPValue>::wire(v.op_spec_id) + Self::wire_from(v, 1)
        } else if k == 1 {
            <u32 as LLRPValue>::wire(v.access_password) + Self::wire_from(v, 2)
        } else if k == 2 {
            <u8 as LLRPValue>::wire(v.memory_bank) + Self::wire_from(v, 3)
        } else if k == 3 {
            <u16 as LLRPValue>::wire(v.block_ptr) + Self::wire_from(v, 4)
        } else if k == 4 {
            <u16 as LLRPValue>::wire(v.block_range) + Self::wire_from(v, 5)
        } else {
            Seq::empty()
        }
    }

    /// The bytes of the fields, one field at a time.
    pub proof fn lemma_wire_from(v: C1G2GetBlockPermalockStatus)
        ensures
            Self::wire_from(v, 0) == <u16 as LLRPValue>::wire(v.op_spec_id) + Self::wire_from(v, 1),
            Self::wire_from(v, 1) == <u32 as LLRPValue>::wire(v.access_password)
                + Self::wire_from(v, 2),
            Self::wire_from(v, 2) == <u8 as LLRPValue>::wire(v.memory_bank) + Self::wire_from(v, 3),
            Self::wire_from(v, 3) == <u16 as LLRPValue>::wire(v.block_ptr) + Self::wire_from(v, 4),
            Self::wire_from(v, 4) == <u16 as LLRPValue>::wire(v.block_range)
                + Self::wire_from(v, 5),
            Self::wire_from(v, 5) == Seq::<u8>::empty(),
    {
        reveal(C1G2GetBlockPermalockStatus::wire_from);
    }

    /// Whether the fields fit the format, each before the fields behind it.
    #[verifier::opaque]
    pub open spec fn fits(v: C1G2GetBlockPermalockStatus) -> bool {
        true
    }

    /// The first fields read in order, or the first error.
    #[verifier::opaque]
    pub open spec fn read_front(s: DecoderState) -> Result<((u16, u32), DecoderState), Error> {
        match <u16 as LLRPValue>::parse(s) {
            Err(e) => Err(e),
            Ok((op_spec_id, s)) => match <u32 as LLRPValue>::parse(s) {
                Err(e) => Err(e),
                Ok((access_password, s)) => Ok(((op_spec_id, access_password), s)),
            },
        }
    }

    /// The other fields read in order behind the first, or the first error.
    #[verifier::opaque]
    pub open spec fn read_back(front: (u16, u32), s: DecoderState) -> Result<
        (C1G2GetBlockPermalockStatus, DecoderState),
        Error,
    > {
        match <u8 as LLRPValue>::parse(s) {
            Err(e) => Err(e),
            Ok((memory_bank, s)) => match <u16 as LLRPValue>::parse(s) {
                Err(e) => Err(e),
                Ok((block_ptr, s)) => match <u16 as LLRPValue>::parse(s) {
                    Err(e) => Err(e),
                    Ok((block_range, s)) => Ok((C1G2GetBlockPermalockStatus { op_spec_id: front.0, access_password: front.1, memory_bank, block_ptr, block_range }, s)),
                },
            },
        }
    }

    /// The fields read in order, or the first error.
    #[verifier::opaque]
    pub open spec fn read_fields(s: DecoderState) -> Result<
        (C1G2GetBlockPermalockStatus, DecoderState),
        Error,
    > {
        match Self::read_front(s) {
            Err(e) => Err(e),
            Ok((front, s)) => Self::read_back(front, s),
        }
    }

    /// The state after the fields have been written in order.
    #[verifier::opaque]
    pub open spec fn write_fields(v: C1G2GetBlockPermalockStatus, s: EncoderState) -> EncoderState {
        let s = <u16 as LLRPValue>::emit(v.op_spec_id, s);
        let s = <u32 as LLRPValue>::emit(v.access_password, s);
        let s = <u8 as LLRPValue>::emit(v.memory_bank, s);
        let s = <u16 as LLRPValue>::emit(v.block_ptr, s);
        let s = <u16 as LLRPValue>::emit(v.block_range, s);
        s
    }

    fn decode_front(decoder: &mut Decoder) -> (r: Result<(u16, u32), Error>)
        ensures
            match Self::read_front(old(decoder)@) {
                Ok((front, s)) => {
                    &&& r is Ok
                    &&& r->Ok_0.0 == front.0
                    &&& r->Ok_0.1 == front.1
                    &&& final(decoder)@ == s
                },
                Err(e) => r == Err::<(u16, u32), Error>(e),
            },
    {
        proof {
            reveal(C1G2GetBlockPermalockStatus::read_front);
        }
        let op_spec_id = decoder.read::<u16>()?;
        let access_password = decoder.read::<u32>()?;
        Ok((op_spec_id, access_password))
    }

    fn decode_back(front: (u16, u32), decoder: &mut Decoder) -> (r: Result<C1G2GetBlockPermalockStatus, Error>)
        ensures
            decoded::<C1G2GetBlockPermalockStatus>(
                Self::read_back((front.0, front.1), old(decoder)@),
                r,
                final(decoder)@,
            ),
    {
        proof {
            reveal(C1G2GetBlockPermalockStatus::read_back);
        }
        let memory_bank = decoder.read::<u8>()?;
        let block_ptr = decoder.read::<u16>()?;
        let block_range = decoder.read::<u16>()?;
        Ok(C1G2GetBlockPermalockStatus { op_spec_id: front.0, access_password: front.1, memory_bank, block_ptr, block_range })
    }

    /// The first fields are read back from the bytes of all.
    pub proof fn lemma_parse_front(v: C1G2GetBlockPermalockStatus)
        ensures
            Self::fits(v) ==> Self::read_front(DecoderState::start(Self::wire_from(v, 0))) == Ok::<
                ((u16, u32), DecoderState),
                Error,
            >(((v.op_spec_id, v.access_password), DecoderState::start(Self::wire_from(v, 2)))),
    {
        reveal(C1G2GetBlockPermalockStatus::fits);
        reveal(C1G2GetBlockPermalockStatus::read_front);
        if Self::fits(v) {
            C1G2GetBlockPermalockStatus::lemma_wire_from(v);
            assert(<u16 as LLRPValue>::parse(DecoderState::start(Self::wire_from(v, 0))) == Ok::<(u16, DecoderState), Error>((v.op_spec_id, DecoderState::start(Self::wire_from(v, 1))))) by {
                <u16 as LLRPValue>::lemma_parse(v.op_spec_id, Self::wire_from(v, 1));
            }
            assert(<u32 as LLRPValue>::parse(DecoderState::start(Self::wire_from(v, 1))) == Ok::<(u32, DecoderState), Error>((v.access_password, DecoderState::start(Self::wire_from(v, 2))))) by {
                <u32 as LLRPValue>::lemma_parse(v.access_password, Self::wire_from(v, 2));
            }
        }
    }

    /// The other fields are read back from the bytes behind the first.
    pub proof fn lemma_parse_back(v: C1G2GetBlockPermalockStatus)
        ensures
            Self::fits(
                v) ==> Self::read_back((v.op_spec_id,
                v.access_password), DecoderState::start(Self::wire_from(v, 2)),
            )
                == Ok::<(
                    C1G2GetBlockPermalockStatus,
                    DecoderState), Error>((v,
                    DecoderState::start(Seq::empty())),
                ),
    {
        reveal(C1G2GetBlockPermalockStatus::fits);
        reveal(C1G2GetBlockPermalockStatus::read_back);
        if Self::fits(v) {
            C1G2GetBlockPermalockStatus::lemma_wire_from(v);
            assert(<u8 as LLRPValue>::parse(DecoderState::start(Self::wire_from(v, 2))) == Ok::<(u8, DecoderState), Error>((v.memory_bank, DecoderState::start(Self::wire_from(v, 3))))) by {
                <u8 as LLRPValue>::lemma_parse(v.memory_bank, Self::wire_from(v, 3));
            }
            assert(<u16 as LLRPValue>::parse(DecoderState::start(Self::wire_from(v, 3))) == Ok::<(u16, DecoderState), Error>((v.block_ptr, DecoderState::start(Self::wire_from(v, 4))))) by {
                <u16 as LLRPValue>::lemma_parse(v.block_ptr, Self::wire_from(v, 4));
            }
            assert(<u16 as LLRPValue>::parse(DecoderState::start(Self::wire_from(v, 4))) == Ok::<(u16, DecoderState), Error>((v.block_range, DecoderState::start(Self::wire_from(v, 5))))) by {
                <u16 as LLRPValue>::lemma_parse(v.block_range, Self::wire_from(v, 5));
            }
        }
    }
}

impl TlvParameter for C1G2GetBlockPermalockStatus {
    const ID: u16 = 359;

    open spec fn parse_body(s: DecoderState) -> Result<
        (C1G2GetBlockPermalockStatus, DecoderState),
        Error,
    > {
        Self::read_fields(s)
    }

    open spec fn emit_body(v: C1G2GetBlockPermalockStatus, s: EncoderState) -> EncoderState {
        Self::write_fields(v, s)
    }

    open spec fn wire_body(v: C1G2GetBlockPermalockStatus) -> Seq<u8> {
        Self::wire_from(v, 0)
    }

    open spec fn canonical_body(v: C1G2GetBlockPermalockStatus) -> bool {
        Self::fits(v)
    }

    proof fn lemma_emit_body(v: C1G2GetBlockPermalockStatus, s: EncoderState) {
        reveal(C1G2GetBlockPermalockStatus::write_fields);
        C1G2GetBlockPermalockStatus::lemma_wire_from(v);
        <u16 as LLRPValue>::lemma_emit(v.op_spec_id, s);
        let s1 = s.write_bytes(<u16 as LLRPValue>::wire(v.op_spec_id));
        <u32 as LLRPValue>::lemma_emit(v.access_password, s1);
        let s2 = s1.write_bytes(<u32 as LLRPValue>::wire(v.access_password));
        <u8 as LLRPValue>::lemma_emit(v.memory_bank, s2);
        let s3 = s2.write_bytes(<u8 as LLRPValue>::wire(v.memory_bank));
        <u16 as LLRPValue>::lemma_emit(v.block_ptr, s3);
        let s4 = s3.write_bytes(<u16 as LLRPValue>::wire(v.block_ptr));
        <u16 as LLRPValue>::lemma_emit(v.block_range, s4);
        let s5 = s4.write_bytes(<u16 as LLRPValue>::wire(v.block_range));
        lemma_concat_empty(s5.bytes);
        lemma_concat_assoc(
            s4.bytes,
            <u16 as LLRPValue>::wire(v.block_range),
            C1G2GetBlockPermalockStatus::wire_from(v, 5),
        );
        lemma_concat_assoc(
            s3.bytes,
            <u16 as LLRPValue>::wire(v.block_ptr),
            C1G2GetBlockPermalockStatus::wire_from(v, 4),
        );
        lemma_concat_assoc(
            s2.bytes,
            <u8 as LLRPValue>::wire(v.memory_bank),
            C1G2GetBlockPermalockStatus::wire_from(v, 3),
        );
        lemma_concat_assoc(
            s1.bytes,
            <u32 as LLRPValue>::wire(v.access_password),
            C1G2GetBlockPermalockStatus::wire_from(v, 2),
        );
        lemma_concat_assoc(
            s.bytes,
            <u16 as LLRPValue>::wire(v.op_spec_id),
            C1G2GetBlockPermalockStatus::wire_from(v, 1),
        );
    }

    proof fn lemma_parse_body(v: C1G2GetBlockPermalockStatus) {
        C1G2GetBlockPermalockStatus::lemma_parse_front(v);
        C1G2GetBlockPermalockStatus::lemma_parse_back(v);
        reveal(C1G2GetBlockPermalockStatus::read_fields);
    }

    fn decode_body(decoder: &mut Decoder) -> (r: Result<Self, Error>) {
        proof {
            reveal(C1G2GetBlockPermalockStatus::read_fields);
        }
        let front = Self::decode_front(decoder)?;
        Self::decode_back(front, decoder)
    }

    fn encode_body(&self, encoder: &mut Encoder) {
        proof {
            reveal(C1G2GetBlockPermalockStatus::write_fields);
        }
        encoder.write(&self.op_spec_id);
        encoder.write(&self.access_password);
        encoder.write(&self.memory_bank);
        encoder.write(&self.block_ptr);
        encoder.write(&self.block_range);
    }
}

/// What a Class-1 Generation-2 tag has sent about itself.
#[derive(Debug, Default, PartialEq, Eq)]
pub struct C1G2AirProtocolTagData {
    pub pc_bits: Option<u16>,
    pub xpc_w1: Option<u16>,
    pub xpc_w2: Option<u16>,
    pub crc: Option<u16>,
}

impl DeepView for C1G2AirProtocolTagData {
    type V = C1G2AirProtocolTagData;

    open spec fn deep_view(&self) -> C1G2AirProtocolTagData {
        *self
    }
}

impl C1G2AirProtocolTagData {
    /// The bytes of the fields from the `k`-th on.
    #[verifier::opaque]
    pub open spec fn wire_from(v: C1G2AirProtocolTagData, k: nat) -> Seq<u8>
        decreases 4 - k,
    {
        if k == 0 {
            tv_wire::<u16>(v.pc_bits, 12) + Self::wire_from(v, 1)
        } else if k == 1 {
            tv_wire::<u16>(v.xpc_w1, 19) + Self::wire_from(v, 2)
        } else if k == 2 {
            tv_wire::<u16>(v.xpc_w2, 20) + Self::wire_from(v, 3)
        } else if k == 3 {
            tv_wire::<u16>(v.crc, 11) + Self::wire_from(v, 4)
        } else {
            Seq::empty()
        }
    }

    /// The bytes of the fields, one field at a time.
    pub proof fn lemma_wire_from(v: C1G2AirProtocolTagData)
        ensures
            Self::wire_from(v, 0) == tv_wire::<u16>(v.pc_bits, 12) + Self::wire_from(v, 1),
            Self::wire_from(v, 1) == tv_wire::<u16>(v.xpc_w1, 19) + Self::wire_from(v, 2),
            Self::wire_from(v, 2) == tv_wire::<u16>(v.xpc_w2, 20) + Self::wire_from(v, 3),
            Self::wire_from(v, 3) == tv_wire::<u16>(v.crc, 11) + Self::wire_from(v, 4),
            Self::wire_from(v, 4) == Seq::<u8>::empty(),
    {
        reveal(C1G2AirProtocolTagData::wire_from);
    }

    /// The fields read in order, or the first error.
    #[verifier::opaque]
    pub open spec fn read_fields(s: DecoderState) -> Result<
        (C1G2AirProtocolTagData, DecoderState),
        Error,
    > {
        match <Option<u16> as LLRPValue>::parse_tv(s, 12) {
            Err(e) => Err(e),
            Ok((pc_bits, s)) => match <Option<u16> as LLRPValue>::parse_tv(s, 19) {
                Err(e) => Err(e),
                Ok((xpc_w1, s)) => match <Option<u16> as LLRPValue>::parse_tv(s, 20) {
                    Err(e) => Err(e),
                    Ok((xpc_w2, s)) => match <Option<u16> as LLRPValue>::parse_tv(s, 11) {
                        Err(e) => Err(e),
                        Ok((crc, s)) => Ok((C1G2AirProtocolTagData { pc_bits, xpc_w1, xpc_w2, crc }, s)),
                    },
                },
            },
        }
    }

    /// The state after the fields have been written in order.
    #[verifier::opaque]
    pub open spec fn write_fields(v: C1G2AirProtocolTagData, s: EncoderState) -> EncoderState {
        let s = <Option<u16> as LLRPValue>::emit_tv(v.pc_bits, s, 12);
        let s = <Option<u16> as LLRPValue>::emit_tv(v.xpc_w1, s, 19);
        let s = <Option<u16> as LLRPValue>::emit_tv(v.xpc_w2, s, 20);
        let s = <Option<u16> as LLRPValue>::emit_tv(v.crc, s, 11);
        s
    }
}

/// The fields follow each other without a frame of their own.
impl LLRPValue for C1G2AirProtocolTagData {
    open spec fn accepts(type_num: u16) -> bool {
        false
    }

    open spec fn parse(s: DecoderState) -> Result<(C1G2AirProtocolTagData, DecoderState), Error> {
        Self::read_fields(s)
    }

    open spec fn parse_tv(s: DecoderState, tv_id: u8) -> Result<
        (C1G2AirProtocolTagData, DecoderState),
        Error,
    > {
        behind_tv(s, tv_id, |s1: DecoderState| Self::parse(s1))
    }

    open spec fn emit(v: C1G2AirProtocolTagData, s: EncoderState) -> EncoderState {
        Self::write_fields(v, s)
    }

    open spec fn emit_tv(v: C1G2AirProtocolTagData, s: EncoderState, tv_id: u8) -> EncoderState {
        Self::emit(v, s.write_param_type(ParameterType::Tv(tv_id)))
    }

    open spec fn wire(v: C1G2AirProtocolTagData) -> Seq<u8> {
        Self::wire_from(v, 0)
    }

    open spec fn canonical(v: C1G2AirProtocolTagData) -> bool {
        true
    }

    open spec fn follow_ok(v: C1G2AirProtocolTagData, next: Seq<u8>) -> bool {
        &&& tv_follow_ok(v.pc_bits is Some, 12, Self::wire_from(v, 1) + next)
        &&& tv_follow_ok(v.xpc_w1 is Some, 19, Self::wire_from(v, 2) + next)
        &&& tv_follow_ok(v.xpc_w2 is Some, 20, Self::wire_from(v, 3) + next)
        &&& tv_follow_ok(v.crc is Some, 11, Self::wire_from(v, 4) + next)
    }

    proof fn lemma_emit(v: C1G2AirProtocolTagData, s: EncoderState) {
        reveal(C1G2AirProtocolTagData::write_fields);
        C1G2AirProtocolTagData::lemma_wire_from(v);
        lemma_tv_written_u16(v.pc_bits, 12, s);
        let s1 = s.write_bytes(tv_wire::<u16>(v.pc_bits, 12));
        lemma_tv_written_u16(v.xpc_w1, 19, s1);
        let s2 = s1.write_bytes(tv_wire::<u16>(v.xpc_w1, 19));
        lemma_tv_written_u16(v.xpc_w2, 20, s2);
        let s3 = s2.write_bytes(tv_wire::<u16>(v.xpc_w2, 20));
        lemma_tv_written_u16(v.crc, 11, s3);
        let s4 = s3.write_bytes(tv_wire::<u16>(v.crc, 11));
        lemma_concat_empty(s4.bytes);
        lemma_concat_assoc(
            s3.bytes,
            tv_wire::<u16>(v.crc, 11),
            C1G2AirProtocolTagData::wire_from(v, 4),
        );
        lemma_concat_assoc(
            s2.bytes,
            tv_wire::<u16>(v.xpc_w2, 20),
            C1G2AirProtocolTagData::wire_from(v, 3),
        );
        lemma_concat_assoc(
            s1.bytes,
            tv_wire::<u16>(v.xpc_w1, 19),
            C1G2AirProtocolTagData::wire_from(v, 2),
        );
        lemma_concat_assoc(
            s.bytes,
            tv_wire::<u16>(v.pc_bits, 12),
            C1G2AirProtocolTagData::wire_from(v, 1),
        );
    }

    proof fn lemma_parse(v: C1G2AirProtocolTagData, next: Seq<u8>) {
        reveal(C1G2AirProtocolTagData::read_fields);
        if Self::canonical(v) && Self::follow_ok(v, next) {
            C1G2AirProtocolTagData::lemma_wire_from(v);
            lemma_concat_assoc(tv_wire::<u16>(v.pc_bits, 12), Self::wire_from(v, 1), next);
            lemma_concat_assoc(tv_wire::<u16>(v.xpc_w1, 19), Self::wire_from(v, 2), next);
            lemma_concat_assoc(tv_wire::<u16>(v.xpc_w2, 20), Self::wire_from(v, 3), next);
            lemma_concat_assoc(tv_wire::<u16>(v.crc, 11), Self::wire_from(v, 4), next);
            lemma_concat_front(next);
            assert(<Option<u16> as LLRPValue>::parse_tv(DecoderState::start(Self::wire_from(v, 0) + next), 12) == Ok::<(Option<u16>, DecoderState), Error>((v.pc_bits, DecoderState::start(Self::wire_from(v, 1) + next)))) by {
                lemma_tv_front_u16(v.pc_bits, 12, Self::wire_from(v, 1) + next);
            }
            assert(<Option<u16> as LLRPValue>::parse_tv(DecoderState::start(Self::wire_from(v, 1) + next), 19) == Ok::<(Option<u16>, DecoderState), Error>((v.xpc_w1, DecoderState::start(Self::wire_from(v, 2) + next)))) by {
                lemma_tv_front_u16(v.xpc_w1, 19, Self::wire_from(v, 2) + next);
            }
            assert(<Option<u16> as LLRPValue>::parse_tv(DecoderState::start(Self::wire_from(v, 2) + next), 20) == Ok::<(Option<u16>, DecoderState), Error>((v.xpc_w2, DecoderState::start(Self::wire_from(v, 3) + next)))) by {
                lemma_tv_front_u16(v.xpc_w2, 20, Self::wire_from(v, 3) + next);
            }
            assert(<Option<u16> as LLRPValue>::parse_tv(DecoderState::start(Self::wire_from(v, 3) + next), 11) == Ok::<(Option<u16>, DecoderState), Error>((v.crc, DecoderState::start(Self::wire_from(v, 4) + next)))) by {
                lemma_tv_front_u16(v.crc, 11, Self::wire_from(v, 4) + next);
            }
        }
    }

    open spec fn atomic() -> bool {
        false
    }

    proof fn lemma_progress(s: DecoderState) {
    }

    fn can_decode_type(type_num: u16) -> (b: bool) {
        false
    }

    fn decode(decoder: &mut Decoder) -> (r: Result<Self, Error>) {
        proof {
            reveal(C1G2AirProtocolTagData::read_fields);
        }
        let pc_bits = decoder.read_tv::<Option<u16>>(12)?;
        let xpc_w1 = decoder.read_tv::<Option<u16>>(19)?;
        let xpc_w2 = decoder.read_tv::<Option<u16>>(20)?;
        let crc = decoder.read_tv::<Option<u16>>(11)?;
        Ok(C1G2AirProtocolTagData { pc_bits, xpc_w1, xpc_w2, crc })
    }

    fn decode_tv(decoder: &mut Decoder, tv_id: u8) -> (r: Result<Self, Error>) {
        decoder.check_tv_type(tv_id)?;
        Self::decode(decoder)
    }

    fn encode(&self, encoder: &mut Encoder) {
        proof {
            reveal(C1G2AirProtocolTagData::write_fields);
        }
        encoder.write_tv(&self.pc_bits, 12);
        encoder.write_tv(&self.xpc_w1, 19);
        encoder.write_tv(&self.xpc_w2, 20);
        encoder.write_tv(&self.crc, 11);
    }

    fn encode_tv(&self, encoder: &mut Encoder, tv_id: u8) {
        encoder.write_param_type(ParameterType::Tv(tv_id));
        self.encode(encoder);
    }
}

/// The outcome of one operation on a tag.
#[derive(Debug, PartialEq, Eq)]
pub enum OpSpecResult {
    C1G2Read(C1G2ReadOpSpecResult),
    C1G2Write(C1G2WriteOpSpecResult),
    C1G2Kill(C1G2KillOpSpecResult),
    C1G2Recommission(C1G2RecommissionOpSpecResult),
    C1G2Lock(C1G2LockOpSpecResult),
    C1G2BlockErase(C1G2BlockEraseOpSpecResult),
    C1G2BlockWrite(C1G2BlockWriteOpSpecResult),
    C1G2BlockPermalock(C1G2BlockPermalockOpSpecResult),
    C1G2GetBlockPermalockStatus(C1G2GetBlockPermalockStatusOpSpecResult),
}

/// The model of a `OpSpecResult`.
pub enum OpSpecResultView {
    C1G2Read(C1G2ReadOpSpecResultView),
    C1G2Write(C1G2WriteOpSpecResult),
    C1G2Kill(C1G2KillOpSpecResult),
    C1G2Recommission(C1G2RecommissionOpSpecResult),
    C1G2Lock(C1G2LockOpSpecResult),
    C1G2BlockErase(C1G2BlockEraseOpSpecResult),
    C1G2BlockWrite(C1G2BlockWriteOpSpecResult),
    C1G2BlockPermalock(C1G2BlockPermalockOpSpecResult),
    C1G2GetBlockPermalockStatus(C1G2GetBlockPermalockStatusOpSpecResultView),
}

impl DeepView for OpSpecResult {
    type V = OpSpecResultView;

    open spec fn deep_view(&self) -> OpSpecResultView {
        match self {
            OpSpecResult::C1G2Read(x) => OpSpecResultView::C1G2Read(x.deep_view()),
            OpSpecResult::C1G2Write(x) => OpSpecResultView::C1G2Write(x.deep_view()),
            OpSpecResult::C1G2Kill(x) => OpSpecResultView::C1G2Kill(x.deep_view()),
            OpSpecResult::C1G2Recommission(x) => OpSpecResultView::C1G2Recommission(x.deep_view()),
            OpSpecResult::C1G2Lock(x) => OpSpecResultView::C1G2Lock(x.deep_view()),
            OpSpecResult::C1G2BlockErase(x) => OpSpecResultView::C1G2BlockErase(x.deep_view()),
            OpSpecResult::C1G2BlockWrite(x) => OpSpecResultView::C1G2BlockWrite(x.deep_view()),
            OpSpecResult::C1G2BlockPermalock(
                x) => OpSpecResultView::C1G2BlockPermalock(x.deep_view(),
            ),
            OpSpecResult::C1G2GetBlockPermalockStatus(
                x) => OpSpecResultView::C1G2GetBlockPermalockStatus(x.deep_view(),
            ),
        }
    }
}

/// The next header says which case follows.
impl LLRPValue for OpSpecResult {
    open spec fn accepts(type_num: u16) -> bool {
        type_num == C1G2ReadOpSpecResult::ID
            || type_num == C1G2WriteOpSpecResult::ID
            || type_num == C1G2KillOpSpecResult::ID
            || type_num == C1G2RecommissionOpSpecResult::ID
            || type_num == C1G2LockOpSpecResult::ID
            || type_num == C1G2BlockEraseOpSpecResult::ID
            || type_num == C1G2BlockWriteOpSpecResult::ID
            || type_num == C1G2BlockPermalockOpSpecResult::ID
            || type_num == C1G2GetBlockPermalockStatusOpSpecResult::ID
    }

    open spec fn parse(s: DecoderState) -> Result<(OpSpecResultView, DecoderState), Error> {
        match s.peek() {
            Err(e) => Err(e),
            Ok(ty) => if ty.number() == C1G2ReadOpSpecResult::ID {
                match <C1G2ReadOpSpecResult as LLRPValue>::parse(s) {
                    Err(e) => Err(e),
                    Ok((x, s1)) => Ok((OpSpecResultView::C1G2Read(x), s1)),
                }
            } else if ty.number() == C1G2WriteOpSpecResult::ID {
                match <C1G2WriteOpSpecResult as LLRPValue>::parse(s) {
                    Err(e) => Err(e),
                    Ok((x, s1)) => Ok((OpSpecResultView::C1G2Write(x), s1)),
                }
            } else if ty.number() == C1G2KillOpSpecResult::ID {
                match <C1G2KillOpSpecResult as LLRPValue>::parse(s) {
                    Err(e) => Err(e),
                    Ok((x, s1)) => Ok((OpSpecResultView::C1G2Kill(x), s1)),
                }
            } else if ty.number() == C1G2RecommissionOpSpecResult::ID {
                match <C1G2RecommissionOpSpecResult as LLRPValue>::parse(s) {
                    Err(e) => Err(e),
                    Ok((x, s1)) => Ok((OpSpecResultView::C1G2Recommission(x), s1)),
                }
            } else if ty.number() == C1G2LockOpSpecResult::ID {
                match <C1G2LockOpSpecResult as LLRPValue>::parse(s) {
                    Err(e) => Err(e),
                    Ok((x, s1)) => Ok((OpSpecResultView::C1G2Lock(x), s1)),
                }
            } else if ty.number() == C1G2BlockEraseOpSpecResult::ID {
                match <C1G2BlockEraseOpSpecResult as LLRPValue>::parse(s) {
                    Err(e) => Err(e),
                    Ok((x, s1)) => Ok((OpSpecResultView::C1G2BlockErase(x), s1)),
                }
            } else if ty.number() == C1G2BlockWriteOpSpecResult::ID {
                match <C1G2BlockWriteOpSpecResult as LLRPValue>::parse(s) {
                    Err(e) => Err(e),
                    Ok((x, s1)) => Ok((OpSpecResultView::C1G2BlockWrite(x), s1)),
                }
            } else if ty.number() == C1G2BlockPermalockOpSpecResult::ID {
                match <C1G2BlockPermalockOpSpecResult as LLRPValue>::parse(s) {
                    Err(e) => Err(e),
                    Ok((x, s1)) => Ok((OpSpecResultView::C1G2BlockPermalock(x), s1)),
                }
            } else if ty.number() == C1G2GetBlockPermalockStatusOpSpecResult::ID {
                match <C1G2GetBlockPermalockStatusOpSpecResult as LLRPValue>::parse(s) {
                    Err(e) => Err(e),
                    Ok((x, s1)) => Ok((OpSpecResultView::C1G2GetBlockPermalockStatus(x), s1)),
                }
            } else {
                Err(Error::InvalidType(ty.number()))
            },
        }
    }

    open spec fn parse_tv(s: DecoderState, tv_id: u8) -> Result<
        (OpSpecResultView, DecoderState),
        Error,
    > {
        behind_tv(s, tv_id, |s1: DecoderState| Self::parse(s1))
    }

    open spec fn emit(v: OpSpecResultView, s: EncoderState) -> EncoderState {
        match v {
            OpSpecResultView::C1G2Read(x) => <C1G2ReadOpSpecResult as LLRPValue>::emit(x, s),
            OpSpecResultView::C1G2Write(x) => <C1G2WriteOpSpecResult as LLRPValue>::emit(x, s),
            OpSpecResultView::C1G2Kill(x) => <C1G2KillOpSpecResult as LLRPValue>::emit(x, s),
            OpSpecResultView::C1G2Recommission(
                x) => <C1G2RecommissionOpSpecResult as LLRPValue>::emit(x, s,
            ),
            OpSpecResultView::C1G2Lock(x) => <C1G2LockOpSpecResult as LLRPValue>::emit(x, s),
            OpSpecResultView::C1G2BlockErase(
                x) => <C1G2BlockEraseOpSpecResult as LLRPValue>::emit(x, s,
            ),
            OpSpecResultView::C1G2BlockWrite(
                x) => <C1G2BlockWriteOpSpecResult as LLRPValue>::emit(x, s,
            ),
            OpSpecResultView::C1G2BlockPermalock(
                x) => <C1G2BlockPermalockOpSpecResult as LLRPValue>::emit(x, s,
            ),
            OpSpecResultView::C1G2GetBlockPermalockStatus(
                x) => <C1G2GetBlockPermalockStatusOpSpecResult as LLRPValue>::emit(x, s,
            ),
        }
    }

    open spec fn emit_tv(v: OpSpecResultView, s: EncoderState, tv_id: u8) -> EncoderState {
        Self::emit(v, s.write_param_type(ParameterType::Tv(tv_id)))
    }

    open spec fn wire(v: OpSpecResultView) -> Seq<u8> {
        match v {
            OpSpecResultView::C1G2Read(x) => <C1G2ReadOpSpecResult as LLRPValue>::wire(x),
            OpSpecResultView::C1G2Write(x) => <C1G2WriteOpSpecResult as LLRPValue>::wire(x),
            OpSpecResultView::C1G2Kill(x) => <C1G2KillOpSpecResult as LLRPValue>::wire(x),
            OpSpecResultView::C1G2Recommission(
                x) => <C1G2RecommissionOpSpecResult as LLRPValue>::wire(x,
            ),
            OpSpecResultView::C1G2Lock(x) => <C1G2LockOpSpecResult as LLRPValue>::wire(x),
            OpSpecResultView::C1G2BlockErase(
                x) => <C1G2BlockEraseOpSpecResult as LLRPValue>::wire(x,
            ),
            OpSpecResultView::C1G2BlockWrite(
                x) => <C1G2BlockWriteOpSpecResult as LLRPValue>::wire(x,
            ),
            OpSpecResultView::C1G2BlockPermalock(
                x) => <C1G2BlockPermalockOpSpecResult as LLRPValue>::wire(x,
            ),
            OpSpecResultView::C1G2GetBlockPermalockStatus(
                x) => <C1G2GetBlockPermalockStatusOpSpecResult as LLRPValue>::wire(x,
            ),
        }
    }

    open spec fn canonical(v: OpSpecResultView) -> bool {
        match v {
            OpSpecResultView::C1G2Read(x) => <C1G2ReadOpSpecResult as LLRPValue>::canonical(x),
            OpSpecResultView::C1G2Write(x) => <C1G2WriteOpSpecResult as LLRPValue>::canonical(x),
            OpSpecResultView::C1G2Kill(x) => <C1G2KillOpSpecResult as LLRPValue>::canonical(x),
            OpSpecResultView::C1G2Recommission(
                x) => <C1G2RecommissionOpSpecResult as LLRPValue>::canonical(x,
            ),
            OpSpecResultView::C1G2Lock(x) => <C1G2LockOpSpecResult as LLRPValue>::canonical(x),
            OpSpecResultView::C1G2BlockErase(
                x) => <C1G2BlockEraseOpSpecResult as LLRPValue>::canonical(x,
            ),
            OpSpecResultView::C1G2BlockWrite(
                x) => <C1G2BlockWriteOpSpecResult as LLRPValue>::canonical(x,
            ),
            OpSpecResultView::C1G2BlockPermalock(
                x) => <C1G2BlockPermalockOpSpecResult as LLRPValue>::canonical(x,
            ),
            OpSpecResultView::C1G2GetBlockPermalockStatus(
                x) => <C1G2GetBlockPermalockStatusOpSpecResult as LLRPValue>::canonical(x,
            ),
        }
    }

    open spec fn follow_ok(v: OpSpecResultView, next: Seq<u8>) -> bool {
        true
    }

    proof fn lemma_emit(v: OpSpecResultView, s: EncoderState) {
        match v {
            OpSpecResultView::C1G2Read(x) => {
                <C1G2ReadOpSpecResult as LLRPValue>::lemma_emit(x, s);
            },
            OpSpecResultView::C1G2Write(x) => {
                <C1G2WriteOpSpecResult as LLRPValue>::lemma_emit(x, s);
            },
            OpSpecResultView::C1G2Kill(x) => {
                <C1G2KillOpSpecResult as LLRPValue>::lemma_emit(x, s);
            },
            OpSpecResultView::C1G2Recommission(x) => {
                <C1G2RecommissionOpSpecResult as LLRPValue>::lemma_emit(x, s);
            },
            OpSpecResultView::C1G2Lock(x) => {
                <C1G2LockOpSpecResult as LLRPValue>::lemma_emit(x, s);
            },
            OpSpecResultView::C1G2BlockErase(x) => {
                <C1G2BlockEraseOpSpecResult as LLRPValue>::lemma_emit(x, s);
            },
            OpSpecResultView::C1G2BlockWrite(x) => {
                <C1G2BlockWriteOpSpecResult as LLRPValue>::lemma_emit(x, s);
            },
            OpSpecResultView::C1G2BlockPermalock(x) => {
                <C1G2BlockPermalockOpSpecResult as LLRPValue>::lemma_emit(x, s);
            },
            OpSpecResultView::C1G2GetBlockPermalockStatus(x) => {
                <C1G2GetBlockPermalockStatusOpSpecResult as LLRPValue>::lemma_emit(x, s);
            },
        }
    }

    proof fn lemma_parse(v: OpSpecResultView, next: Seq<u8>) {
        if Self::canonical(v) {
            match v {
                OpSpecResultView::C1G2Read(x) => {
                    lemma_tlv_front(
                        C1G2ReadOpSpecResult::ID,
                        <C1G2ReadOpSpecResult as TlvParameter>::wire_body(x),
                        next,
                    );
                    <C1G2ReadOpSpecResult as LLRPValue>::lemma_parse(x, next);
                },
                OpSpecResultView::C1G2Write(x) => {
                    lemma_tlv_front(
                        C1G2WriteOpSpecResult::ID,
                        <C1G2WriteOpSpecResult as TlvParameter>::wire_body(x),
                        next,
                    );
                    <C1G2WriteOpSpecResult as LLRPValue>::lemma_parse(x, next);
                },
                OpSpecResultView::C1G2Kill(x) => {
                    lemma_tlv_front(
                        C1G2KillOpSpecResult::ID,
                        <C1G2KillOpSpecResult as TlvParameter>::wire_body(x),
                        next,
                    );
                    <C1G2KillOpSpecResult as LLRPValue>::lemma_parse(x, next);
                },
                OpSpecResultView::C1G2Recommission(x) => {
                    lemma_tlv_front(
                        C1G2RecommissionOpSpecResult::ID,
                        <C1G2RecommissionOpSpecResult as TlvParameter>::wire_body(x),
                        next,
                    );
                    <C1G2RecommissionOpSpecResult as LLRPValue>::lemma_parse(x, next);
                },
                OpSpecResultView::C1G2Lock(x) => {
                    lemma_tlv_front(
                        C1G2LockOpSpecResult::ID,
                        <C1G2LockOpSpecResult as TlvParameter>::wire_body(x),
                        next,
                    );
                    <C1G2LockOpSpecResult as LLRPValue>::lemma_parse(x, next);
                },
                OpSpecResultView::C1G2BlockErase(x) => {
                    lemma_tlv_front(
                        C1G2BlockEraseOpSpecResult::ID,
                        <C1G2BlockEraseOpSpecResult as TlvParameter>::wire_body(x),
                        next,
                    );
                    <C1G2BlockEraseOpSpecResult as LLRPValue>::lemma_parse(x, next);
                },
                OpSpecResultView::C1G2BlockWrite(x) => {
                    lemma_tlv_front(
                        C1G2BlockWriteOpSpecResult::ID,
                        <C1G2BlockWriteOpSpecResult as TlvParameter>::wire_body(x),
                        next,
                    );
                    <C1G2BlockWriteOpSpecResult as LLRPValue>::lemma_parse(x, next);
                },
                OpSpecResultView::C1G2BlockPermalock(x) => {
                    lemma_tlv_front(
                        C1G2BlockPermalockOpSpecResult::ID,
                        <C1G2BlockPermalockOpSpecResult as TlvParameter>::wire_body(x),
                        next,
                    );
                    <C1G2BlockPermalockOpSpecResult as LLRPValue>::lemma_parse(x, next);
                },
                OpSpecResultView::C1G2GetBlockPermalockStatus(x) => {
                    lemma_tlv_front(
                        C1G2GetBlockPermalockStatusOpSpecResult::ID,
                        <C1G2GetBlockPermalockStatusOpSpecResult as TlvParameter>::wire_body(x),
                        next,
                    );
                    <C1G2GetBlockPermalockStatusOpSpecResult as LLRPValue>::lemma_parse(x, next);
                },
            }
        }
    }

    open spec fn atomic() -> bool {
        true
    }

    proof fn lemma_progress(s: DecoderState) {
        let n = s.peek()->Ok_0.number();
        if n == C1G2ReadOpSpecResult::ID {
            <C1G2ReadOpSpecResult as LLRPValue>::lemma_progress(s);
        } else if n == C1G2WriteOpSpecResult::ID {
            <C1G2WriteOpSpecResult as LLRPValue>::lemma_progress(s);
        } else if n == C1G2KillOpSpecResult::ID {
            <C1G2KillOpSpecResult as LLRPValue>::lemma_progress(s);
        } else if n == C1G2RecommissionOpSpecResult::ID {
            <C1G2RecommissionOpSpecResult as LLRPValue>::lemma_progress(s);
        } else if n == C1G2LockOpSpecResult::ID {
            <C1G2LockOpSpecResult as LLRPValue>::lemma_progress(s);
        } else if n == C1G2BlockEraseOpSpecResult::ID {
            <C1G2BlockEraseOpSpecResult as LLRPValue>::lemma_progress(s);
        } else if n == C1G2BlockWriteOpSpecResult::ID {
            <C1G2BlockWriteOpSpecResult as LLRPValue>::lemma_progress(s);
        } else if n == C1G2BlockPermalockOpSpecResult::ID {
            <C1G2BlockPermalockOpSpecResult as LLRPValue>::lemma_progress(s);
        } else if n == C1G2GetBlockPermalockStatusOpSpecResult::ID {
            <C1G2GetBlockPermalockStatusOpSpecResult as LLRPValue>::lemma_progress(s);
        }
    }

    fn can_decode_type(type_num: u16) -> (b: bool) {
        type_num == C1G2ReadOpSpecResult::ID
            || type_num == C1G2WriteOpSpecResult::ID
            || type_num == C1G2KillOpSpecResult::ID
            || type_num == C1G2RecommissionOpSpecResult::ID
            || type_num == C1G2LockOpSpecResult::ID
            || type_num == C1G2BlockEraseOpSpecResult::ID
            || type_num == C1G2BlockWriteOpSpecResult::ID
            || type_num == C1G2BlockPermalockOpSpecResult::ID
            || type_num == C1G2GetBlockPermalockStatusOpSpecResult::ID
    }

    fn decode(decoder: &mut Decoder) -> (r: Result<Self, Error>) {
        let type_num = decoder.get_message_type()?;
        if type_num == C1G2ReadOpSpecResult::ID {
            let x = decoder.read::<C1G2ReadOpSpecResult>()?;
            Ok(OpSpecResult::C1G2Read(x))
        } else if type_num == C1G2WriteOpSpecResult::ID {
            let x = decoder.read::<C1G2WriteOpSpecResult>()?;
            Ok(OpSpecResult::C1G2Write(x))
        } else if type_num == C1G2KillOpSpecResult::ID {
            let x = decoder.read::<C1G2KillOpSpecResult>()?;
            Ok(OpSpecResult::C1G2Kill(x))
        } else if type_num == C1G2RecommissionOpSpecResult::ID {
            let x = decoder.read::<C1G2RecommissionOpSpecResult>()?;
            Ok(OpSpecResult::C1G2Recommission(x))
        } else if type_num == C1G2LockOpSpecResult::ID {
            let x = decoder.read::<C1G2LockOpSpecResult>()?;
            Ok(OpSpecResult::C1G2Lock(x))
        } else if type_num == C1G2BlockEraseOpSpecResult::ID {
            let x = decoder.read::<C1G2BlockEraseOpSpecResult>()?;
            Ok(OpSpecResult::C1G2BlockErase(x))
        } else if type_num == C1G2BlockWriteOpSpecResult::ID {
            let x = decoder.read::<C1G2BlockWriteOpSpecResult>()?;
            Ok(OpSpecResult::C1G2BlockWrite(x))
        } else if type_num == C1G2BlockPermalockOpSpecResult::ID {
            let x = decoder.read::<C1G2BlockPermalockOpSpecResult>()?;
            Ok(OpSpecResult::C1G2BlockPermalock(x))
        } else if type_num == C1G2GetBlockPermalockStatusOpSpecResult::ID {
            let x = decoder.read::<C1G2GetBlockPermalockStatusOpSpecResult>()?;
            Ok(OpSpecResult::C1G2GetBlockPermalockStatus(x))
        } else {
            Err(Error::InvalidType(type_num))
        }
    }

    fn decode_tv(decoder: &mut Decoder, tv_id: u8) -> (r: Result<Self, Error>) {
        decoder.check_tv_type(tv_id)?;
        Self::decode(decoder)
    }

    fn encode(&self, encoder: &mut Encoder) {
        match self {
            OpSpecResult::C1G2Read(x) => x.encode(encoder),
            OpSpecResult::C1G2Write(x) => x.encode(encoder),
            OpSpecResult::C1G2Kill(x) => x.encode(encoder),
            OpSpecResult::C1G2Recommission(x) => x.encode(encoder),
            OpSpecResult::C1G2Lock(x) => x.encode(encoder),
            OpSpecResult::C1G2BlockErase(x) => x.encode(encoder),
            OpSpecResult::C1G2BlockWrite(x) => x.encode(encoder),
            OpSpecResult::C1G2BlockPermalock(x) => x.encode(encoder),
            OpSpecResult::C1G2GetBlockPermalockStatus(x) => x.encode(encoder),
        }
    }

    fn encode_tv(&self, encoder: &mut Encoder, tv_id: u8) {
        encoder.write_param_type(ParameterType::Tv(tv_id));
        self.encode(encoder);
    }
}

impl From<C1G2ReadOpSpecResult> for OpSpecResult {
    fn from(value: C1G2ReadOpSpecResult) -> (r: OpSpecResult) {
        OpSpecResult::C1G2Read(value)
    }
}

impl FromSpecImpl<C1G2ReadOpSpecResult> for OpSpecResult {
    open spec fn obeys_from_spec() -> bool {
        true
    }

    open spec fn from_spec(value: C1G2ReadOpSpecResult) -> OpSpecResult {
        OpSpecResult::C1G2Read(value)
    }
}

impl From<C1G2WriteOpSpecResult> for OpSpecResult {
    fn from(value: C1G2WriteOpSpecResult) -> (r: OpSpecResult) {
        OpSpecResult::C1G2Write(value)
    }
}

impl FromSpecImpl<C1G2WriteOpSpecResult> for OpSpecResult {
    open spec fn obeys_from_spec() -> bool {
        true
    }

    open spec fn from_spec(value: C1G2WriteOpSpecResult) -> OpSpecResult {
        OpSpecResult::C1G2Write(value)
    }
}

impl From<C1G2KillOpSpecResult> for OpSpecResult {
    fn from(value: C1G2KillOpSpecResult) -> (r: OpSpecResult) {
        OpSpecResult::C1G2Kill(value)
    }
}

impl FromSpecImpl<C1G2KillOpSpecResult> for OpSpecResult {
    open spec fn obeys_from_spec() -> bool {
        true
    }

    open spec fn from_spec(value: C1G2KillOpSpecResult) -> OpSpecResult {
        OpSpecResult::C1G2Kill(value)
    }
}

impl From<C1G2RecommissionOpSpecResult> for OpSpecResult {
    fn from(value: C1G2RecommissionOpSpecResult) -> (r: OpSpecResult) {
        OpSpecResult::C1G2Recommission(value)
    }
}

impl FromSpecImpl<C1G2RecommissionOpSpecResult> for OpSpecResult {
    open spec fn obeys_from_spec() -> bool {
        true
    }

    open spec fn from_spec(value: C1G2RecommissionOpSpecResult) -> OpSpecResult {
        OpSpecResult::C1G2Recommission(value)
    }
}

impl From<C1G2LockOpSpecResult> for OpSpecResult {
    fn from(value: C1G2LockOpSpecResult) -> (r: OpSpecResult) {
        OpSpecResult::C1G2Lock(value)
    }
}

impl FromSpecImpl<C1G2LockOpSpecResult> for OpSpecResult {
    open spec fn obeys_from_spec() -> bool {
        true
    }

    open spec fn from_spec(value: C1G2LockOpSpecResult) -> OpSpecResult {
        OpSpecResult::C1G2Lock(value)
    }
}

impl From<C1G2BlockEraseOpSpecResult> for OpSpecResult {
    fn from(value: C1G2BlockEraseOpSpecResult) -> (r: OpSpecResult) {
        OpSpecResult::C1G2BlockErase(value)
    }
}

impl FromSpecImpl<C1G2BlockEraseOpSpecResult> for OpSpecResult {
    open spec fn obeys_from_spec() -> bool {
        true
    }

    open spec fn from_spec(value: C1G2BlockEraseOpSpecResult) -> OpSpecResult {
        OpSpecResult::C1G2BlockErase(value)
    }
}

impl From<C1G2BlockWriteOpSpecResult> for OpSpecResult {
    fn from(value: C1G2BlockWriteOpSpecResult) -> (r: OpSpecResult) {
        OpSpecResult::C1G2BlockWrite(value)
    }
}

impl FromSpecImpl<C1G2BlockWriteOpSpecResult> for OpSpecResult {
    open spec fn obeys_from_spec() -> bool {
        true
    }

    open spec fn from_spec(value: C1G2BlockWriteOpSpecResult) -> OpSpecResult {
        OpSpecResult::C1G2BlockWrite(value)
    }
}

impl From<C1G2BlockPermalockOpSpecResult> for OpSpecResult {
    fn from(value: C1G2BlockPermalockOpSpecResult) -> (r: OpSpecResult) {
        OpSpecResult::C1G2BlockPermalock(value)
    }
}

impl FromSpecImpl<C1G2BlockPermalockOpSpecResult> for OpSpecResult {
    open spec fn obeys_from_spec() -> bool {
        true
    }

    open spec fn from_spec(value: C1G2BlockPermalockOpSpecResult) -> OpSpecResult {
        OpSpecResult::C1G2BlockPermalock(value)
    }
}

impl From<C1G2GetBlockPermalockStatusOpSpecResult> for OpSpecResult {
    fn from(value: C1G2GetBlockPermalockStatusOpSpecResult) -> (r: OpSpecResult) {
        OpSpecResult::C1G2GetBlockPermalockStatus(value)
    }
}

impl FromSpecImpl<C1G2GetBlockPermalockStatusOpSpecResult> for OpSpecResult {
    open spec fn obeys_from_spec() -> bool {
        true
    }

    open spec fn from_spec(value: C1G2GetBlockPermalockStatusOpSpecResult) -> OpSpecResult {
        OpSpecResult::C1G2GetBlockPermalockStatus(value)
    }
}

/// One operation on a tag.
#[derive(Debug, PartialEq, Eq)]
pub enum OpSpec {
    C1G2Read(C1G2Read),
    C1G2Write(C1G2Write),
    C1G2Kill(C1G2Kill),
    C1G2Recommission(C1G2Recommission),
    C1G2Lock(C1G2Lock),
    C1G2BlockErase(C1G2BlockErase),
    C1G2BlockWrite(C1G2BlockWrite),
    C1G2BlockPermalock(C1G2BlockPermalock),
    C1G2GetBlockPermalockStatus(C1G2GetBlockPermalockStatus),
}

/// The model of a `OpSpec`.
pub enum OpSpecView {
    C1G2Read(C1G2Read),
    C1G2Write(C1G2WriteView),
    C1G2Kill(C1G2Kill),
    C1G2Recommission(C1G2Recommission),
    C1G2Lock(C1G2LockView),
    C1G2BlockErase(C1G2BlockErase),
    C1G2BlockWrite(C1G2BlockWriteView),
    C1G2BlockPermalock(C1G2BlockPermalockView),
    C1G2GetBlockPermalockStatus(C1G2GetBlockPermalockStatus),
}

impl DeepView for OpSpec {
    type V = OpSpecView;

    open spec fn deep_view(&self) -> OpSpecView {
        match self {
            OpSpec::C1G2Read(x) => OpSpecView::C1G2Read(x.deep_view()),
            OpSpec::C1G2Write(x) => OpSpecView::C1G2Write(x.deep_view()),
            OpSpec::C1G2Kill(x) => OpSpecView::C1G2Kill(x.deep_view()),
            OpSpec::C1G2Recommission(x) => OpSpecView::C1G2Recommission(x.deep_view()),
            OpSpec::C1G2Lock(x) => OpSpecView::C1G2Lock(x.deep_view()),
            OpSpec::C1G2BlockErase(x) => OpSpecView::C1G2BlockErase(x.deep_view()),
            OpSpec::C1G2BlockWrite(x) => OpSpecView::C1G2BlockWrite(x.deep_view()),
            OpSpec::C1G2BlockPermalock(x) => OpSpecView::C1G2BlockPermalock(x.deep_view()),
            OpSpec::C1G2GetBlockPermalockStatus(
                x) => OpSpecView::C1G2GetBlockPermalockStatus(x.deep_view(),
            ),
        }
    }
}

/// The next header says which case follows.
impl LLRPValue for OpSpec {
    open spec fn accepts(type_num: u16) -> bool {
        type_num == C1G2Read::ID
            || type_num == C1G2Write::ID
            || type_num == C1G2Kill::ID
            || type_num == C1G2Recommission::ID
            || type_num == C1G2Lock::ID
            || type_num == C1G2BlockErase::ID
            || type_num == C1G2BlockWrite::ID
            || type_num == C1G2BlockPermalock::ID
            || type_num == C1G2GetBlockPermalockStatus::ID
    }

    open spec fn parse(s: DecoderState) -> Result<(OpSpecView, DecoderState), Error> {
        match s.peek() {
            Err(e) => Err(e),
            Ok(ty) => if ty.number() == C1G2Read::ID {
                match <C1G2Read as LLRPValue>::parse(s) {
                    Err(e) => Err(e),
                    Ok((x, s1)) => Ok((OpSpecView::C1G2Read(x), s1)),
                }
            } else if ty.number() == C1G2Write::ID {
                match <C1G2Write as LLRPValue>::parse(s) {
                    Err(e) => Err(e),
                    Ok((x, s1)) => Ok((OpSpecView::C1G2Write(x), s1)),
                }
            } else if ty.number() == C1G2Kill::ID {
                match <C1G2Kill as LLRPValue>::parse(s) {
                    Err(e) => Err(e),
                    Ok((x, s1)) => Ok((OpSpecView::C1G2Kill(x), s1)),
                }
            } else if ty.number() == C1G2Recommission::ID {
                match <C1G2Recommission as LLRPValue>::parse(s) {
                    Err(e) => Err(e),
                    Ok((x, s1)) => Ok((OpSpecView::C1G2Recommission(x), s1)),
                }
            } else if ty.number() == C1G2Lock::ID {
                match <C1G2Lock as LLRPValue>::parse(s) {
                    Err(e) => Err(e),
                    Ok((x, s1)) => Ok((OpSpecView::C1G2Lock(x), s1)),
                }
            } else if ty.number() == C1G2BlockErase::ID {
                match <C1G2BlockErase as LLRPValue>::parse(s) {
                    Err(e) => Err(e),
                    Ok((x, s1)) => Ok((OpSpecView::C1G2BlockErase(x), s1)),
                }
            } else if ty.number() == C1G2BlockWrite::ID {
                match <C1G2BlockWrite as LLRPValue>::parse(s) {
                    Err(e) => Err(e),
                    Ok((x, s1)) => Ok((OpSpecView::C1G2BlockWrite(x), s1)),
                }
            } else if ty.number() == C1G2BlockPermalock::ID {
                match <C1G2BlockPermalock as LLRPValue>::parse(s) {
                    Err(e) => Err(e),
                    Ok((x, s1)) => Ok((OpSpecView::C1G2BlockPermalock(x), s1)),
                }
            } else if ty.number() == C1G2GetBlockPermalockStatus::ID {
                match <C1G2GetBlockPermalockStatus as LLRPValue>::parse(s) {
                    Err(e) => Err(e),
                    Ok((x, s1)) => Ok((OpSpecView::C1G2GetBlockPermalockStatus(x), s1)),
                }
            } else {
                Err(Error::InvalidType(ty.number()))
            },
        }
    }

    open spec fn parse_tv(s: DecoderState, tv_id: u8) -> Result<(OpSpecView, DecoderState), Error> {
        behind_tv(s, tv_id, |s1: DecoderState| Self::parse(s1))
    }

    open spec fn emit(v: OpSpecView, s: EncoderState) -> EncoderState {
        match v {
            OpSpecView::C1G2Read(x) => <C1G2Read as LLRPValue>::emit(x, s),
            OpSpecView::C1G2Write(x) => <C1G2Write as LLRPValue>::emit(x, s),
            OpSpecView::C1G2Kill(x) => <C1G2Kill as LLRPValue>::emit(x, s),
            OpSpecView::C1G2Recommission(x) => <C1G2Recommission as LLRPValue>::emit(x, s),
            OpSpecView::C1G2Lock(x) => <C1G2Lock as LLRPValue>::emit(x, s),
            OpSpecView::C1G2BlockErase(x) => <C1G2BlockErase as LLRPValue>::emit(x, s),
            OpSpecView::C1G2BlockWrite(x) => <C1G2BlockWrite as LLRPValue>::emit(x, s),
            OpSpecView::C1G2BlockPermalock(x) => <C1G2BlockPermalock as LLRPValue>::emit(x, s),
            OpSpecView::C1G2GetBlockPermalockStatus(
                x) => <C1G2GetBlockPermalockStatus as LLRPValue>::emit(x, s,
            ),
        }
    }

    open spec fn emit_tv(v: OpSpecView, s: EncoderState, tv_id: u8) -> EncoderState {
        Self::emit(v, s.write_param_type(ParameterType::Tv(tv_id)))
    }

    open spec fn wire(v: OpSpecView) -> Seq<u8> {
        match v {
            OpSpecView::C1G2Read(x) => <C1G2Read as LLRPValue>::wire(x),
            OpSpecView::C1G2Write(x) => <C1G2Write as LLRPValue>::wire(x),
            OpSpecView::C1G2Kill(x) => <C1G2Kill as LLRPValue>::wire(x),
            OpSpecView::C1G2Recommission(x) => <C1G2Recommission as LLRPValue>::wire(x),
            OpSpecView::C1G2Lock(x) => <C1G2Lock as LLRPValue>::wire(x),
            OpSpecView::C1G2BlockErase(x) => <C1G2BlockErase as LLRPValue>::wire(x),
            OpSpecView::C1G2BlockWrite(x) => <C1G2BlockWrite as LLRPValue>::wire(x),
            OpSpecView::C1G2BlockPermalock(x) => <C1G2BlockPermalock as LLRPValue>::wire(x),
            OpSpecView::C1G2GetBlockPermalockStatus(
                x) => <C1G2GetBlockPermalockStatus as LLRPValue>::wire(x,
            ),
        }
    }

    open spec fn canonical(v: OpSpecView) -> bool {
        match v {
            OpSpecView::C1G2Read(x) => <C1G2Read as LLRPValue>::canonical(x),
            OpSpecView::C1G2Write(x) => <C1G2Write as LLRPValue>::canonical(x),
            OpSpecView::C1G2Kill(x) => <C1G2Kill as LLRPValue>::canonical(x),
            OpSpecView::C1G2Recommission(x) => <C1G2Recommission as LLRPValue>::canonical(x),
            OpSpecView::C1G2Lock(x) => <C1G2Lock as LLRPValue>::canonical(x),
            OpSpecView::C1G2BlockErase(x) => <C1G2BlockErase as LLRPValue>::canonical(x),
            OpSpecView::C1G2BlockWrite(x) => <C1G2BlockWrite as LLRPValue>::canonical(x),
            OpSpecView::C1G2BlockPermalock(x) => <C1G2BlockPermalock as LLRPValue>::canonical(x),
            OpSpecView::C1G2GetBlockPermalockStatus(
                x) => <C1G2GetBlockPermalockStatus as LLRPValue>::canonical(x,
            ),
        }
    }

    open spec fn follow_ok(v: OpSpecView, next: Seq<u8>) -> bool {
        true
    }

    proof fn lemma_emit(v: OpSpecView, s: EncoderState) {
        match v {
            OpSpecView::C1G2Read(x) => {
                <C1G2Read as LLRPValue>::lemma_emit(x, s);
            },
            OpSpecView::C1G2Write(x) => {
                <C1G2Write as LLRPValue>::lemma_emit(x, s);
            },
            OpSpecView::C1G2Kill(x) => {
                <C1G2Kill as LLRPValue>::lemma_emit(x, s);
            },
            OpSpecView::C1G2Recommission(x) => {
                <C1G2Recommission as LLRPValue>::lemma_emit(x, s);
            },
            OpSpecView::C1G2Lock(x) => {
                <C1G2Lock as LLRPValue>::lemma_emit(x, s);
            },
            OpSpecView::C1G2BlockErase(x) => {
                <C1G2BlockErase as LLRPValue>::lemma_emit(x, s);
            },
            OpSpecView::C1G2BlockWrite(x) => {
                <C1G2BlockWrite as LLRPValue>::lemma_emit(x, s);
            },
            OpSpecView::C1G2BlockPermalock(x) => {
                <C1G2BlockPermalock as LLRPValue>::lemma_emit(x, s);
            },
            OpSpecView::C1G2GetBlockPermalockStatus(x) => {
                <C1G2GetBlockPermalockStatus as LLRPValue>::lemma_emit(x, s);
            },
        }
    }

    proof fn lemma_parse(v: OpSpecView, next: Seq<u8>) {
        if Self::canonical(v) {
            match v {
                OpSpecView::C1G2Read(x) => {
                    lemma_tlv_front(C1G2Read::ID, <C1G2Read as TlvParameter>::wire_body(x), next);
                    <C1G2Read as LLRPValue>::lemma_parse(x, next);
                },
                OpSpecView::C1G2Write(x) => {
                    lemma_tlv_front(C1G2Write::ID, <C1G2Write as TlvParameter>::wire_body(x), next);
                    <C1G2Write as LLRPValue>::lemma_parse(x, next);
                },
                OpSpecView::C1G2Kill(x) => {
                    lemma_tlv_front(C1G2Kill::ID, <C1G2Kill as TlvParameter>::wire_body(x), next);
                    <C1G2Kill as LLRPValue>::lemma_parse(x, next);
                },
                OpSpecView::C1G2Recommission(x) => {
                    lemma_tlv_front(
                        C1G2Recommission::ID,
                        <C1G2Recommission as TlvParameter>::wire_body(x),
                        next,
                    );
                    <C1G2Recommission as LLRPValue>::lemma_parse(x, next);
                },
                OpSpecView::C1G2Lock(x) => {
                    lemma_tlv_front(C1G2Lock::ID, <C1G2Lock as TlvParameter>::wire_body(x), next);
                    <C1G2Lock as LLRPValue>::lemma_parse(x, next);
                },
                OpSpecView::C1G2BlockErase(x) => {
                    lemma_tlv_front(
                        C1G2BlockErase::ID,
                        <C1G2BlockErase as TlvParameter>::wire_body(x),
                        next,
                    );
                    <C1G2BlockErase as LLRPValue>::lemma_parse(x, next);
                },
                OpSpecView::C1G2BlockWrite(x) => {
                    lemma_tlv_front(
                        C1G2BlockWrite::ID,
                        <C1G2BlockWrite as TlvParameter>::wire_body(x),
                        next,
                    );
                    <C1G2BlockWrite as LLRPValue>::lemma_parse(x, next);
                },
                OpSpecView::C1G2BlockPermalock(x) => {
                    lemma_tlv_front(
                        C1G2BlockPermalock::ID,
                        <C1G2BlockPermalock as TlvParameter>::wire_body(x),
                        next,
                    );
                    <C1G2BlockPermalock as LLRPValue>::lemma_parse(x, next);
                },
                OpSpecView::C1G2GetBlockPermalockStatus(x) => {
                    lemma_tlv_front(
                        C1G2GetBlockPermalockStatus::ID,
                        <C1G2GetBlockPermalockStatus as TlvParameter>::wire_body(x),
                        next,
                    );
                    <C1G2GetBlockPermalockStatus as LLRPValue>::lemma_parse(x, next);
                },
            }
        }
    }

    open spec fn atomic() -> bool {
        true
    }

    proof fn lemma_progress(s: DecoderState) {
        let n = s.peek()->Ok_0.number();
        if n == C1G2Read::ID {
            <C1G2Read as LLRPValue>::lemma_progress(s);
        } else if n == C1G2Write::ID {
            <C1G2Write as LLRPValue>::lemma_progress(s);
        } else if n == C1G2Kill::ID {
            <C1G2Kill as LLRPValue>::lemma_progress(s);
        } else if n == C1G2Recommission::ID {
            <C1G2Recommission as LLRPValue>::lemma_progress(s);
        } else if n == C1G2Lock::ID {
            <C1G2Lock as LLRPValue>::lemma_progress(s);
        } else if n == C1G2BlockErase::ID {
            <C1G2BlockErase as LLRPValue>::lemma_progress(s);
        } else if n == C1G2BlockWrite::ID {
            <C1G2BlockWrite as LLRPValue>::lemma_progress(s);
        } else if n == C1G2BlockPermalock::ID {
            <C1G2BlockPermalock as LLRPValue>::lemma_progress(s);
        } else if n == C1G2GetBlockPermalockStatus::ID {
            <C1G2GetBlockPermalockStatus as LLRPValue>::lemma_progress(s);
        }
    }

    fn can_decode_type(type_num: u16) -> (b: bool) {
        type_num == C1G2Read::ID
            || type_num == C1G2Write::ID
            || type_num == C1G2Kill::ID
            || type_num == C1G2Recommission::ID
            || type_num == C1G2Lock::ID
            || type_num == C1G2BlockErase::ID
            || type_num == C1G2BlockWrite::ID
            || type_num == C1G2BlockPermalock::ID
            || type_num == C1G2GetBlockPermalockStatus::ID
    }

    fn decode(decoder: &mut Decoder) -> (r: Result<Self, Error>) {
        let type_num = decoder.get_message_type()?;
        if type_num == C1G2Read::ID {
            let x = decoder.read::<C1G2Read>()?;
            Ok(OpSpec::C1G2Read(x))
        } else if type_num == C1G2Write::ID {
            let x = decoder.read::<C1G2Write>()?;
            Ok(OpSpec::C1G2Write(x))
        } else if type_num == C1G2Kill::ID {
            let x = decoder.read::<C1G2Kill>()?;
            Ok(OpSpec::C1G2Kill(x))
        } else if type_num == C1G2Recommission::ID {
            let x = decoder.read::<C1G2Recommission>()?;
            Ok(OpSpec::C1G2Recommission(x))
        } else if type_num == C1G2Lock::ID {
            let x = decoder.read::<C1G2Lock>()?;
            Ok(OpSpec::C1G2Lock(x))
        } else if type_num == C1G2BlockErase::ID {
            let x = decoder.read::<C1G2BlockErase>()?;
            Ok(OpSpec::C1G2BlockErase(x))
        } else if type_num == C1G2BlockWrite::ID {
            let x = decoder.read::<C1G2BlockWrite>()?;
            Ok(OpSpec::C1G2BlockWrite(x))
        } else if type_num == C1G2BlockPermalock::ID {
            let x = decoder.read::<C1G2BlockPermalock>()?;
            Ok(OpSpec::C1G2BlockPermalock(x))
        } else if type_num == C1G2GetBlockPermalockStatus::ID {
            let x = decoder.read::<C1G2GetBlockPermalockStatus>()?;
            Ok(OpSpec::C1G2GetBlockPermalockStatus(x))
        } else {
            Err(Error::InvalidType(type_num))
        }
    }

    fn decode_tv(decoder: &mut Decoder, tv_id: u8) -> (r: Result<Self, Error>) {
        decoder.check_tv_type(tv_id)?;
        Self::decode(decoder)
    }

    fn encode(&self, encoder: &mut Encoder) {
        match self {
            OpSpec::C1G2Read(x) => x.encode(encoder),
            OpSpec::C1G2Write(x) => x.encode(encoder),
            OpSpec::C1G2Kill(x) => x.encode(encoder),
            OpSpec::C1G2Recommission(x) => x.encode(encoder),
            OpSpec::C1G2Lock(x) => x.encode(encoder),
            OpSpec::C1G2BlockErase(x) => x.encode(encoder),
            OpSpec::C1G2BlockWrite(x) => x.encode(encoder),
            OpSpec::C1G2BlockPermalock(x) => x.encode(encoder),
            OpSpec::C1G2GetBlockPermalockStatus(x) => x.encode(encoder),
        }
    }

    fn encode_tv(&self, encoder: &mut Encoder, tv_id: u8) {
        encoder.write_param_type(ParameterType::Tv(tv_id));
        self.encode(encoder);
    }
}

impl From<C1G2Read> for OpSpec {
    fn from(value: C1G2Read) -> (r: OpSpec) {
        OpSpec::C1G2Read(value)
    }
}

impl FromSpecImpl<C1G2Read> for OpSpec {
    open spec fn obeys_from_spec() -> bool {
        true
    }

    open spec fn from_spec(value: C1G2Read) -> OpSpec {
        OpSpec::C1G2Read(value)
    }
}

impl From<C1G2Write> for OpSpec {
    fn from(value: C1G2Write) -> (r: OpSpec) {
        OpSpec::C1G2Write(value)
    }
}

impl FromSpecImpl<C1G2Write> for OpSpec {
    open spec fn obeys_from_spec() -> bool {
        true
    }

    open spec fn from_spec(value: C1G2Write) -> OpSpec {
        OpSpec::C1G2Write(value)
    }
}

impl From<C1G2Kill> for OpSpec {
    fn from(value: C1G2Kill) -> (r: OpSpec) {
        OpSpec::C1G2Kill(value)
    }
}

impl FromSpecImpl<C1G2Kill> for OpSpec {
    open spec fn obeys_from_spec() -> bool {
        true
    }

    open spec fn from_spec(value: C1G2Kill) -> OpSpec {
        OpSpec::C1G2Kill(value)
    }
}

impl From<C1G2Recommission> for OpSpec {
    fn from(value: C1G2Recommission) -> (r: OpSpec) {
        OpSpec::C1G2Recommission(value)
    }
}

impl FromSpecImpl<C1G2Recommission> for OpSpec {
    open spec fn obeys_from_spec() -> bool {
        true
    }

    open spec fn from_spec(value: C1G2Recommission) -> OpSpec {
        OpSpec::C1G2Recommission(value)
    }
}

impl From<C1G2Lock> for OpSpec {
    fn from(value: C1G2Lock) -> (r: OpSpec) {
        OpSpec::C1G2Lock(value)
    }
}

impl FromSpecImpl<C1G2Lock> for OpSpec {
    open spec fn obeys_from_spec() -> bool {
        true
    }

    open spec fn from_spec(value: C1G2Lock) -> OpSpec {
        OpSpec::C1G2Lock(value)
    }
}

impl From<C1G2BlockErase> for OpSpec {
    fn from(value: C1G2BlockErase) -> (r: OpSpec) {
        OpSpec::C1G2BlockErase(value)
    }
}

impl FromSpecImpl<C1G2BlockErase> for OpSpec {
    open spec fn obeys_from_spec() -> bool {
        true
    }

    open spec fn from_spec(value: C1G2BlockErase) -> OpSpec {
        OpSpec::C1G2BlockErase(value)
    }
}

impl From<C1G2BlockWrite> for OpSpec {
    fn from(value: C1G2BlockWrite) -> (r: OpSpec) {
        OpSpec::C1G2BlockWrite(value)
    }
}

impl FromSpecImpl<C1G2BlockWrite> for OpSpec {
    open spec fn obeys_from_spec() -> bool {
        true
    }

    open spec fn from_spec(value: C1G2BlockWrite) -> OpSpec {
        OpSpec::C1G2BlockWrite(value)
    }
}

impl From<C1G2BlockPermalock> for OpSpec {
    fn from(value: C1G2BlockPermalock) -> (r: OpSpec) {
        OpSpec::C1G2BlockPermalock(value)
    }
}

impl FromSpecImpl<C1G2BlockPermalock> for OpSpec {
    open spec fn obeys_from_spec() -> bool {
        true
    }

    open spec fn from_spec(value: C1G2BlockPermalock) -> OpSpec {
        OpSpec::C1G2BlockPermalock(value)
    }
}

impl From<C1G2GetBlockPermalockStatus> for OpSpec {
    fn from(value: C1G2GetBlockPermalockStatus) -> (r: OpSpec) {
        OpSpec::C1G2GetBlockPermalockStatus(value)
    }
}

impl FromSpecImpl<C1G2GetBlockPermalockStatus> for OpSpec {
    open spec fn obeys_from_spec() -> bool {
        true
    }

    open spec fn from_spec(value: C1G2GetBlockPermalockStatus) -> OpSpec {
        OpSpec::C1G2GetBlockPermalockStatus(value)
    }
}

/// A parameter with content that a vendor defines. No header is taken for
/// one: a run of them is always empty.
#[derive(Debug, PartialEq, Eq)]
pub struct CustomParameter;

impl DeepView for CustomParameter {
    type V = CustomParameter;

    open spec fn deep_view(&self) -> CustomParameter {
        *self
    }
}

impl LLRPValue for CustomParameter {
    open spec fn accepts(type_num: u16) -> bool {
        false
    }

    open spec fn parse(s: DecoderState) -> Result<(CustomParameter, DecoderState), Error> {
        Err(Error::InvalidType(0))
    }

    open spec fn parse_tv(s: DecoderState, tv_id: u8) -> Result<
        (CustomParameter, DecoderState),
        Error,
    > {
        behind_tv(s, tv_id, |s1: DecoderState| Self::parse(s1))
    }

    open spec fn emit(v: CustomParameter, s: EncoderState) -> EncoderState {
        s
    }

    open spec fn emit_tv(v: CustomParameter, s: EncoderState, tv_id: u8) -> EncoderState {
        Self::emit(v, s.write_param_type(ParameterType::Tv(tv_id)))
    }

    open spec fn wire(v: CustomParameter) -> Seq<u8> {
        Seq::empty()
    }

    open spec fn canonical(v: CustomParameter) -> bool {
        false
    }

    open spec fn follow_ok(v: CustomParameter, next: Seq<u8>) -> bool {
        true
    }

    proof fn lemma_emit(v: CustomParameter, s: EncoderState) {
        assert(s.bytes + Seq::<u8>::empty() =~= s.bytes);
    }

    proof fn lemma_parse(v: CustomParameter, next: Seq<u8>) {
    }

    open spec fn atomic() -> bool {
        true
    }

    proof fn lemma_progress(s: DecoderState) {
    }

    fn can_decode_type(type_num: u16) -> (b: bool) {
        false
    }

    fn decode(decoder: &mut Decoder) -> (r: Result<Self, Error>) {
        Err(Error::InvalidType(0))
    }

    fn decode_tv(decoder: &mut Decoder, tv_id: u8) -> (r: Result<Self, Error>) {
        decoder.check_tv_type(tv_id)?;
        Self::decode(decoder)
    }

    fn encode(&self, encoder: &mut Encoder) {
    }

    fn encode_tv(&self, encoder: &mut Encoder, tv_id: u8) {
        encoder.write_param_type(ParameterType::Tv(tv_id));
        self.encode(encoder);
    }
}

/// A tag identifier of any length, as a bit array.
#[derive(Debug, PartialEq, Eq)]
pub struct EpcData {
    pub epc: Vec<u8>,
}

/// The model of an `EpcData`.
pub struct EpcDataView {
    pub epc: Seq<u8>,
}

impl DeepView for EpcData {
    type V = EpcDataView;

    open spec fn deep_view(&self) -> EpcDataView {
        EpcDataView { epc: self.epc@ }
    }
}

impl TlvParameter for EpcData {
    const ID: u16 = 241;

    open spec fn parse_body(s: DecoderState) -> Result<(EpcDataView, DecoderState), Error> {
        match <BitArray as LLRPValue>::parse(s) {
            Err(e) => Err(e),
            Ok((epc, s)) => Ok((EpcDataView { epc }, s)),
        }
    }

    open spec fn emit_body(v: EpcDataView, s: EncoderState) -> EncoderState {
        <BitArray as LLRPValue>::emit(v.epc, s)
    }

    open spec fn wire_body(v: EpcDataView) -> Seq<u8> {
        <BitArray as LLRPValue>::wire(v.epc)
    }

    open spec fn canonical_body(v: EpcDataView) -> bool {
        <BitArray as LLRPValue>::canonical(v.epc)
    }

    proof fn lemma_emit_body(v: EpcDataView, s: EncoderState) {
        <BitArray as LLRPValue>::lemma_emit(v.epc, s);
    }

    proof fn lemma_parse_body(v: EpcDataView) {
        <BitArray as LLRPValue>::lemma_parse(v.epc, Seq::empty());
        assert(Self::wire_body(v) + Seq::<u8>::empty() =~= Self::wire_body(v));
    }

    fn decode_body(decoder: &mut Decoder) -> (r: Result<Self, Error>) {
        let bits = decoder.read::<BitArray>()?;
        Ok(EpcData { epc: bits.bytes })
    }

    fn encode_body(&self, encoder: &mut Encoder) {
        proof {
            crate::wire::lemma_pow256_values();
        }
        encoder.write_uint(((self.epc.len() % 0x2000) * 8) as u64, 2);
        encoder.write_bytes(self.epc.as_slice());
    }
}

/// A tag identifier: the 96-bit form behind the TV header 13, or the form
/// of any length as a TLV parameter.
#[derive(Debug, PartialEq, Eq)]
pub enum EpcDataParameter {
    EpcData(EpcData),
    Epc96([u8; 12]),
}

/// The model of an `EpcDataParameter`.
pub enum EpcDataParameterView {
    EpcData(EpcDataView),
    Epc96(Seq<u8>),
}

impl DeepView for EpcDataParameter {
    type V = EpcDataParameterView;

    open spec fn deep_view(&self) -> EpcDataParameterView {
        match self {
            EpcDataParameter::EpcData(x) => EpcDataParameterView::EpcData(x.deep_view()),
            EpcDataParameter::Epc96(x) => EpcDataParameterView::Epc96(x.deep_view()),
        }
    }
}

impl EpcDataParameter {
    /// The bytes of the identifier.
    pub fn as_slice(&self) -> (bytes: &[u8])
        ensures
            bytes@ == match self.deep_view() {
                EpcDataParameterView::EpcData(x) => x.epc,
                EpcDataParameterView::Epc96(x) => x,
            },
    {
        match self {
            EpcDataParameter::EpcData(data) => data.epc.as_slice(),
            EpcDataParameter::Epc96(data) => {
                assert(data.deep_view() =~= data@);
                data.as_slice()
            },
        }
    }
}

impl LLRPValue for EpcDataParameter {
    open spec fn accepts(type_num: u16) -> bool {
        type_num == 13 || type_num == 241
    }

    open spec fn parse(s: DecoderState) -> Result<(EpcDataParameterView, DecoderState), Error> {
        if s.peek() == Ok::<ParameterType, Error>(ParameterType::Tv(13)) {
            match <[u8; 12] as LLRPValue>::parse_tv(s, 13) {
                Err(e) => Err(e),
                Ok((x, s1)) => Ok((EpcDataParameterView::Epc96(x), s1)),
            }
        } else {
            match <EpcData as LLRPValue>::parse(s) {
                Err(e) => Err(e),
                Ok((x, s1)) => Ok((EpcDataParameterView::EpcData(x), s1)),
            }
        }
    }

    open spec fn parse_tv(s: DecoderState, tv_id: u8) -> Result<
        (EpcDataParameterView, DecoderState),
        Error,
    > {
        behind_tv(s, tv_id, |s1: DecoderState| Self::parse(s1))
    }

    open spec fn emit(v: EpcDataParameterView, s: EncoderState) -> EncoderState {
        match v {
            EpcDataParameterView::EpcData(x) => <EpcData as LLRPValue>::emit(x, s),
            EpcDataParameterView::Epc96(x) => <[u8; 12] as LLRPValue>::emit_tv(x, s, 13),
        }
    }

    open spec fn emit_tv(v: EpcDataParameterView, s: EncoderState, tv_id: u8) -> EncoderState {
        Self::emit(v, s.write_param_type(ParameterType::Tv(tv_id)))
    }

    open spec fn wire(v: EpcDataParameterView) -> Seq<u8> {
        match v {
            EpcDataParameterView::EpcData(x) => <EpcData as LLRPValue>::wire(x),
            EpcDataParameterView::Epc96(x) => seq![141u8] + x,
        }
    }

    open spec fn canonical(v: EpcDataParameterView) -> bool {
        match v {
            EpcDataParameterView::EpcData(x) => <EpcData as LLRPValue>::canonical(x),
            EpcDataParameterView::Epc96(x) => x.len() == 12,
        }
    }

    open spec fn follow_ok(v: EpcDataParameterView, next: Seq<u8>) -> bool {
        true
    }

    proof fn lemma_emit(v: EpcDataParameterView, s: EncoderState) {
        match v {
            EpcDataParameterView::EpcData(x) => {
                <EpcData as LLRPValue>::lemma_emit(x, s);
            },
            EpcDataParameterView::Epc96(x) => {
                assert((s.bytes + seq![141u8]) + x =~= s.bytes + (seq![141u8] + x));
            },
        }
    }

    proof fn lemma_parse(v: EpcDataParameterView, next: Seq<u8>) {
        if Self::canonical(v) {
            match v {
                EpcDataParameterView::EpcData(x) => {
                    lemma_tlv_front(241, <EpcData as TlvParameter>::wire_body(x), next);
                    <EpcData as LLRPValue>::lemma_parse(x, next);
                },
                EpcDataParameterView::Epc96(x) => {
                    let s = DecoderState::start(Self::wire(v) + next);
                    assert(s.bytes[0] == 141u8);
                    assert(s.bytes.skip(1) =~= x + next);
                    <[u8; 12] as LLRPValue>::lemma_parse(x, next);
                },
            }
        }
    }

    open spec fn atomic() -> bool {
        false
    }

    proof fn lemma_progress(s: DecoderState) {
        if s.peek() != Ok::<ParameterType, Error>(ParameterType::Tv(13)) {
            <EpcData as LLRPValue>::lemma_progress(s);
        }
    }

    fn can_decode_type(type_num: u16) -> (b: bool) {
        type_num == 13 || type_num == 241
    }

    fn decode(decoder: &mut Decoder) -> (r: Result<Self, Error>) {
        let is_epc96 = match decoder.peek_param_type() {
            Ok(ParameterType::Tv(id)) => id == 13,
            _ => false,
        };
        if is_epc96 {
            let x = decoder.read_tv::<[u8; 12]>(13)?;
            Ok(EpcDataParameter::Epc96(x))
        } else {
            let x = decoder.read::<EpcData>()?;
            Ok(EpcDataParameter::EpcData(x))
        }
    }

    fn decode_tv(decoder: &mut Decoder, tv_id: u8) -> (r: Result<Self, Error>) {
        decoder.check_tv_type(tv_id)?;
        Self::decode(decoder)
    }

    fn encode(&self, encoder: &mut Encoder) {
        match self {
            EpcDataParameter::EpcData(x) => x.encode(encoder),
            EpcDataParameter::Epc96(x) => x.encode_tv(encoder, 13),
        }
    }

    fn encode_tv(&self, encoder: &mut Encoder, tv_id: u8) {
        encoder.write_param_type(ParameterType::Tv(tv_id));
        self.encode(encoder);
    }
}

/// Names the parameter that a status complains about. Where the fault lies
/// in a parameter inside that parameter, a nested `ParameterError` names it.
#[derive(Debug, PartialEq, Eq)]
pub struct ParameterError {
    pub field_error: Option<FieldError>,
    pub parameter_error: Option<Box<ParameterError>>,
}

impl DeepView for ParameterError {
    type V = ParameterError;

    open spec fn deep_view(&self) -> ParameterError {
        *self
    }
}

impl ParameterError {
    /// The fields of the body: an optional `FieldError`, then an optional
    /// nested `ParameterError` in a frame of its own. The nested body is
    /// shorter than this one, so the nesting ends.
    pub open spec fn parse_fields(s: DecoderState) -> Result<(ParameterError, DecoderState), Error>
        decreases s.bytes.len(),
    {
        match <Option<FieldError> as LLRPValue>::parse(s) {
            Err(e) => Err(e),
            Ok((field_error, s1)) => if s1.peek_number() == Ok::<u16, Error>(289) {
                match s1.tlv_open(289) {
                    Err(e) => Err(e),
                    Ok(inner) => if inner.bytes.len() < s.bytes.len() {
                        match Self::parse_fields(inner) {
                            Err(e) => Err(e),
                            Ok((nested, inner_end)) => match s1.tlv_close(inner_end) {
                                Err(e) => Err(e),
                                Ok(s2) => Ok(
                                    (
                                        ParameterError {
                                            field_error,
                                            parameter_error: Some(Box::new(nested)),
                                        },
                                        s2,
                                    ),
                                ),
                            },
                        }
                    } else {
                        Ok((ParameterError { field_error, parameter_error: None }, s1))
                    },
                }
            } else {
                Ok((ParameterError { field_error, parameter_error: None }, s1))
            },
        }
    }

    /// The state after the fields have been written.
    pub open spec fn emit_fields(v: ParameterError, s: EncoderState) -> EncoderState
        decreases v,
    {
        let s1 = <Option<FieldError> as LLRPValue>::emit(v.field_error, s);
        match v.parameter_error {
            Some(nested) => s1.tlv_close(Self::emit_fields(*nested, s1.tlv_open(289))),
            None => s1,
        }
    }

    /// The bytes that writing the fields appends where no bit is waiting.
    pub open spec fn wire_fields(v: ParameterError) -> Seq<u8>
        decreases v,
    {
        <Option<FieldError> as LLRPValue>::wire(v.field_error) + match v.parameter_error {
            Some(nested) => tlv_wire(289, Self::wire_fields(*nested)),
            None => Seq::empty(),
        }
    }

    /// Whether the fields fit the format, down through the nested errors:
    /// each body fits the sixteen bits of its length.
    pub open spec fn canonical_fields(v: ParameterError) -> bool
        decreases v,
    {
        &&& <Option<FieldError> as LLRPValue>::canonical(v.field_error)
        &&& match v.parameter_error {
            Some(nested) => {
                &&& <Option<FieldError> as LLRPValue>::follow_ok(
                    v.field_error,
                    tlv_wire(289, Self::wire_fields(*nested)),
                )
                &&& Self::wire_fields(*nested).len() + 4 < 0x1_0000
                &&& Self::canonical_fields(*nested)
            },
            None => <Option<FieldError> as LLRPValue>::follow_ok(v.field_error, Seq::empty()),
        }
    }

    proof fn lemma_emit_fields(v: ParameterError, s: EncoderState)
        requires
            s.aligned(),
        ensures
            Self::emit_fields(v, s) == s.write_bytes(Self::wire_fields(v)),
        decreases v,
    {
        <Option<FieldError> as LLRPValue>::lemma_emit(v.field_error, s);
        let first = <Option<FieldError> as LLRPValue>::wire(v.field_error);
        let s1 = s.write_bytes(first);
        match v.parameter_error {
            Some(nested) => {
                Self::lemma_emit_fields(*nested, s1.tlv_open(289));
                lemma_tlv_written(s1, 289, Self::wire_fields(*nested));
                assert(s1.bytes + tlv_wire(289, Self::wire_fields(*nested)) =~= s.bytes
                    + Self::wire_fields(v));
            },
            None => {
                assert(s1.bytes =~= s.bytes + Self::wire_fields(v));
            },
        }
    }

    proof fn lemma_parse_fields(v: ParameterError)
        ensures
            Self::canonical_fields(v) ==> Self::parse_fields(
                DecoderState::start(Self::wire_fields(v)),
            ) == Ok::<(ParameterError, DecoderState), Error>(
                (v, DecoderState::start(Seq::empty())),
            ),
        decreases v,
    {
        if Self::canonical_fields(v) {
            let first = <Option<FieldError> as LLRPValue>::wire(v.field_error);
            match v.parameter_error {
                Some(nested) => {
                    let body = Self::wire_fields(*nested);
                    let rest = tlv_wire(289, body);
                    <Option<FieldError> as LLRPValue>::lemma_parse(v.field_error, rest);
                    lemma_tlv_front(289, body, Seq::empty());
                    assert(rest + Seq::<u8>::empty() =~= rest);
                    Self::lemma_parse_fields(*nested);
                    crate::wire::lemma_be_bytes_len(289, 2);
                    crate::wire::lemma_be_bytes_len(((body.len() + 4) % 0x1_0000) as nat, 2);
                    assert(body.len() < (first + rest).len());
                },
                None => {
                    <Option<FieldError> as LLRPValue>::lemma_parse(v.field_error, Seq::empty());
                    assert(first + Seq::<u8>::empty() =~= first);
                    assert(Self::wire_fields(v) =~= first);
                },
            }
        }
    }

    fn decode_fields(decoder: &mut Decoder) -> (r: Result<ParameterError, Error>)
        ensures
            decoded::<ParameterError>(Self::parse_fields(old(decoder)@), r, final(decoder)@),
        decreases old(decoder)@.bytes.len(),
    {
        let outer_len = decoder.remaining();
        let field_error = decoder.read::<Option<FieldError>>()?;
        let nested_next = match decoder.get_message_type() {
            Ok(type_num) => type_num == 289,
            Err(_) => false,
        };
        if nested_next {
            let mut body = decoder.tlv_enter(289)?;
            if body.remaining() < outer_len {
                let nested = Self::decode_fields(&mut body)?;
                decoder.tlv_leave(&body)?;
                Ok(ParameterError { field_error, parameter_error: Some(Box::new(nested)) })
            } else {
                Ok(ParameterError { field_error, parameter_error: None })
            }
        } else {
            Ok(ParameterError { field_error, parameter_error: None })
        }
    }

    fn encode_fields(&self, encoder: &mut Encoder)
        ensures
            final(encoder)@ == Self::emit_fields(*self, old(encoder)@),
        decreases self,
    {
        encoder.write(&self.field_error);
        match &self.parameter_error {
            Some(nested) => {
                let start = encoder.tlv_begin(289);
                nested.encode_fields(encoder);
                encoder.tlv_end(start);
            },
            None => {},
        }
    }
}

impl TlvParameter for ParameterError {
    const ID: u16 = 289;

    open spec fn parse_body(s: DecoderState) -> Result<(ParameterError, DecoderState), Error> {
        Self::parse_fields(s)
    }

    open spec fn emit_body(v: ParameterError, s: EncoderState) -> EncoderState {
        Self::emit_fields(v, s)
    }

    open spec fn wire_body(v: ParameterError) -> Seq<u8> {
        Self::wire_fields(v)
    }

    open spec fn canonical_body(v: ParameterError) -> bool {
        Self::canonical_fields(v)
    }

    proof fn lemma_emit_body(v: ParameterError, s: EncoderState) {
        Self::lemma_emit_fields(v, s);
    }

    proof fn lemma_parse_body(v: ParameterError) {
        Self::lemma_parse_fields(v);
    }

    fn decode_body(decoder: &mut Decoder) -> (r: Result<Self, Error>) {
        Self::decode_fields(decoder)
    }

    fn encode_body(&self, encoder: &mut Encoder) {
        self.encode_fields(encoder)
    }
}

/// The type number of each parameter.
pub proof fn lemma_parameter_ids()
    ensures
        <LLRPStatus as TlvParameter>::ID == 287,
        <FieldError as TlvParameter>::ID == 288,
        <RoSpec as TlvParameter>::ID == 177,
        <RoBoundarySpec as TlvParameter>::ID == 178,
        <RoSpecStartTrigger as TlvParameter>::ID == 179,
        <PeriodicTriggerValue as TlvParameter>::ID == 180,
        <GPITriggerValue as TlvParameter>::ID == 181,
        <RoSpecStopTrigger as TlvParameter>::ID == 182,
        <AiSpec as TlvParameter>::ID == 183,
        <AiSpecStopTrigger as TlvParameter>::ID == 184,
        <TagObservationTriggerValue as TlvParameter>::ID == 185,
        <InventorySpec as TlvParameter>::ID == 186,
        <AccessSpec as TlvParameter>::ID == 207,
        <AccessSpecStopTrigger as TlvParameter>::ID == 208,
        <AccessCommand as TlvParameter>::ID == 209,
        <AccessReportSpec as TlvParameter>::ID == 239,
        <TagReportData as TlvParameter>::ID == 240,
        <RfSurveyReport as TlvParameter>::ID == 242,
        <FrequencyPowerLevel as TlvParameter>::ID == 243,
        <C1G2ReadOpSpecResult as TlvParameter>::ID == 349,
        <C1G2WriteOpSpecResult as TlvParameter>::ID == 350,
        <C1G2KillOpSpecResult as TlvParameter>::ID == 351,
        <C1G2RecommissionOpSpecResult as TlvParameter>::ID == 360,
        <C1G2LockOpSpecResult as TlvParameter>::ID == 352,
        <C1G2BlockEraseOpSpecResult as TlvParameter>::ID == 353,
        <C1G2BlockWriteOpSpecResult as TlvParameter>::ID == 354,
        <C1G2BlockPermalockOpSpecResult as TlvParameter>::ID == 361,
        <C1G2GetBlockPermalockStatusOpSpecResult as TlvParameter>::ID == 362,
        <AntennaConfiguration as TlvParameter>::ID == 222,
        <RfReceiver as TlvParameter>::ID == 223,
        <RfTransmitter as TlvParameter>::ID == 224,
        <RoReportSpec as TlvParameter>::ID == 237,
        <ReaderEventNotificationData as TlvParameter>::ID == 246,
        <UTCTimestamp as TlvParameter>::ID == 128,
        <ConnectionEventAttempt as TlvParameter>::ID == 256,
        <C1G2InventoryCommand as TlvParameter>::ID == 330,
        <C1G2Filter as TlvParameter>::ID == 331,
        <C1G2RfControl as TlvParameter>::ID == 335,
        <C1G2SingulationControl as TlvParameter>::ID == 336,
        <TagInventoryStateAwareSingulationAction as TlvParameter>::ID == 337,
        <C1G2TagSpec as TlvParameter>::ID == 338,
        <C1G2TargetTag as TlvParameter>::ID == 339,
        <C1G2Read as TlvParameter>::ID == 341,
        <C1G2Write as TlvParameter>::ID == 342,
        <C1G2Kill as TlvParameter>::ID == 343,
        <C1G2Recommission as TlvParameter>::ID == 357,
        <C1G2Lock as TlvParameter>::ID == 344,
        <C1G2LockPayload as TlvParameter>::ID == 345,
        <C1G2BlockErase as TlvParameter>::ID == 346,
        <C1G2BlockWrite as TlvParameter>::ID == 347,
        <C1G2BlockPermalock as TlvParameter>::ID == 358,
        <C1G2GetBlockPermalockStatus as TlvParameter>::ID == 359,
        <EpcData as TlvParameter>::ID == 241,
        <ParameterError as TlvParameter>::ID == 289,
{
}

/// What a reader is and can do.
#[derive(Debug, PartialEq, Eq)]
pub struct GeneralDeviceCapabilities {
    /// The manufacturer's IANA private enterprise number.
    pub device_manufacturer_name: u32,
    pub model_name: u32,
    /// The firmware version.
    pub firmware: String,
    /// The highest number of antennas the reader supports.
    pub max_antennas: u16,
    /// Whether a client can set the antenna properties, or only ask for them.
    pub can_set_antenna_properties: bool,
    /// The highest receive sensitivity of the reader, in dBm.
    pub max_receive_sensitivity: Option<i16>,
    /// Sensitivities relative to the highest one.
    pub receive_sensitivity_table: Vec<ReceiveSensitivityTableEntry>,
    /// The range of sensitivities of each antenna.
    pub per_antenna_receive_sensitivity_range: Vec<PerAntennaReceiveSensitivityRange>,
    /// The air protocols of each antenna.
    pub per_antenna_air_protocol_support: Vec<PerAntennaAirProtocolSupport>,
    /// The reader's general purpose inputs and outputs.
    pub gpio_support: GpioCapabilities,
    /// Whether the reader reports time as UTC, or as time since it started.
    pub has_utc_clock_capability: bool,
}

/// One entry of a reader's table of receive sensitivities.
#[derive(Debug, PartialEq, Eq)]
pub struct ReceiveSensitivityTableEntry {
    pub index: u16,
    /// The sensitivity in dB relative to the highest one, from 0 to 128.
    pub receive_sensitivity_value: i32,
}

/// The entries of the sensitivity table that an antenna can use.
#[derive(Debug, PartialEq, Eq)]
pub struct PerAntennaReceiveSensitivityRange {
    /// The antenna, counted from 1.
    pub antenna_id: u16,
    pub receive_sensitivity_index_min: u16,
    pub receive_sensitivity_index_max: u16,
}

/// The air protocols that an antenna can speak.
#[derive(Debug, PartialEq, Eq)]
pub struct PerAntennaAirProtocolSupport {
    /// The antenna, counted from 1.
    pub antenna_id: u16,
    pub air_protocols_supported: Vec<AirProtocol>,
}

/// How many general purpose inputs and outputs a reader has.
#[derive(Debug, PartialEq, Eq)]
pub struct GpioCapabilities {
    pub num_gpis: u16,
    pub num_gpos: u16,
}

/// What of the protocol a reader supports.
#[derive(Debug, PartialEq, Eq)]
pub struct LLRPCapabilities;

/// The radio regulations that a reader works under.
#[derive(Debug, PartialEq, Eq)]
pub struct RegulatoryCapabilities;

/// What of an air protocol a reader supports.
#[derive(Debug, PartialEq, Eq)]
pub struct AirProtocolLLRPCapabilities;

/// What a client answers when a reader asks it what to do with a tag.
#[derive(Debug, PartialEq, Eq)]
pub struct ClientRequestResponse;

/// The events that a reader is to report.
#[derive(Debug, PartialEq, Eq)]
pub struct ReaderEventNotificationSpec;

/// What is known of one antenna.
#[derive(Debug, PartialEq, Eq)]
pub struct AntennaProperties;

/// When a reader sends keep-alive messages.
#[derive(Debug, PartialEq, Eq)]
pub struct KeepAliveSpec;

/// The state to put a general purpose output in.
#[derive(Debug, PartialEq, Eq)]
pub struct GpoWriteData;

/// The state of a general purpose input.
#[derive(Debug, PartialEq, Eq)]
pub struct GpiPortCurrentState;

/// Whether a reader holds back events and reports after a connection is made.
#[derive(Debug, PartialEq, Eq)]
pub struct EventsAndReports;

} // verus!
