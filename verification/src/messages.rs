//! The messages of the protocol, each with its codec and the laws of its
//! format, and the dispatcher over all of them.

use vstd::prelude::*;
use crate::decoder::{Decoder, DecoderState};
use crate::encoder::{append_bytes, Encoder, EncoderState};
use crate::enumerations::{ConfigRequestedData, ReaderCapabilitiesRequestedData};
use crate::error::Error;
use crate::parameters::{
    AccessReportSpec, AccessSpec, AccessSpecView, AirProtocolLLRPCapabilities,
    AntennaConfiguration, AntennaProperties, ClientRequestResponse, CustomParameter,
    EventsAndReports, GeneralDeviceCapabilities, GpiPortCurrentState, GpoWriteData, KeepAliveSpec,
    LLRPCapabilities, LLRPStatus, LLRPStatusView, ReaderEventNotificationData,
    ReaderEventNotificationSpec, RegulatoryCapabilities, RfSurveyReport, RfSurveyReportView,
    RoReportSpec, RoSpec, RoSpecView, TagReportData, TagReportDataView,
};
use crate::value::{
    enum_fits, lemma_enum_front, parse_enum, Bits, LLRPEnumeration, LLRPMessage, LLRPValue,
};
use crate::wire::{lemma_concat_assoc, lemma_concat_empty, lemma_concat_front};

verus! {

/// Asks the reader which protocol versions it supports.
#[derive(Debug, PartialEq, Eq)]
pub struct GetSupportedVersion {}

impl DeepView for GetSupportedVersion {
    type V = GetSupportedVersion;

    open spec fn deep_view(&self) -> GetSupportedVersion {
        *self
    }
}

impl GetSupportedVersion {
    /// The bytes of the fields from the `k`-th on.
    #[verifier::opaque]
    pub open spec fn wire_from(v: GetSupportedVersion, k: nat) -> Seq<u8>
        decreases 0 - k,
    {
        {
            Seq::empty()
        }
    }

    /// The bytes of the fields, one field at a time.
    pub proof fn lemma_wire_from(v: GetSupportedVersion)
        ensures
            Self::wire_from(v, 0) == Seq::<u8>::empty(),
    {
        reveal(GetSupportedVersion::wire_from);
    }

    /// Whether the fields fit the format, each before the fields behind it.
    #[verifier::opaque]
    pub open spec fn fits(v: GetSupportedVersion) -> bool {
        true
    }

    /// The fields read in order, or the first error.
    #[verifier::opaque]
    pub open spec fn read_fields(s: DecoderState) -> Result<
        (GetSupportedVersion, DecoderState),
        Error,
    > {
        Ok((GetSupportedVersion {  }, s))
    }

    /// The state after the fields have been written in order.
    #[verifier::opaque]
    pub open spec fn write_fields(v: GetSupportedVersion, s: EncoderState) -> EncoderState {
        s
    }
}

impl LLRPMessage for GetSupportedVersion {
    const ID: u16 = 46;

    open spec fn parse(data: Seq<u8>) -> Result<(GetSupportedVersion, Seq<u8>), Error> {
        match Self::read_fields(DecoderState::start(data)) {
            Err(e) => Err(e),
            Ok((v, s)) => Ok((v, s.bytes)),
        }
    }

    open spec fn emit(v: GetSupportedVersion) -> Seq<u8> {
        Self::write_fields(v, EncoderState::start(Seq::empty())).bytes
    }

    open spec fn canonical(v: GetSupportedVersion) -> bool {
        Self::fits(v)
    }

    proof fn lemma_roundtrip(v: GetSupportedVersion) {
        reveal(GetSupportedVersion::fits);
        reveal(GetSupportedVersion::read_fields);
        reveal(GetSupportedVersion::write_fields);
        let s = EncoderState::start(Seq::<u8>::empty());
        GetSupportedVersion::lemma_wire_from(v);
        lemma_concat_empty(s.bytes);
        lemma_concat_front(Self::wire_from(v, 0));
        if Self::canonical(v) {
            GetSupportedVersion::lemma_wire_from(v);
        }
    }

    fn decode(data: &[u8]) -> (r: Result<(Self, &[u8]), Error>) {
        proof {
            reveal(GetSupportedVersion::read_fields);
        }
        let mut decoder = Decoder::new(data);
        let decoder = &mut decoder;
        Ok((GetSupportedVersion {   }, decoder.rest()))
    }

    fn encode(&self, buffer: &mut Vec<u8>) {
        proof {
            reveal(GetSupportedVersion::write_fields);
        }
        let mut encoder = Encoder::new(Vec::new());
        let encoder = &mut encoder;
        append_bytes(buffer, encoder.written());
    }

    fn id(&self) -> (id: u16) {
        46
    }
}

/// The reader's protocol versions.
#[derive(Debug, PartialEq, Eq)]
pub struct GetSupportedVersionResponse {
    /// The version in use on this connection.
    pub current_version: u8,
    /// The highest version the reader supports.
    pub supported_version: u8,
}

impl DeepView for GetSupportedVersionResponse {
    type V = GetSupportedVersionResponse;

    open spec fn deep_view(&self) -> GetSupportedVersionResponse {
        *self
    }
}

impl GetSupportedVersionResponse {
    /// The bytes of the fields from the `k`-th on.
    #[verifier::opaque]
    pub open spec fn wire_from(v: GetSupportedVersionResponse, k: nat) -> Seq<u8>
        decreases 2 - k,
    {
        if k == 0 {
            <u8 as LLRPValue>::wire(v.current_version) + Self::wire_from(v, 1)
        } else if k == 1 {
            <u8 as LLRPValue>::wire(v.supported_version) + Self::wire_from(v, 2)
        } else {
            Seq::empty()
        }
    }

    /// The bytes of the fields, one field at a time.
    pub proof fn lemma_wire_from(v: GetSupportedVersionResponse)
        ensures
            Self::wire_from(v, 0) == <u8 as LLRPValue>::wire(v.current_version)
                + Self::wire_from(v, 1),
            Self::wire_from(v, 1) == <u8 as LLRPValue>::wire(v.supported_version)
                + Self::wire_from(v, 2),
            Self::wire_from(v, 2) == Seq::<u8>::empty(),
    {
        reveal(GetSupportedVersionResponse::wire_from);
    }

    /// Whether the fields fit the format, each before the fields behind it.
    #[verifier::opaque]
    pub open spec fn fits(v: GetSupportedVersionResponse) -> bool {
        true
    }

    /// The fields read in order, or the first error.
    #[verifier::opaque]
    pub open spec fn read_fields(s: DecoderState) -> Result<
        (GetSupportedVersionResponse, DecoderState),
        Error,
    > {
        match <u8 as LLRPValue>::parse(s) {
            Err(e) => Err(e),
            Ok((current_version, s)) => match <u8 as LLRPValue>::parse(s) {
                Err(e) => Err(e),
                Ok((supported_version, s)) => Ok((GetSupportedVersionResponse { current_version, supported_version }, s)),
            },
        }
    }

    /// The state after the fields have been written in order.
    #[verifier::opaque]
    pub open spec fn write_fields(v: GetSupportedVersionResponse, s: EncoderState) -> EncoderState {
        let s = <u8 as LLRPValue>::emit(v.current_version, s);
        let s = <u8 as LLRPValue>::emit(v.supported_version, s);
        s
    }
}

impl LLRPMessage for GetSupportedVersionResponse {
    const ID: u16 = 56;

    open spec fn parse(data: Seq<u8>) -> Result<(GetSupportedVersionResponse, Seq<u8>), Error> {
        match Self::read_fields(DecoderState::start(data)) {
            Err(e) => Err(e),
            Ok((v, s)) => Ok((v, s.bytes)),
        }
    }

    open spec fn emit(v: GetSupportedVersionResponse) -> Seq<u8> {
        Self::write_fields(v, EncoderState::start(Seq::empty())).bytes
    }

    open spec fn canonical(v: GetSupportedVersionResponse) -> bool {
        Self::fits(v)
    }

    proof fn lemma_roundtrip(v: GetSupportedVersionResponse) {
        reveal(GetSupportedVersionResponse::fits);
        reveal(GetSupportedVersionResponse::read_fields);
        reveal(GetSupportedVersionResponse::write_fields);
        let s = EncoderState::start(Seq::<u8>::empty());
        GetSupportedVersionResponse::lemma_wire_from(v);
        <u8 as LLRPValue>::lemma_emit(v.current_version, s);
        let s1 = s.write_bytes(<u8 as LLRPValue>::wire(v.current_version));
        <u8 as LLRPValue>::lemma_emit(v.supported_version, s1);
        let s2 = s1.write_bytes(<u8 as LLRPValue>::wire(v.supported_version));
        lemma_concat_empty(s2.bytes);
        lemma_concat_assoc(
            s1.bytes,
            <u8 as LLRPValue>::wire(v.supported_version),
            GetSupportedVersionResponse::wire_from(v, 2),
        );
        lemma_concat_assoc(
            s.bytes,
            <u8 as LLRPValue>::wire(v.current_version),
            GetSupportedVersionResponse::wire_from(v, 1),
        );
        lemma_concat_front(Self::wire_from(v, 0));
        if Self::canonical(v) {
            GetSupportedVersionResponse::lemma_wire_from(v);
            assert(<u8 as LLRPValue>::parse(DecoderState::start(Self::wire_from(v, 0))) == Ok::<(u8, DecoderState), Error>((v.current_version, DecoderState::start(Self::wire_from(v, 1))))) by {
                <u8 as LLRPValue>::lemma_parse(v.current_version, Self::wire_from(v, 1));
            }
            assert(<u8 as LLRPValue>::parse(DecoderState::start(Self::wire_from(v, 1))) == Ok::<(u8, DecoderState), Error>((v.supported_version, DecoderState::start(Self::wire_from(v, 2))))) by {
                <u8 as LLRPValue>::lemma_parse(v.supported_version, Self::wire_from(v, 2));
            }
        }
    }

    fn decode(data: &[u8]) -> (r: Result<(Self, &[u8]), Error>) {
        proof {
            reveal(GetSupportedVersionResponse::read_fields);
        }
        let mut decoder = Decoder::new(data);
        let decoder = &mut decoder;
        let current_version = decoder.read::<u8>()?;
        let supported_version = decoder.read::<u8>()?;
        Ok((GetSupportedVersionResponse { current_version, supported_version }, decoder.rest()))
    }

    fn encode(&self, buffer: &mut Vec<u8>) {
        proof {
            reveal(GetSupportedVersionResponse::write_fields);
        }
        let mut encoder = Encoder::new(Vec::new());
        let encoder = &mut encoder;
        encoder.write(&self.current_version);
        encoder.write(&self.supported_version);
        append_bytes(buffer, encoder.written());
    }

    fn id(&self) -> (id: u16) {
        56
    }
}

/// Sets the protocol version of this connection.
#[derive(Debug, PartialEq, Eq)]
pub struct SetProtocolVersion {
    pub protocol_version: u8,
}

impl DeepView for SetProtocolVersion {
    type V = SetProtocolVersion;

    open spec fn deep_view(&self) -> SetProtocolVersion {
        *self
    }
}

impl SetProtocolVersion {
    /// The bytes of the fields from the `k`-th on.
    #[verifier::opaque]
    pub open spec fn wire_from(v: SetProtocolVersion, k: nat) -> Seq<u8>
        decreases 1 - k,
    {
        if k == 0 {
            <u8 as LLRPValue>::wire(v.protocol_version) + Self::wire_from(v, 1)
        } else {
            Seq::empty()
        }
    }

    /// The bytes of the fields, one field at a time.
    pub proof fn lemma_wire_from(v: SetProtocolVersion)
        ensures
            Self::wire_from(v, 0) == <u8 as LLRPValue>::wire(v.protocol_version)
                + Self::wire_from(v, 1),
            Self::wire_from(v, 1) == Seq::<u8>::empty(),
    {
        reveal(SetProtocolVersion::wire_from);
    }

    /// Whether the fields fit the format, each before the fields behind it.
    #[verifier::opaque]
    pub open spec fn fits(v: SetProtocolVersion) -> bool {
        true
    }

    /// The fields read in order, or the first error.
    #[verifier::opaque]
    pub open spec fn read_fields(s: DecoderState) -> Result<
        (SetProtocolVersion, DecoderState),
        Error,
    > {
        match <u8 as LLRPValue>::parse(s) {
            Err(e) => Err(e),
            Ok((protocol_version, s)) => Ok((SetProtocolVersion { protocol_version }, s)),
        }
    }

    /// The state after the fields have been written in order.
    #[verifier::opaque]
    pub open spec fn write_fields(v: SetProtocolVersion, s: EncoderState) -> EncoderState {
        let s = <u8 as LLRPValue>::emit(v.protocol_version, s);
        s
    }
}

impl LLRPMessage for SetProtocolVersion {
    const ID: u16 = 47;

    open spec fn parse(data: Seq<u8>) -> Result<(SetProtocolVersion, Seq<u8>), Error> {
        match Self::read_fields(DecoderState::start(data)) {
            Err(e) => Err(e),
            Ok((v, s)) => Ok((v, s.bytes)),
        }
    }

    open spec fn emit(v: SetProtocolVersion) -> Seq<u8> {
        Self::write_fields(v, EncoderState::start(Seq::empty())).bytes
    }

    open spec fn canonical(v: SetProtocolVersion) -> bool {
        Self::fits(v)
    }

    proof fn lemma_roundtrip(v: SetProtocolVersion) {
        reveal(SetProtocolVersion::fits);
        reveal(SetProtocolVersion::read_fields);
        reveal(SetProtocolVersion::write_fields);
        let s = EncoderState::start(Seq::<u8>::empty());
        SetProtocolVersion::lemma_wire_from(v);
        <u8 as LLRPValue>::lemma_emit(v.protocol_version, s);
        let s1 = s.write_bytes(<u8 as LLRPValue>::wire(v.protocol_version));
        lemma_concat_empty(s1.bytes);
        lemma_concat_assoc(
            s.bytes,
            <u8 as LLRPValue>::wire(v.protocol_version),
            SetProtocolVersion::wire_from(v, 1),
        );
        lemma_concat_front(Self::wire_from(v, 0));
        if Self::canonical(v) {
            SetProtocolVersion::lemma_wire_from(v);
            assert(<u8 as LLRPValue>::parse(DecoderState::start(Self::wire_from(v, 0))) == Ok::<(u8, DecoderState), Error>((v.protocol_version, DecoderState::start(Self::wire_from(v, 1))))) by {
                <u8 as LLRPValue>::lemma_parse(v.protocol_version, Self::wire_from(v, 1));
            }
        }
    }

    fn decode(data: &[u8]) -> (r: Result<(Self, &[u8]), Error>) {
        proof {
            reveal(SetProtocolVersion::read_fields);
        }
        let mut decoder = Decoder::new(data);
        let decoder = &mut decoder;
        let protocol_version = decoder.read::<u8>()?;
        Ok((SetProtocolVersion { protocol_version }, decoder.rest()))
    }

    fn encode(&self, buffer: &mut Vec<u8>) {
        proof {
            reveal(SetProtocolVersion::write_fields);
        }
        let mut encoder = Encoder::new(Vec::new());
        let encoder = &mut encoder;
        encoder.write(&self.protocol_version);
        append_bytes(buffer, encoder.written());
    }

    fn id(&self) -> (id: u16) {
        47
    }
}

/// Answers `SetProtocolVersion`.
#[derive(Debug, PartialEq, Eq)]
pub struct SetProtocolVersionResponse {
    /// The reader's status.
    pub status: LLRPStatus,
}

/// The model of a `SetProtocolVersionResponse`.
pub struct SetProtocolVersionResponseView {
    pub status: LLRPStatusView,
}

impl DeepView for SetProtocolVersionResponse {
    type V = SetProtocolVersionResponseView;

    open spec fn deep_view(&self) -> SetProtocolVersionResponseView {
        SetProtocolVersionResponseView {
            status: self.status.deep_view(),
        }
    }
}

impl SetProtocolVersionResponse {
    /// The bytes of the fields from the `k`-th on.
    #[verifier::opaque]
    pub open spec fn wire_from(v: SetProtocolVersionResponseView, k: nat) -> Seq<u8>
        decreases 1 - k,
    {
        if k == 0 {
            <LLRPStatus as LLRPValue>::wire(v.status) + Self::wire_from(v, 1)
        } else {
            Seq::empty()
        }
    }

    /// The bytes of the fields, one field at a time.
    pub proof fn lemma_wire_from(v: SetProtocolVersionResponseView)
        ensures
            Self::wire_from(v, 0) == <LLRPStatus as LLRPValue>::wire(v.status)
                + Self::wire_from(v, 1),
            Self::wire_from(v, 1) == Seq::<u8>::empty(),
    {
        reveal(SetProtocolVersionResponse::wire_from);
    }

    /// Whether the fields fit the format, each before the fields behind it.
    #[verifier::opaque]
    pub open spec fn fits(v: SetProtocolVersionResponseView) -> bool {
        &&& <LLRPStatus as LLRPValue>::canonical(v.status)
    }

    /// The fields read in order, or the first error.
    #[verifier::opaque]
    pub open spec fn read_fields(s: DecoderState) -> Result<
        (SetProtocolVersionResponseView, DecoderState),
        Error,
    > {
        match <LLRPStatus as LLRPValue>::parse(s) {
            Err(e) => Err(e),
            Ok((status, s)) => Ok((SetProtocolVersionResponseView { status }, s)),
        }
    }

    /// The state after the fields have been written in order.
    #[verifier::opaque]
    pub open spec fn write_fields(v: SetProtocolVersionResponseView, s: EncoderState) -> EncoderState {
        let s = <LLRPStatus as LLRPValue>::emit(v.status, s);
        s
    }
}

impl LLRPMessage for SetProtocolVersionResponse {
    const ID: u16 = 57;

    open spec fn parse(data: Seq<u8>) -> Result<(SetProtocolVersionResponseView, Seq<u8>), Error> {
        match Self::read_fields(DecoderState::start(data)) {
            Err(e) => Err(e),
            Ok((v, s)) => Ok((v, s.bytes)),
        }
    }

    open spec fn emit(v: SetProtocolVersionResponseView) -> Seq<u8> {
        Self::write_fields(v, EncoderState::start(Seq::empty())).bytes
    }

    open spec fn canonical(v: SetProtocolVersionResponseView) -> bool {
        Self::fits(v)
    }

    proof fn lemma_roundtrip(v: SetProtocolVersionResponseView) {
        reveal(SetProtocolVersionResponse::fits);
        reveal(SetProtocolVersionResponse::read_fields);
        reveal(SetProtocolVersionResponse::write_fields);
        let s = EncoderState::start(Seq::<u8>::empty());
        SetProtocolVersionResponse::lemma_wire_from(v);
        <LLRPStatus as LLRPValue>::lemma_emit(v.status, s);
        let s1 = s.write_bytes(<LLRPStatus as LLRPValue>::wire(v.status));
        lemma_concat_empty(s1.bytes);
        lemma_concat_assoc(
            s.bytes,
            <LLRPStatus as LLRPValue>::wire(v.status),
            SetProtocolVersionResponse::wire_from(v, 1),
        );
        lemma_concat_front(Self::wire_from(v, 0));
        if Self::canonical(v) {
            SetProtocolVersionResponse::lemma_wire_from(v);
            assert(<LLRPStatus as LLRPValue>::parse(DecoderState::start(Self::wire_from(v, 0))) == Ok::<(LLRPStatusView, DecoderState), Error>((v.status, DecoderState::start(Self::wire_from(v, 1))))) by {
                <LLRPStatus as LLRPValue>::lemma_parse(v.status, Self::wire_from(v, 1));
            }
        }
    }

    fn decode(data: &[u8]) -> (r: Result<(Self, &[u8]), Error>) {
        proof {
            reveal(SetProtocolVersionResponse::read_fields);
        }
        let mut decoder = Decoder::new(data);
        let decoder = &mut decoder;
        let status = decoder.read::<LLRPStatus>()?;
        Ok((SetProtocolVersionResponse { status }, decoder.rest()))
    }

    fn encode(&self, buffer: &mut Vec<u8>) {
        proof {
            reveal(SetProtocolVersionResponse::write_fields);
        }
        let mut encoder = Encoder::new(Vec::new());
        let encoder = &mut encoder;
        encoder.write(&self.status);
        append_bytes(buffer, encoder.written());
    }

    fn id(&self) -> (id: u16) {
        57
    }
}

/// Asks the reader what it can do.
#[derive(Debug, PartialEq, Eq)]
pub struct GetReaderCapabilities {
    /// All capabilities, or one group of them.
    pub requested_data: ReaderCapabilitiesRequestedData,
    pub custom: Vec<CustomParameter>,
}

/// The model of a `GetReaderCapabilities`.
pub struct GetReaderCapabilitiesView {
    pub requested_data: ReaderCapabilitiesRequestedData,
    pub custom: Seq<CustomParameter>,
}

impl DeepView for GetReaderCapabilities {
    type V = GetReaderCapabilitiesView;

    open spec fn deep_view(&self) -> GetReaderCapabilitiesView {
        GetReaderCapabilitiesView {
            requested_data: self.requested_data,
            custom: self.custom.deep_view(),
        }
    }
}

impl GetReaderCapabilities {
    /// The bytes of the fields from the `k`-th on.
    #[verifier::opaque]
    pub open spec fn wire_from(v: GetReaderCapabilitiesView, k: nat) -> Seq<u8>
        decreases 2 - k,
    {
        if k == 0 {
            <u8 as LLRPValue>::wire(<u8 as Bits>::of_bits(v.requested_data.value()))
                + Self::wire_from(v, 1)
        } else if k == 1 {
            <Vec<CustomParameter> as LLRPValue>::wire(v.custom) + Self::wire_from(v, 2)
        } else {
            Seq::empty()
        }
    }

    /// The bytes of the fields, one field at a time.
    pub proof fn lemma_wire_from(v: GetReaderCapabilitiesView)
        ensures
            Self::wire_from(v, 0) == <u8 as LLRPValue>::wire(<u8 as Bits>::of_bits(v.requested_data.value()))
                + Self::wire_from(v, 1),
            Self::wire_from(v, 1) == <Vec<CustomParameter> as LLRPValue>::wire(v.custom)
                + Self::wire_from(v, 2),
            Self::wire_from(v, 2) == Seq::<u8>::empty(),
    {
        reveal(GetReaderCapabilities::wire_from);
    }

    /// Whether the fields fit the format, each before the fields behind it.
    #[verifier::opaque]
    pub open spec fn fits(v: GetReaderCapabilitiesView) -> bool {
        &&& enum_fits::<ReaderCapabilitiesRequestedData, u8>(v.requested_data)
        &&& <Vec<CustomParameter> as LLRPValue>::canonical(v.custom)
        &&& <Vec<CustomParameter> as LLRPValue>::follow_ok(v.custom, Self::wire_from(v, 2))
    }

    /// The fields read in order, or the first error.
    #[verifier::opaque]
    pub open spec fn read_fields(s: DecoderState) -> Result<
        (GetReaderCapabilitiesView, DecoderState),
        Error,
    > {
        match parse_enum::<ReaderCapabilitiesRequestedData, u8>(s) {
            Err(e) => Err(e),
            Ok((requested_data, s)) => match <Vec<CustomParameter> as LLRPValue>::parse(s) {
                Err(e) => Err(e),
                Ok((custom, s)) => Ok((GetReaderCapabilitiesView { requested_data, custom }, s)),
            },
        }
    }

    /// The state after the fields have been written in order.
    #[verifier::opaque]
    pub open spec fn write_fields(v: GetReaderCapabilitiesView, s: EncoderState) -> EncoderState {
        let s = <u8 as LLRPValue>::emit(<u8 as Bits>::of_bits(v.requested_data.value()), s);
        let s = <Vec<CustomParameter> as LLRPValue>::emit(v.custom, s);
        s
    }
}

impl LLRPMessage for GetReaderCapabilities {
    const ID: u16 = 1;

    open spec fn parse(data: Seq<u8>) -> Result<(GetReaderCapabilitiesView, Seq<u8>), Error> {
        match Self::read_fields(DecoderState::start(data)) {
            Err(e) => Err(e),
            Ok((v, s)) => Ok((v, s.bytes)),
        }
    }

    open spec fn emit(v: GetReaderCapabilitiesView) -> Seq<u8> {
        Self::write_fields(v, EncoderState::start(Seq::empty())).bytes
    }

    open spec fn canonical(v: GetReaderCapabilitiesView) -> bool {
        Self::fits(v)
    }

    proof fn lemma_roundtrip(v: GetReaderCapabilitiesView) {
        reveal(GetReaderCapabilities::fits);
        reveal(GetReaderCapabilities::read_fields);
        reveal(GetReaderCapabilities::write_fields);
        let s = EncoderState::start(Seq::<u8>::empty());
        GetReaderCapabilities::lemma_wire_from(v);
        <u8 as LLRPValue>::lemma_emit(<u8 as Bits>::of_bits(v.requested_data.value()), s);
        let s1 = s.write_bytes(
            <u8 as LLRPValue>::wire(<u8 as Bits>::of_bits(v.requested_data.value())),
        );
        <Vec<CustomParameter> as LLRPValue>::lemma_emit(v.custom, s1);
        let s2 = s1.write_bytes(<Vec<CustomParameter> as LLRPValue>::wire(v.custom));
        lemma_concat_empty(s2.bytes);
        lemma_concat_assoc(
            s1.bytes,
            <Vec<CustomParameter> as LLRPValue>::wire(v.custom),
            GetReaderCapabilities::wire_from(v, 2),
        );
        lemma_concat_assoc(
            s.bytes,
            <u8 as LLRPValue>::wire(<u8 as Bits>::of_bits(v.requested_data.value())),
            GetReaderCapabilities::wire_from(v, 1),
        );
        lemma_concat_front(Self::wire_from(v, 0));
        if Self::canonical(v) {
            GetReaderCapabilities::lemma_wire_from(v);
            assert(parse_enum::<ReaderCapabilitiesRequestedData, u8>(DecoderState::start(Self::wire_from(v, 0))) == Ok::<(ReaderCapabilitiesRequestedData, DecoderState), Error>((v.requested_data, DecoderState::start(Self::wire_from(v, 1))))) by {
                lemma_enum_front::<ReaderCapabilitiesRequestedData, u8>(
                    v.requested_data,
                    Self::wire_from(v, 1),
                );
            }
            assert(<Vec<CustomParameter> as LLRPValue>::parse(DecoderState::start(Self::wire_from(v, 1))) == Ok::<(Seq<CustomParameter>, DecoderState), Error>((v.custom, DecoderState::start(Self::wire_from(v, 2))))) by {
                <Vec<CustomParameter> as LLRPValue>::lemma_parse(v.custom, Self::wire_from(v, 2));
            }
        }
    }

    fn decode(data: &[u8]) -> (r: Result<(Self, &[u8]), Error>) {
        proof {
            reveal(GetReaderCapabilities::read_fields);
        }
        let mut decoder = Decoder::new(data);
        let decoder = &mut decoder;
        let requested_data = decoder.read_enum::<ReaderCapabilitiesRequestedData, u8>()?;
        let custom = decoder.read::<Vec<CustomParameter>>()?;
        Ok((GetReaderCapabilities { requested_data, custom }, decoder.rest()))
    }

    fn encode(&self, buffer: &mut Vec<u8>) {
        proof {
            reveal(GetReaderCapabilities::write_fields);
        }
        let mut encoder = Encoder::new(Vec::new());
        let encoder = &mut encoder;
        encoder.write_enum::<ReaderCapabilitiesRequestedData, u8>(&self.requested_data);
        encoder.write(&self.custom);
        append_bytes(buffer, encoder.written());
    }

    fn id(&self) -> (id: u16) {
        1
    }
}

/// Hands a reader operation to the reader.
#[derive(Debug, PartialEq, Eq)]
pub struct AddRoSpec {
    pub ro_spec: RoSpec,
}

/// The model of a `AddRoSpec`.
pub struct AddRoSpecView {
    pub ro_spec: RoSpecView,
}

impl DeepView for AddRoSpec {
    type V = AddRoSpecView;

    open spec fn deep_view(&self) -> AddRoSpecView {
        AddRoSpecView {
            ro_spec: self.ro_spec.deep_view(),
        }
    }
}

impl AddRoSpec {
    /// The bytes of the fields from the `k`-th on.
    #[verifier::opaque]
    pub open spec fn wire_from(v: AddRoSpecView, k: nat) -> Seq<u8>
        decreases 1 - k,
    {
        if k == 0 {
            <RoSpec as LLRPValue>::wire(v.ro_spec) + Self::wire_from(v, 1)
        } else {
            Seq::empty()
        }
    }

    /// The bytes of the fields, one field at a time.
    pub proof fn lemma_wire_from(v: AddRoSpecView)
        ensures
            Self::wire_from(v, 0) == <RoSpec as LLRPValue>::wire(v.ro_spec) + Self::wire_from(v, 1),
            Self::wire_from(v, 1) == Seq::<u8>::empty(),
    {
        reveal(AddRoSpec::wire_from);
    }

    /// Whether the fields fit the format, each before the fields behind it.
    #[verifier::opaque]
    pub open spec fn fits(v: AddRoSpecView) -> bool {
        &&& <RoSpec as LLRPValue>::canonical(v.ro_spec)
    }

    /// The fields read in order, or the first error.
    #[verifier::opaque]
    pub open spec fn read_fields(s: DecoderState) -> Result<(AddRoSpecView, DecoderState), Error> {
        match <RoSpec as LLRPValue>::parse(s) {
            Err(e) => Err(e),
            Ok((ro_spec, s)) => Ok((AddRoSpecView { ro_spec }, s)),
        }
    }

    /// The state after the fields have been written in order.
    #[verifier::opaque]
    pub open spec fn write_fields(v: AddRoSpecView, s: EncoderState) -> EncoderState {
        let s = <RoSpec as LLRPValue>::emit(v.ro_spec, s);
        s
    }
}

impl LLRPMessage for AddRoSpec {
    const ID: u16 = 20;

    open spec fn parse(data: Seq<u8>) -> Result<(AddRoSpecView, Seq<u8>), Error> {
        match Self::read_fields(DecoderState::start(data)) {
            Err(e) => Err(e),
            Ok((v, s)) => Ok((v, s.bytes)),
        }
    }

    open spec fn emit(v: AddRoSpecView) -> Seq<u8> {
        Self::write_fields(v, EncoderState::start(Seq::empty())).bytes
    }

    open spec fn canonical(v: AddRoSpecView) -> bool {
        Self::fits(v)
    }

    proof fn lemma_roundtrip(v: AddRoSpecView) {
        reveal(AddRoSpec::fits);
        reveal(AddRoSpec::read_fields);
        reveal(AddRoSpec::write_fields);
        let s = EncoderState::start(Seq::<u8>::empty());
        AddRoSpec::lemma_wire_from(v);
        <RoSpec as LLRPValue>::lemma_emit(v.ro_spec, s);
        let s1 = s.write_bytes(<RoSpec as LLRPValue>::wire(v.ro_spec));
        lemma_concat_empty(s1.bytes);
        lemma_concat_assoc(
            s.bytes,
            <RoSpec as LLRPValue>::wire(v.ro_spec),
            AddRoSpec::wire_from(v, 1),
        );
        lemma_concat_front(Self::wire_from(v, 0));
        if Self::canonical(v) {
            AddRoSpec::lemma_wire_from(v);
            assert(<RoSpec as LLRPValue>::parse(DecoderState::start(Self::wire_from(v, 0))) == Ok::<(RoSpecView, DecoderState), Error>((v.ro_spec, DecoderState::start(Self::wire_from(v, 1))))) by {
                <RoSpec as LLRPValue>::lemma_parse(v.ro_spec, Self::wire_from(v, 1));
            }
        }
    }

    fn decode(data: &[u8]) -> (r: Result<(Self, &[u8]), Error>) {
        proof {
            reveal(AddRoSpec::read_fields);
        }
        let mut decoder = Decoder::new(data);
        let decoder = &mut decoder;
        let ro_spec = decoder.read::<RoSpec>()?;
        Ok((AddRoSpec { ro_spec }, decoder.rest()))
    }

    fn encode(&self, buffer: &mut Vec<u8>) {
        proof {
            reveal(AddRoSpec::write_fields);
        }
        let mut encoder = Encoder::new(Vec::new());
        let encoder = &mut encoder;
        encoder.write(&self.ro_spec);
        append_bytes(buffer, encoder.written());
    }

    fn id(&self) -> (id: u16) {
        20
    }
}

/// Answers `AddRoSpec`.
#[derive(Debug, PartialEq, Eq)]
pub struct AddRoSpecResponse {
    /// The reader's status.
    pub status: LLRPStatus,
}

/// The model of a `AddRoSpecResponse`.
pub struct AddRoSpecResponseView {
    pub status: LLRPStatusView,
}

impl DeepView for AddRoSpecResponse {
    type V = AddRoSpecResponseView;

    open spec fn deep_view(&self) -> AddRoSpecResponseView {
        AddRoSpecResponseView {
            status: self.status.deep_view(),
        }
    }
}

impl AddRoSpecResponse {
    /// The bytes of the fields from the `k`-th on.
    #[verifier::opaque]
    pub open spec fn wire_from(v: AddRoSpecResponseView, k: nat) -> Seq<u8>
        decreases 1 - k,
    {
        if k == 0 {
            <LLRPStatus as LLRPValue>::wire(v.status) + Self::wire_from(v, 1)
        } else {
            Seq::empty()
        }
    }

    /// The bytes of the fields, one field at a time.
    pub proof fn lemma_wire_from(v: AddRoSpecResponseView)
        ensures
            Self::wire_from(v, 0) == <LLRPStatus as LLRPValue>::wire(v.status)
                + Self::wire_from(v, 1),
            Self::wire_from(v, 1) == Seq::<u8>::empty(),
    {
        reveal(AddRoSpecResponse::wire_from);
    }

    /// Whether the fields fit the format, each before the fields behind it.
    #[verifier::opaque]
    pub open spec fn fits(v: AddRoSpecResponseView) -> bool {
        &&& <LLRPStatus as LLRPValue>::canonical(v.status)
    }

    /// The fields read in order, or the first error.
    #[verifier::opaque]
    pub open spec fn read_fields(s: DecoderState) -> Result<
        (AddRoSpecResponseView, DecoderState),
        Error,
    > {
        match <LLRPStatus as LLRPValue>::parse(s) {
            Err(e) => Err(e),
            Ok((status, s)) => Ok((AddRoSpecResponseView { status }, s)),
        }
    }

    /// The state after the fields have been written in order.
    #[verifier::opaque]
    pub open spec fn write_fields(v: AddRoSpecResponseView, s: EncoderState) -> EncoderState {
        let s = <LLRPStatus as LLRPValue>::emit(v.status, s);
        s
    }
}

impl LLRPMessage for AddRoSpecResponse {
    const ID: u16 = 30;

    open spec fn parse(data: Seq<u8>) -> Result<(AddRoSpecResponseView, Seq<u8>), Error> {
        match Self::read_fields(DecoderState::start(data)) {
            Err(e) => Err(e),
            Ok((v, s)) => Ok((v, s.bytes)),
        }
    }

    open spec fn emit(v: AddRoSpecResponseView) -> Seq<u8> {
        Self::write_fields(v, EncoderState::start(Seq::empty())).bytes
    }

    open spec fn canonical(v: AddRoSpecResponseView) -> bool {
        Self::fits(v)
    }

    proof fn lemma_roundtrip(v: AddRoSpecResponseView) {
        reveal(AddRoSpecResponse::fits);
        reveal(AddRoSpecResponse::read_fields);
        reveal(AddRoSpecResponse::write_fields);
        let s = EncoderState::start(Seq::<u8>::empty());
        AddRoSpecResponse::lemma_wire_from(v);
        <LLRPStatus as LLRPValue>::lemma_emit(v.status, s);
        let s1 = s.write_bytes(<LLRPStatus as LLRPValue>::wire(v.status));
        lemma_concat_empty(s1.bytes);
        lemma_concat_assoc(
            s.bytes,
            <LLRPStatus as LLRPValue>::wire(v.status),
            AddRoSpecResponse::wire_from(v, 1),
        );
        lemma_concat_front(Self::wire_from(v, 0));
        if Self::canonical(v) {
            AddRoSpecResponse::lemma_wire_from(v);
            assert(<LLRPStatus as LLRPValue>::parse(DecoderState::start(Self::wire_from(v, 0))) == Ok::<(LLRPStatusView, DecoderState), Error>((v.status, DecoderState::start(Self::wire_from(v, 1))))) by {
                <LLRPStatus as LLRPValue>::lemma_parse(v.status, Self::wire_from(v, 1));
            }
        }
    }

    fn decode(data: &[u8]) -> (r: Result<(Self, &[u8]), Error>) {
        proof {
            reveal(AddRoSpecResponse::read_fields);
        }
        let mut decoder = Decoder::new(data);
        let decoder = &mut decoder;
        let status = decoder.read::<LLRPStatus>()?;
        Ok((AddRoSpecResponse { status }, decoder.rest()))
    }

    fn encode(&self, buffer: &mut Vec<u8>) {
        proof {
            reveal(AddRoSpecResponse::write_fields);
        }
        let mut encoder = Encoder::new(Vec::new());
        let encoder = &mut encoder;
        encoder.write(&self.status);
        append_bytes(buffer, encoder.written());
    }

    fn id(&self) -> (id: u16) {
        30
    }
}

/// Deletes a reader operation.
#[derive(Debug, PartialEq, Eq)]
pub struct DeleteRoSpec {
    /// The operation to delete; 0 for all.
    pub ro_spec_id: u32,
}

impl DeepView for DeleteRoSpec {
    type V = DeleteRoSpec;

    open spec fn deep_view(&self) -> DeleteRoSpec {
        *self
    }
}

impl DeleteRoSpec {
    /// The bytes of the fields from the `k`-th on.
    #[verifier::opaque]
    pub open spec fn wire_from(v: DeleteRoSpec, k: nat) -> Seq<u8>
        decreases 1 - k,
    {
        if k == 0 {
            <u32 as LLRPValue>::wire(v.ro_spec_id) + Self::wire_from(v, 1)
        } else {
            Seq::empty()
        }
    }

    /// The bytes of the fields, one field at a time.
    pub proof fn lemma_wire_from(v: DeleteRoSpec)
        ensures
            Self::wire_from(v, 0) == <u32 as LLRPValue>::wire(v.ro_spec_id) + Self::wire_from(v, 1),
            Self::wire_from(v, 1) == Seq::<u8>::empty(),
    {
        reveal(DeleteRoSpec::wire_from);
    }

    /// Whether the fields fit the format, each before the fields behind it.
    #[verifier::opaque]
    pub open spec fn fits(v: DeleteRoSpec) -> bool {
        true
    }

    /// The fields read in order, or the first error.
    #[verifier::opaque]
    pub open spec fn read_fields(s: DecoderState) -> Result<(DeleteRoSpec, DecoderState), Error> {
        match <u32 as LLRPValue>::parse(s) {
            Err(e) => Err(e),
            Ok((ro_spec_id, s)) => Ok((DeleteRoSpec { ro_spec_id }, s)),
        }
    }

    /// The state after the fields have been written in order.
    #[verifier::opaque]
    pub open spec fn write_fields(v: DeleteRoSpec, s: EncoderState) -> EncoderState {
        let s = <u32 as LLRPValue>::emit(v.ro_spec_id, s);
        s
    }
}

impl LLRPMessage for DeleteRoSpec {
    const ID: u16 = 21;

    open spec fn parse(data: Seq<u8>) -> Result<(DeleteRoSpec, Seq<u8>), Error> {
        match Self::read_fields(DecoderState::start(data)) {
            Err(e) => Err(e),
            Ok((v, s)) => Ok((v, s.bytes)),
        }
    }

    open spec fn emit(v: DeleteRoSpec) -> Seq<u8> {
        Self::write_fields(v, EncoderState::start(Seq::empty())).bytes
    }

    open spec fn canonical(v: DeleteRoSpec) -> bool {
        Self::fits(v)
    }

    proof fn lemma_roundtrip(v: DeleteRoSpec) {
        reveal(DeleteRoSpec::fits);
        reveal(DeleteRoSpec::read_fields);
        reveal(DeleteRoSpec::write_fields);
        let s = EncoderState::start(Seq::<u8>::empty());
        DeleteRoSpec::lemma_wire_from(v);
        <u32 as LLRPValue>::lemma_emit(v.ro_spec_id, s);
        let s1 = s.write_bytes(<u32 as LLRPValue>::wire(v.ro_spec_id));
        lemma_concat_empty(s1.bytes);
        lemma_concat_assoc(
            s.bytes,
            <u32 as LLRPValue>::wire(v.ro_spec_id),
            DeleteRoSpec::wire_from(v, 1),
        );
        lemma_concat_front(Self::wire_from(v, 0));
        if Self::canonical(v) {
            DeleteRoSpec::lemma_wire_from(v);
            assert(<u32 as LLRPValue>::parse(DecoderState::start(Self::wire_from(v, 0))) == Ok::<(u32, DecoderState), Error>((v.ro_spec_id, DecoderState::start(Self::wire_from(v, 1))))) by {
                <u32 as LLRPValue>::lemma_parse(v.ro_spec_id, Self::wire_from(v, 1));
            }
        }
    }

    fn decode(data: &[u8]) -> (r: Result<(Self, &[u8]), Error>) {
        proof {
            reveal(DeleteRoSpec::read_fields);
        }
        let mut decoder = Decoder::new(data);
        let decoder = &mut decoder;
        let ro_spec_id = decoder.read::<u32>()?;
        Ok((DeleteRoSpec { ro_spec_id }, decoder.rest()))
    }

    fn encode(&self, buffer: &mut Vec<u8>) {
        proof {
            reveal(DeleteRoSpec::write_fields);
        }
        let mut encoder = Encoder::new(Vec::new());
        let encoder = &mut encoder;
        encoder.write(&self.ro_spec_id);
        append_bytes(buffer, encoder.written());
    }

    fn id(&self) -> (id: u16) {
        21
    }
}

/// Answers `DeleteRoSpec`.
#[derive(Debug, PartialEq, Eq)]
pub struct DeleteRoSpecResponse {
    /// The reader's status.
    pub status: LLRPStatus,
}

/// The model of a `DeleteRoSpecResponse`.
pub struct DeleteRoSpecResponseView {
    pub status: LLRPStatusView,
}

impl DeepView for DeleteRoSpecResponse {
    type V = DeleteRoSpecResponseView;

    open spec fn deep_view(&self) -> DeleteRoSpecResponseView {
        DeleteRoSpecResponseView {
            status: self.status.deep_view(),
        }
    }
}

impl DeleteRoSpecResponse {
    /// The bytes of the fields from the `k`-th on.
    #[verifier::opaque]
    pub open spec fn wire_from(v: DeleteRoSpecResponseView, k: nat) -> Seq<u8>
        decreases 1 - k,
    {
        if k == 0 {
            <LLRPStatus as LLRPValue>::wire(v.status) + Self::wire_from(v, 1)
        } else {
            Seq::empty()
        }
    }

    /// The bytes of the fields, one field at a time.
    pub proof fn lemma_wire_from(v: DeleteRoSpecResponseView)
        ensures
            Self::wire_from(v, 0) == <LLRPStatus as LLRPValue>::wire(v.status)
                + Self::wire_from(v, 1),
            Self::wire_from(v, 1) == Seq::<u8>::empty(),
    {
        reveal(DeleteRoSpecResponse::wire_from);
    }

    /// Whether the fields fit the format, each before the fields behind it.
    #[verifier::opaque]
    pub open spec fn fits(v: DeleteRoSpecResponseView) -> bool {
        &&& <LLRPStatus as LLRPValue>::canonical(v.status)
    }

    /// The fields read in order, or the first error.
    #[verifier::opaque]
    pub open spec fn read_fields(s: DecoderState) -> Result<
        (DeleteRoSpecResponseView, DecoderState),
        Error,
    > {
        match <LLRPStatus as LLRPValue>::parse(s) {
            Err(e) => Err(e),
            Ok((status, s)) => Ok((DeleteRoSpecResponseView { status }, s)),
        }
    }

    /// The state after the fields have been written in order.
    #[verifier::opaque]
    pub open spec fn write_fields(v: DeleteRoSpecResponseView, s: EncoderState) -> EncoderState {
        let s = <LLRPStatus as LLRPValue>::emit(v.status, s);
        s
    }
}

impl LLRPMessage for DeleteRoSpecResponse {
    const ID: u16 = 31;

    open spec fn parse(data: Seq<u8>) -> Result<(DeleteRoSpecResponseView, Seq<u8>), Error> {
        match Self::read_fields(DecoderState::start(data)) {
            Err(e) => Err(e),
            Ok((v, s)) => Ok((v, s.bytes)),
        }
    }

    open spec fn emit(v: DeleteRoSpecResponseView) -> Seq<u8> {
        Self::write_fields(v, EncoderState::start(Seq::empty())).bytes
    }

    open spec fn canonical(v: DeleteRoSpecResponseView) -> bool {
        Self::fits(v)
    }

    proof fn lemma_roundtrip(v: DeleteRoSpecResponseView) {
        reveal(DeleteRoSpecResponse::fits);
        reveal(DeleteRoSpecResponse::read_fields);
        reveal(DeleteRoSpecResponse::write_fields);
        let s = EncoderState::start(Seq::<u8>::empty());
        DeleteRoSpecResponse::lemma_wire_from(v);
        <LLRPStatus as LLRPValue>::lemma_emit(v.status, s);
        let s1 = s.write_bytes(<LLRPStatus as LLRPValue>::wire(v.status));
        lemma_concat_empty(s1.bytes);
        lemma_concat_assoc(
            s.bytes,
            <LLRPStatus as LLRPValue>::wire(v.status),
            DeleteRoSpecResponse::wire_from(v, 1),
        );
        lemma_concat_front(Self::wire_from(v, 0));
        if Self::canonical(v) {
            DeleteRoSpecResponse::lemma_wire_from(v);
            assert(<LLRPStatus as LLRPValue>::parse(DecoderState::start(Self::wire_from(v, 0))) == Ok::<(LLRPStatusView, DecoderState), Error>((v.status, DecoderState::start(Self::wire_from(v, 1))))) by {
                <LLRPStatus as LLRPValue>::lemma_parse(v.status, Self::wire_from(v, 1));
            }
        }
    }

    fn decode(data: &[u8]) -> (r: Result<(Self, &[u8]), Error>) {
        proof {
            reveal(DeleteRoSpecResponse::read_fields);
        }
        let mut decoder = Decoder::new(data);
        let decoder = &mut decoder;
        let status = decoder.read::<LLRPStatus>()?;
        Ok((DeleteRoSpecResponse { status }, decoder.rest()))
    }

    fn encode(&self, buffer: &mut Vec<u8>) {
        proof {
            reveal(DeleteRoSpecResponse::write_fields);
        }
        let mut encoder = Encoder::new(Vec::new());
        let encoder = &mut encoder;
        encoder.write(&self.status);
        append_bytes(buffer, encoder.written());
    }

    fn id(&self) -> (id: u16) {
        31
    }
}

/// Starts an enabled reader operation.
#[derive(Debug, PartialEq, Eq)]
pub struct StartRoSpec {
    /// The operation to start; never 0.
    pub ro_spec_id: u32,
}

impl DeepView for StartRoSpec {
    type V = StartRoSpec;

    open spec fn deep_view(&self) -> StartRoSpec {
        *self
    }
}

impl StartRoSpec {
    /// The bytes of the fields from the `k`-th on.
    #[verifier::opaque]
    pub open spec fn wire_from(v: StartRoSpec, k: nat) -> Seq<u8>
        decreases 1 - k,
    {
        if k == 0 {
            <u32 as LLRPValue>::wire(v.ro_spec_id) + Self::wire_from(v, 1)
        } else {
            Seq::empty()
        }
    }

    /// The bytes of the fields, one field at a time.
    pub proof fn lemma_wire_from(v: StartRoSpec)
        ensures
            Self::wire_from(v, 0) == <u32 as LLRPValue>::wire(v.ro_spec_id) + Self::wire_from(v, 1),
            Self::wire_from(v, 1) == Seq::<u8>::empty(),
    {
        reveal(StartRoSpec::wire_from);
    }

    /// Whether the fields fit the format, each before the fields behind it.
    #[verifier::opaque]
    pub open spec fn fits(v: StartRoSpec) -> bool {
        true
    }

    /// The fields read in order, or the first error.
    #[verifier::opaque]
    pub open spec fn read_fields(s: DecoderState) -> Result<(StartRoSpec, DecoderState), Error> {
        match <u32 as LLRPValue>::parse(s) {
            Err(e) => Err(e),
            Ok((ro_spec_id, s)) => Ok((StartRoSpec { ro_spec_id }, s)),
        }
    }

    /// The state after the fields have been written in order.
    #[verifier::opaque]
    pub open spec fn write_fields(v: StartRoSpec, s: EncoderState) -> EncoderState {
        let s = <u32 as LLRPValue>::emit(v.ro_spec_id, s);
        s
    }
}

impl LLRPMessage for StartRoSpec {
    const ID: u16 = 22;

    open spec fn parse(data: Seq<u8>) -> Result<(StartRoSpec, Seq<u8>), Error> {
        match Self::read_fields(DecoderState::start(data)) {
            Err(e) => Err(e),
            Ok((v, s)) => Ok((v, s.bytes)),
        }
    }

    open spec fn emit(v: StartRoSpec) -> Seq<u8> {
        Self::write_fields(v, EncoderState::start(Seq::empty())).bytes
    }

    open spec fn canonical(v: StartRoSpec) -> bool {
        Self::fits(v)
    }

    proof fn lemma_roundtrip(v: StartRoSpec) {
        reveal(StartRoSpec::fits);
        reveal(StartRoSpec::read_fields);
        reveal(StartRoSpec::write_fields);
        let s = EncoderState::start(Seq::<u8>::empty());
        StartRoSpec::lemma_wire_from(v);
        <u32 as LLRPValue>::lemma_emit(v.ro_spec_id, s);
        let s1 = s.write_bytes(<u32 as LLRPValue>::wire(v.ro_spec_id));
        lemma_concat_empty(s1.bytes);
        lemma_concat_assoc(
            s.bytes,
            <u32 as LLRPValue>::wire(v.ro_spec_id),
            StartRoSpec::wire_from(v, 1),
        );
        lemma_concat_front(Self::wire_from(v, 0));
        if Self::canonical(v) {
            StartRoSpec::lemma_wire_from(v);
            assert(<u32 as LLRPValue>::parse(DecoderState::start(Self::wire_from(v, 0))) == Ok::<(u32, DecoderState), Error>((v.ro_spec_id, DecoderState::start(Self::wire_from(v, 1))))) by {
                <u32 as LLRPValue>::lemma_parse(v.ro_spec_id, Self::wire_from(v, 1));
            }
        }
    }

    fn decode(data: &[u8]) -> (r: Result<(Self, &[u8]), Error>) {
        proof {
            reveal(StartRoSpec::read_fields);
        }
        let mut decoder = Decoder::new(data);
        let decoder = &mut decoder;
        let ro_spec_id = decoder.read::<u32>()?;
        Ok((StartRoSpec { ro_spec_id }, decoder.rest()))
    }

    fn encode(&self, buffer: &mut Vec<u8>) {
        proof {
            reveal(StartRoSpec::write_fields);
        }
        let mut encoder = Encoder::new(Vec::new());
        let encoder = &mut encoder;
        encoder.write(&self.ro_spec_id);
        append_bytes(buffer, encoder.written());
    }

    fn id(&self) -> (id: u16) {
        22
    }
}

/// Answers `StartRoSpec`.
#[derive(Debug, PartialEq, Eq)]
pub struct StartRoSpecResponse {
    /// The reader's status.
    pub status: LLRPStatus,
}

/// The model of a `StartRoSpecResponse`.
pub struct StartRoSpecResponseView {
    pub status: LLRPStatusView,
}

impl DeepView for StartRoSpecResponse {
    type V = StartRoSpecResponseView;

    open spec fn deep_view(&self) -> StartRoSpecResponseView {
        StartRoSpecResponseView {
            status: self.status.deep_view(),
        }
    }
}

impl StartRoSpecResponse {
    /// The bytes of the fields from the `k`-th on.
    #[verifier::opaque]
    pub open spec fn wire_from(v: StartRoSpecResponseView, k: nat) -> Seq<u8>
        decreases 1 - k,
    {
        if k == 0 {
            <LLRPStatus as LLRPValue>::wire(v.status) + Self::wire_from(v, 1)
        } else {
            Seq::empty()
        }
    }

    /// The bytes of the fields, one field at a time.
    pub proof fn lemma_wire_from(v: StartRoSpecResponseView)
        ensures
            Self::wire_from(v, 0) == <LLRPStatus as LLRPValue>::wire(v.status)
                + Self::wire_from(v, 1),
            Self::wire_from(v, 1) == Seq::<u8>::empty(),
    {
        reveal(StartRoSpecResponse::wire_from);
    }

    /// Whether the fields fit the format, each before the fields behind it.
    #[verifier::opaque]
    pub open spec fn fits(v: StartRoSpecResponseView) -> bool {
        &&& <LLRPStatus as LLRPValue>::canonical(v.status)
    }

    /// The fields read in order, or the first error.
    #[verifier::opaque]
    pub open spec fn read_fields(s: DecoderState) -> Result<
        (StartRoSpecResponseView, DecoderState),
        Error,
    > {
        match <LLRPStatus as LLRPValue>::parse(s) {
            Err(e) => Err(e),
            Ok((status, s)) => Ok((StartRoSpecResponseView { status }, s)),
        }
    }

    /// The state after the fields have been written in order.
    #[verifier::opaque]
    pub open spec fn write_fields(v: StartRoSpecResponseView, s: EncoderState) -> EncoderState {
        let s = <LLRPStatus as LLRPValue>::emit(v.status, s);
        s
    }
}

impl LLRPMessage for StartRoSpecResponse {
    const ID: u16 = 32;

    open spec fn parse(data: Seq<u8>) -> Result<(StartRoSpecResponseView, Seq<u8>), Error> {
        match Self::read_fields(DecoderState::start(data)) {
            Err(e) => Err(e),
            Ok((v, s)) => Ok((v, s.bytes)),
        }
    }

    open spec fn emit(v: StartRoSpecResponseView) -> Seq<u8> {
        Self::write_fields(v, EncoderState::start(Seq::empty())).bytes
    }

    open spec fn canonical(v: StartRoSpecResponseView) -> bool {
        Self::fits(v)
    }

    proof fn lemma_roundtrip(v: StartRoSpecResponseView) {
        reveal(StartRoSpecResponse::fits);
        reveal(StartRoSpecResponse::read_fields);
        reveal(StartRoSpecResponse::write_fields);
        let s = EncoderState::start(Seq::<u8>::empty());
        StartRoSpecResponse::lemma_wire_from(v);
        <LLRPStatus as LLRPValue>::lemma_emit(v.status, s);
        let s1 = s.write_bytes(<LLRPStatus as LLRPValue>::wire(v.status));
        lemma_concat_empty(s1.bytes);
        lemma_concat_assoc(
            s.bytes,
            <LLRPStatus as LLRPValue>::wire(v.status),
            StartRoSpecResponse::wire_from(v, 1),
        );
        lemma_concat_front(Self::wire_from(v, 0));
        if Self::canonical(v) {
            StartRoSpecResponse::lemma_wire_from(v);
            assert(<LLRPStatus as LLRPValue>::parse(DecoderState::start(Self::wire_from(v, 0))) == Ok::<(LLRPStatusView, DecoderState), Error>((v.status, DecoderState::start(Self::wire_from(v, 1))))) by {
                <LLRPStatus as LLRPValue>::lemma_parse(v.status, Self::wire_from(v, 1));
            }
        }
    }

    fn decode(data: &[u8]) -> (r: Result<(Self, &[u8]), Error>) {
        proof {
            reveal(StartRoSpecResponse::read_fields);
        }
        let mut decoder = Decoder::new(data);
        let decoder = &mut decoder;
        let status = decoder.read::<LLRPStatus>()?;
        Ok((StartRoSpecResponse { status }, decoder.rest()))
    }

    fn encode(&self, buffer: &mut Vec<u8>) {
        proof {
            reveal(StartRoSpecResponse::write_fields);
        }
        let mut encoder = Encoder::new(Vec::new());
        let encoder = &mut encoder;
        encoder.write(&self.status);
        append_bytes(buffer, encoder.written());
    }

    fn id(&self) -> (id: u16) {
        32
    }
}

/// Stops a reader operation.
#[derive(Debug, PartialEq, Eq)]
pub struct StopRoSpec {
    /// The operation to stop; never 0.
    pub ro_spec_id: u32,
}

impl DeepView for StopRoSpec {
    type V = StopRoSpec;

    open spec fn deep_view(&self) -> StopRoSpec {
        *self
    }
}

impl StopRoSpec {
    /// The bytes of the fields from the `k`-th on.
    #[verifier::opaque]
    pub open spec fn wire_from(v: StopRoSpec, k: nat) -> Seq<u8>
        decreases 1 - k,
    {
        if k == 0 {
            <u32 as LLRPValue>::wire(v.ro_spec_id) + Self::wire_from(v, 1)
        } else {
            Seq::empty()
        }
    }

    /// The bytes of the fields, one field at a time.
    pub proof fn lemma_wire_from(v: StopRoSpec)
        ensures
            Self::wire_from(v, 0) == <u32 as LLRPValue>::wire(v.ro_spec_id) + Self::wire_from(v, 1),
            Self::wire_from(v, 1) == Seq::<u8>::empty(),
    {
        reveal(StopRoSpec::wire_from);
    }

    /// Whether the fields fit the format, each before the fields behind it.
    #[verifier::opaque]
    pub open spec fn fits(v: StopRoSpec) -> bool {
        true
    }

    /// The fields read in order, or the first error.
    #[verifier::opaque]
    pub open spec fn read_fields(s: DecoderState) -> Result<(StopRoSpec, DecoderState), Error> {
        match <u32 as LLRPValue>::parse(s) {
            Err(e) => Err(e),
            Ok((ro_spec_id, s)) => Ok((StopRoSpec { ro_spec_id }, s)),
        }
    }

    /// The state after the fields have been written in order.
    #[verifier::opaque]
    pub open spec fn write_fields(v: StopRoSpec, s: EncoderState) -> EncoderState {
        let s = <u32 as LLRPValue>::emit(v.ro_spec_id, s);
        s
    }
}

impl LLRPMessage for StopRoSpec {
    const ID: u16 = 23;

    open spec fn parse(data: Seq<u8>) -> Result<(StopRoSpec, Seq<u8>), Error> {
        match Self::read_fields(DecoderState::start(data)) {
            Err(e) => Err(e),
            Ok((v, s)) => Ok((v, s.bytes)),
        }
    }

    open spec fn emit(v: StopRoSpec) -> Seq<u8> {
        Self::write_fields(v, EncoderState::start(Seq::empty())).bytes
    }

    open spec fn canonical(v: StopRoSpec) -> bool {
        Self::fits(v)
    }

    proof fn lemma_roundtrip(v: StopRoSpec) {
        reveal(StopRoSpec::fits);
        reveal(StopRoSpec::read_fields);
        reveal(StopRoSpec::write_fields);
        let s = EncoderState::start(Seq::<u8>::empty());
        StopRoSpec::lemma_wire_from(v);
        <u32 as LLRPValue>::lemma_emit(v.ro_spec_id, s);
        let s1 = s.write_bytes(<u32 as LLRPValue>::wire(v.ro_spec_id));
        lemma_concat_empty(s1.bytes);
        lemma_concat_assoc(
            s.bytes,
            <u32 as LLRPValue>::wire(v.ro_spec_id),
            StopRoSpec::wire_from(v, 1),
        );
        lemma_concat_front(Self::wire_from(v, 0));
        if Self::canonical(v) {
            StopRoSpec::lemma_wire_from(v);
            assert(<u32 as LLRPValue>::parse(DecoderState::start(Self::wire_from(v, 0))) == Ok::<(u32, DecoderState), Error>((v.ro_spec_id, DecoderState::start(Self::wire_from(v, 1))))) by {
                <u32 as LLRPValue>::lemma_parse(v.ro_spec_id, Self::wire_from(v, 1));
            }
        }
    }

    fn decode(data: &[u8]) -> (r: Result<(Self, &[u8]), Error>) {
        proof {
            reveal(StopRoSpec::read_fields);
        }
        let mut decoder = Decoder::new(data);
        let decoder = &mut decoder;
        let ro_spec_id = decoder.read::<u32>()?;
        Ok((StopRoSpec { ro_spec_id }, decoder.rest()))
    }

    fn encode(&self, buffer: &mut Vec<u8>) {
        proof {
            reveal(StopRoSpec::write_fields);
        }
        let mut encoder = Encoder::new(Vec::new());
        let encoder = &mut encoder;
        encoder.write(&self.ro_spec_id);
        append_bytes(buffer, encoder.written());
    }

    fn id(&self) -> (id: u16) {
        23
    }
}

/// Answers `StopRoSpec`.
#[derive(Debug, PartialEq, Eq)]
pub struct StopRoSpecResponse {
    /// The reader's status.
    pub status: LLRPStatus,
}

/// The model of a `StopRoSpecResponse`.
pub struct StopRoSpecResponseView {
    pub status: LLRPStatusView,
}

impl DeepView for StopRoSpecResponse {
    type V = StopRoSpecResponseView;

    open spec fn deep_view(&self) -> StopRoSpecResponseView {
        StopRoSpecResponseView {
            status: self.status.deep_view(),
        }
    }
}

impl StopRoSpecResponse {
    /// The bytes of the fields from the `k`-th on.
    #[verifier::opaque]
    pub open spec fn wire_from(v: StopRoSpecResponseView, k: nat) -> Seq<u8>
        decreases 1 - k,
    {
        if k == 0 {
            <LLRPStatus as LLRPValue>::wire(v.status) + Self::wire_from(v, 1)
        } else {
            Seq::empty()
        }
    }

    /// The bytes of the fields, one field at a time.
    pub proof fn lemma_wire_from(v: StopRoSpecResponseView)
        ensures
            Self::wire_from(v, 0) == <LLRPStatus as LLRPValue>::wire(v.status)
                + Self::wire_from(v, 1),
            Self::wire_from(v, 1) == Seq::<u8>::empty(),
    {
        reveal(StopRoSpecResponse::wire_from);
    }

    /// Whether the fields fit the format, each before the fields behind it.
    #[verifier::opaque]
    pub open spec fn fits(v: StopRoSpecResponseView) -> bool {
        &&& <LLRPStatus as LLRPValue>::canonical(v.status)
    }

    /// The fields read in order, or the first error.
    #[verifier::opaque]
    pub open spec fn read_fields(s: DecoderState) -> Result<
        (StopRoSpecResponseView, DecoderState),
        Error,
    > {
        match <LLRPStatus as LLRPValue>::parse(s) {
            Err(e) => Err(e),
            Ok((status, s)) => Ok((StopRoSpecResponseView { status }, s)),
        }
    }

    /// The state after the fields have been written in order.
    #[verifier::opaque]
    pub open spec fn write_fields(v: StopRoSpecResponseView, s: EncoderState) -> EncoderState {
        let s = <LLRPStatus as LLRPValue>::emit(v.status, s);
        s
    }
}

impl LLRPMessage for StopRoSpecResponse {
    const ID: u16 = 33;

    open spec fn parse(data: Seq<u8>) -> Result<(StopRoSpecResponseView, Seq<u8>), Error> {
        match Self::read_fields(DecoderState::start(data)) {
            Err(e) => Err(e),
            Ok((v, s)) => Ok((v, s.bytes)),
        }
    }

    open spec fn emit(v: StopRoSpecResponseView) -> Seq<u8> {
        Self::write_fields(v, EncoderState::start(Seq::empty())).bytes
    }

    open spec fn canonical(v: StopRoSpecResponseView) -> bool {
        Self::fits(v)
    }

    proof fn lemma_roundtrip(v: StopRoSpecResponseView) {
        reveal(StopRoSpecResponse::fits);
        reveal(StopRoSpecResponse::read_fields);
        reveal(StopRoSpecResponse::write_fields);
        let s = EncoderState::start(Seq::<u8>::empty());
        StopRoSpecResponse::lemma_wire_from(v);
        <LLRPStatus as LLRPValue>::lemma_emit(v.status, s);
        let s1 = s.write_bytes(<LLRPStatus as LLRPValue>::wire(v.status));
        lemma_concat_empty(s1.bytes);
        lemma_concat_assoc(
            s.bytes,
            <LLRPStatus as LLRPValue>::wire(v.status),
            StopRoSpecResponse::wire_from(v, 1),
        );
        lemma_concat_front(Self::wire_from(v, 0));
        if Self::canonical(v) {
            StopRoSpecResponse::lemma_wire_from(v);
            assert(<LLRPStatus as LLRPValue>::parse(DecoderState::start(Self::wire_from(v, 0))) == Ok::<(LLRPStatusView, DecoderState), Error>((v.status, DecoderState::start(Self::wire_from(v, 1))))) by {
                <LLRPStatus as LLRPValue>::lemma_parse(v.status, Self::wire_from(v, 1));
            }
        }
    }

    fn decode(data: &[u8]) -> (r: Result<(Self, &[u8]), Error>) {
        proof {
            reveal(StopRoSpecResponse::read_fields);
        }
        let mut decoder = Decoder::new(data);
        let decoder = &mut decoder;
        let status = decoder.read::<LLRPStatus>()?;
        Ok((StopRoSpecResponse { status }, decoder.rest()))
    }

    fn encode(&self, buffer: &mut Vec<u8>) {
        proof {
            reveal(StopRoSpecResponse::write_fields);
        }
        let mut encoder = Encoder::new(Vec::new());
        let encoder = &mut encoder;
        encoder.write(&self.status);
        append_bytes(buffer, encoder.written());
    }

    fn id(&self) -> (id: u16) {
        33
    }
}

/// Enables a reader operation.
#[derive(Debug, PartialEq, Eq)]
pub struct EnableRoSpec {
    /// The operation to enable; 0 for all.
    pub ro_spec_id: u32,
}

impl DeepView for EnableRoSpec {
    type V = EnableRoSpec;

    open spec fn deep_view(&self) -> EnableRoSpec {
        *self
    }
}

impl EnableRoSpec {
    /// The bytes of the fields from the `k`-th on.
    #[verifier::opaque]
    pub open spec fn wire_from(v: EnableRoSpec, k: nat) -> Seq<u8>
        decreases 1 - k,
    {
        if k == 0 {
            <u32 as LLRPValue>::wire(v.ro_spec_id) + Self::wire_from(v, 1)
        } else {
            Seq::empty()
        }
    }

    /// The bytes of the fields, one field at a time.
    pub proof fn lemma_wire_from(v: EnableRoSpec)
        ensures
            Self::wire_from(v, 0) == <u32 as LLRPValue>::wire(v.ro_spec_id) + Self::wire_from(v, 1),
            Self::wire_from(v, 1) == Seq::<u8>::empty(),
    {
        reveal(EnableRoSpec::wire_from);
    }

    /// Whether the fields fit the format, each before the fields behind it.
    #[verifier::opaque]
    pub open spec fn fits(v: EnableRoSpec) -> bool {
        true
    }

    /// The fields read in order, or the first error.
    #[verifier::opaque]
    pub open spec fn read_fields(s: DecoderState) -> Result<(EnableRoSpec, DecoderState), Error> {
        match <u32 as LLRPValue>::parse(s) {
            Err(e) => Err(e),
            Ok((ro_spec_id, s)) => Ok((EnableRoSpec { ro_spec_id }, s)),
        }
    }

    /// The state after the fields have been written in order.
    #[verifier::opaque]
    pub open spec fn write_fields(v: EnableRoSpec, s: EncoderState) -> EncoderState {
        let s = <u32 as LLRPValue>::emit(v.ro_spec_id, s);
        s
    }
}

impl LLRPMessage for EnableRoSpec {
    const ID: u16 = 24;

    open spec fn parse(data: Seq<u8>) -> Result<(EnableRoSpec, Seq<u8>), Error> {
        match Self::read_fields(DecoderState::start(data)) {
            Err(e) => Err(e),
            Ok((v, s)) => Ok((v, s.bytes)),
        }
    }

    open spec fn emit(v: EnableRoSpec) -> Seq<u8> {
        Self::write_fields(v, EncoderState::start(Seq::empty())).bytes
    }

    open spec fn canonical(v: EnableRoSpec) -> bool {
        Self::fits(v)
    }

    proof fn lemma_roundtrip(v: EnableRoSpec) {
        reveal(EnableRoSpec::fits);
        reveal(EnableRoSpec::read_fields);
        reveal(EnableRoSpec::write_fields);
        let s = EncoderState::start(Seq::<u8>::empty());
        EnableRoSpec::lemma_wire_from(v);
        <u32 as LLRPValue>::lemma_emit(v.ro_spec_id, s);
        let s1 = s.write_bytes(<u32 as LLRPValue>::wire(v.ro_spec_id));
        lemma_concat_empty(s1.bytes);
        lemma_concat_assoc(
            s.bytes,
            <u32 as LLRPValue>::wire(v.ro_spec_id),
            EnableRoSpec::wire_from(v, 1),
        );
        lemma_concat_front(Self::wire_from(v, 0));
        if Self::canonical(v) {
            EnableRoSpec::lemma_wire_from(v);
            assert(<u32 as LLRPValue>::parse(DecoderState::start(Self::wire_from(v, 0))) == Ok::<(u32, DecoderState), Error>((v.ro_spec_id, DecoderState::start(Self::wire_from(v, 1))))) by {
                <u32 as LLRPValue>::lemma_parse(v.ro_spec_id, Self::wire_from(v, 1));
            }
        }
    }

    fn decode(data: &[u8]) -> (r: Result<(Self, &[u8]), Error>) {
        proof {
            reveal(EnableRoSpec::read_fields);
        }
        let mut decoder = Decoder::new(data);
        let decoder = &mut decoder;
        let ro_spec_id = decoder.read::<u32>()?;
        Ok((EnableRoSpec { ro_spec_id }, decoder.rest()))
    }

    fn encode(&self, buffer: &mut Vec<u8>) {
        proof {
            reveal(EnableRoSpec::write_fields);
        }
        let mut encoder = Encoder::new(Vec::new());
        let encoder = &mut encoder;
        encoder.write(&self.ro_spec_id);
        append_bytes(buffer, encoder.written());
    }

    fn id(&self) -> (id: u16) {
        24
    }
}

/// Answers `EnableRoSpec`.
#[derive(Debug, PartialEq, Eq)]
pub struct EnableRoSpecResponse {
    /// The reader's status.
    pub status: LLRPStatus,
}

/// The model of a `EnableRoSpecResponse`.
pub struct EnableRoSpecResponseView {
    pub status: LLRPStatusView,
}

impl DeepView for EnableRoSpecResponse {
    type V = EnableRoSpecResponseView;

    open spec fn deep_view(&self) -> EnableRoSpecResponseView {
        EnableRoSpecResponseView {
            status: self.status.deep_view(),
        }
    }
}

impl EnableRoSpecResponse {
    /// The bytes of the fields from the `k`-th on.
    #[verifier::opaque]
    pub open spec fn wire_from(v: EnableRoSpecResponseView, k: nat) -> Seq<u8>
        decreases 1 - k,
    {
        if k == 0 {
            <LLRPStatus as LLRPValue>::wire(v.status) + Self::wire_from(v, 1)
        } else {
            Seq::empty()
        }
    }

    /// The bytes of the fields, one field at a time.
    pub proof fn lemma_wire_from(v: EnableRoSpecResponseView)
        ensures
            Self::wire_from(v, 0) == <LLRPStatus as LLRPValue>::wire(v.status)
                + Self::wire_from(v, 1),
            Self::wire_from(v, 1) == Seq::<u8>::empty(),
    {
        reveal(EnableRoSpecResponse::wire_from);
    }

    /// Whether the fields fit the format, each before the fields behind it.
    #[verifier::opaque]
    pub open spec fn fits(v: EnableRoSpecResponseView) -> bool {
        &&& <LLRPStatus as LLRPValue>::canonical(v.status)
    }

    /// The fields read in order, or the first error.
    #[verifier::opaque]
    pub open spec fn read_fields(s: DecoderState) -> Result<
        (EnableRoSpecResponseView, DecoderState),
        Error,
    > {
        match <LLRPStatus as LLRPValue>::parse(s) {
            Err(e) => Err(e),
            Ok((status, s)) => Ok((EnableRoSpecResponseView { status }, s)),
        }
    }

    /// The state after the fields have been written in order.
    #[verifier::opaque]
    pub open spec fn write_fields(v: EnableRoSpecResponseView, s: EncoderState) -> EncoderState {
        let s = <LLRPStatus as LLRPValue>::emit(v.status, s);
        s
    }
}

impl LLRPMessage for EnableRoSpecResponse {
    const ID: u16 = 34;

    open spec fn parse(data: Seq<u8>) -> Result<(EnableRoSpecResponseView, Seq<u8>), Error> {
        match Self::read_fields(DecoderState::start(data)) {
            Err(e) => Err(e),
            Ok((v, s)) => Ok((v, s.bytes)),
        }
    }

    open spec fn emit(v: EnableRoSpecResponseView) -> Seq<u8> {
        Self::write_fields(v, EncoderState::start(Seq::empty())).bytes
    }

    open spec fn canonical(v: EnableRoSpecResponseView) -> bool {
        Self::fits(v)
    }

    proof fn lemma_roundtrip(v: EnableRoSpecResponseView) {
        reveal(EnableRoSpecResponse::fits);
        reveal(EnableRoSpecResponse::read_fields);
        reveal(EnableRoSpecResponse::write_fields);
        let s = EncoderState::start(Seq::<u8>::empty());
        EnableRoSpecResponse::lemma_wire_from(v);
        <LLRPStatus as LLRPValue>::lemma_emit(v.status, s);
        let s1 = s.write_bytes(<LLRPStatus as LLRPValue>::wire(v.status));
        lemma_concat_empty(s1.bytes);
        lemma_concat_assoc(
            s.bytes,
            <LLRPStatus as LLRPValue>::wire(v.status),
            EnableRoSpecResponse::wire_from(v, 1),
        );
        lemma_concat_front(Self::wire_from(v, 0));
        if Self::canonical(v) {
            EnableRoSpecResponse::lemma_wire_from(v);
            assert(<LLRPStatus as LLRPValue>::parse(DecoderState::start(Self::wire_from(v, 0))) == Ok::<(LLRPStatusView, DecoderState), Error>((v.status, DecoderState::start(Self::wire_from(v, 1))))) by {
                <LLRPStatus as LLRPValue>::lemma_parse(v.status, Self::wire_from(v, 1));
            }
        }
    }

    fn decode(data: &[u8]) -> (r: Result<(Self, &[u8]), Error>) {
        proof {
            reveal(EnableRoSpecResponse::read_fields);
        }
        let mut decoder = Decoder::new(data);
        let decoder = &mut decoder;
        let status = decoder.read::<LLRPStatus>()?;
        Ok((EnableRoSpecResponse { status }, decoder.rest()))
    }

    fn encode(&self, buffer: &mut Vec<u8>) {
        proof {
            reveal(EnableRoSpecResponse::write_fields);
        }
        let mut encoder = Encoder::new(Vec::new());
        let encoder = &mut encoder;
        encoder.write(&self.status);
        append_bytes(buffer, encoder.written());
    }

    fn id(&self) -> (id: u16) {
        34
    }
}

/// Disables a reader operation.
#[derive(Debug, PartialEq, Eq)]
pub struct DisableRoSpec {
    /// The operation to disable; 0 for all.
    pub ro_spec_id: u32,
}

impl DeepView for DisableRoSpec {
    type V = DisableRoSpec;

    open spec fn deep_view(&self) -> DisableRoSpec {
        *self
    }
}

impl DisableRoSpec {
    /// The bytes of the fields from the `k`-th on.
    #[verifier::opaque]
    pub open spec fn wire_from(v: DisableRoSpec, k: nat) -> Seq<u8>
        decreases 1 - k,
    {
        if k == 0 {
            <u32 as LLRPValue>::wire(v.ro_spec_id) + Self::wire_from(v, 1)
        } else {
            Seq::empty()
        }
    }

    /// The bytes of the fields, one field at a time.
    pub proof fn lemma_wire_from(v: DisableRoSpec)
        ensures
            Self::wire_from(v, 0) == <u32 as LLRPValue>::wire(v.ro_spec_id) + Self::wire_from(v, 1),
            Self::wire_from(v, 1) == Seq::<u8>::empty(),
    {
        reveal(DisableRoSpec::wire_from);
    }

    /// Whether the fields fit the format, each before the fields behind it.
    #[verifier::opaque]
    pub open spec fn fits(v: DisableRoSpec) -> bool {
        true
    }

    /// The fields read in order, or the first error.
    #[verifier::opaque]
    pub open spec fn read_fields(s: DecoderState) -> Result<(DisableRoSpec, DecoderState), Error> {
        match <u32 as LLRPValue>::parse(s) {
            Err(e) => Err(e),
            Ok((ro_spec_id, s)) => Ok((DisableRoSpec { ro_spec_id }, s)),
        }
    }

    /// The state after the fields have been written in order.
    #[verifier::opaque]
    pub open spec fn write_fields(v: DisableRoSpec, s: EncoderState) -> EncoderState {
        let s = <u32 as LLRPValue>::emit(v.ro_spec_id, s);
        s
    }
}

impl LLRPMessage for DisableRoSpec {
    const ID: u16 = 25;

    open spec fn parse(data: Seq<u8>) -> Result<(DisableRoSpec, Seq<u8>), Error> {
        match Self::read_fields(DecoderState::start(data)) {
            Err(e) => Err(e),
            Ok((v, s)) => Ok((v, s.bytes)),
        }
    }

    open spec fn emit(v: DisableRoSpec) -> Seq<u8> {
        Self::write_fields(v, EncoderState::start(Seq::empty())).bytes
    }

    open spec fn canonical(v: DisableRoSpec) -> bool {
        Self::fits(v)
    }

    proof fn lemma_roundtrip(v: DisableRoSpec) {
        reveal(DisableRoSpec::fits);
        reveal(DisableRoSpec::read_fields);
        reveal(DisableRoSpec::write_fields);
        let s = EncoderState::start(Seq::<u8>::empty());
        DisableRoSpec::lemma_wire_from(v);
        <u32 as LLRPValue>::lemma_emit(v.ro_spec_id, s);
        let s1 = s.write_bytes(<u32 as LLRPValue>::wire(v.ro_spec_id));
        lemma_concat_empty(s1.bytes);
        lemma_concat_assoc(
            s.bytes,
            <u32 as LLRPValue>::wire(v.ro_spec_id),
            DisableRoSpec::wire_from(v, 1),
        );
        lemma_concat_front(Self::wire_from(v, 0));
        if Self::canonical(v) {
            DisableRoSpec::lemma_wire_from(v);
            assert(<u32 as LLRPValue>::parse(DecoderState::start(Self::wire_from(v, 0))) == Ok::<(u32, DecoderState), Error>((v.ro_spec_id, DecoderState::start(Self::wire_from(v, 1))))) by {
                <u32 as LLRPValue>::lemma_parse(v.ro_spec_id, Self::wire_from(v, 1));
            }
        }
    }

    fn decode(data: &[u8]) -> (r: Result<(Self, &[u8]), Error>) {
        proof {
            reveal(DisableRoSpec::read_fields);
        }
        let mut decoder = Decoder::new(data);
        let decoder = &mut decoder;
        let ro_spec_id = decoder.read::<u32>()?;
        Ok((DisableRoSpec { ro_spec_id }, decoder.rest()))
    }

    fn encode(&self, buffer: &mut Vec<u8>) {
        proof {
            reveal(DisableRoSpec::write_fields);
        }
        let mut encoder = Encoder::new(Vec::new());
        let encoder = &mut encoder;
        encoder.write(&self.ro_spec_id);
        append_bytes(buffer, encoder.written());
    }

    fn id(&self) -> (id: u16) {
        25
    }
}

/// Answers `DisableRoSpec`.
#[derive(Debug, PartialEq, Eq)]
pub struct DisableRoSpecResponse {
    /// The reader's status.
    pub status: LLRPStatus,
}

/// The model of a `DisableRoSpecResponse`.
pub struct DisableRoSpecResponseView {
    pub status: LLRPStatusView,
}

impl DeepView for DisableRoSpecResponse {
    type V = DisableRoSpecResponseView;

    open spec fn deep_view(&self) -> DisableRoSpecResponseView {
        DisableRoSpecResponseView {
            status: self.status.deep_view(),
        }
    }
}

impl DisableRoSpecResponse {
    /// The bytes of the fields from the `k`-th on.
    #[verifier::opaque]
    pub open spec fn wire_from(v: DisableRoSpecResponseView, k: nat) -> Seq<u8>
        decreases 1 - k,
    {
        if k == 0 {
            <LLRPStatus as LLRPValue>::wire(v.status) + Self::wire_from(v, 1)
        } else {
            Seq::empty()
        }
    }

    /// The bytes of the fields, one field at a time.
    pub proof fn lemma_wire_from(v: DisableRoSpecResponseView)
        ensures
            Self::wire_from(v, 0) == <LLRPStatus as LLRPValue>::wire(v.status)
                + Self::wire_from(v, 1),
            Self::wire_from(v, 1) == Seq::<u8>::empty(),
    {
        reveal(DisableRoSpecResponse::wire_from);
    }

    /// Whether the fields fit the format, each before the fields behind it.
    #[verifier::opaque]
    pub open spec fn fits(v: DisableRoSpecResponseView) -> bool {
        &&& <LLRPStatus as LLRPValue>::canonical(v.status)
    }

    /// The fields read in order, or the first error.
    #[verifier::opaque]
    pub open spec fn read_fields(s: DecoderState) -> Result<
        (DisableRoSpecResponseView, DecoderState),
        Error,
    > {
        match <LLRPStatus as LLRPValue>::parse(s) {
            Err(e) => Err(e),
            Ok((status, s)) => Ok((DisableRoSpecResponseView { status }, s)),
        }
    }

    /// The state after the fields have been written in order.
    #[verifier::opaque]
    pub open spec fn write_fields(v: DisableRoSpecResponseView, s: EncoderState) -> EncoderState {
        let s = <LLRPStatus as LLRPValue>::emit(v.status, s);
        s
    }
}

impl LLRPMessage for DisableRoSpecResponse {
    const ID: u16 = 35;

    open spec fn parse(data: Seq<u8>) -> Result<(DisableRoSpecResponseView, Seq<u8>), Error> {
        match Self::read_fields(DecoderState::start(data)) {
            Err(e) => Err(e),
            Ok((v, s)) => Ok((v, s.bytes)),
        }
    }

    open spec fn emit(v: DisableRoSpecResponseView) -> Seq<u8> {
        Self::write_fields(v, EncoderState::start(Seq::empty())).bytes
    }

    open spec fn canonical(v: DisableRoSpecResponseView) -> bool {
        Self::fits(v)
    }

    proof fn lemma_roundtrip(v: DisableRoSpecResponseView) {
        reveal(DisableRoSpecResponse::fits);
        reveal(DisableRoSpecResponse::read_fields);
        reveal(DisableRoSpecResponse::write_fields);
        let s = EncoderState::start(Seq::<u8>::empty());
        DisableRoSpecResponse::lemma_wire_from(v);
        <LLRPStatus as LLRPValue>::lemma_emit(v.status, s);
        let s1 = s.write_bytes(<LLRPStatus as LLRPValue>::wire(v.status));
        lemma_concat_empty(s1.bytes);
        lemma_concat_assoc(
            s.bytes,
            <LLRPStatus as LLRPValue>::wire(v.status),
            DisableRoSpecResponse::wire_from(v, 1),
        );
        lemma_concat_front(Self::wire_from(v, 0));
        if Self::canonical(v) {
            DisableRoSpecResponse::lemma_wire_from(v);
            assert(<LLRPStatus as LLRPValue>::parse(DecoderState::start(Self::wire_from(v, 0))) == Ok::<(LLRPStatusView, DecoderState), Error>((v.status, DecoderState::start(Self::wire_from(v, 1))))) by {
                <LLRPStatus as LLRPValue>::lemma_parse(v.status, Self::wire_from(v, 1));
            }
        }
    }

    fn decode(data: &[u8]) -> (r: Result<(Self, &[u8]), Error>) {
        proof {
            reveal(DisableRoSpecResponse::read_fields);
        }
        let mut decoder = Decoder::new(data);
        let decoder = &mut decoder;
        let status = decoder.read::<LLRPStatus>()?;
        Ok((DisableRoSpecResponse { status }, decoder.rest()))
    }

    fn encode(&self, buffer: &mut Vec<u8>) {
        proof {
            reveal(DisableRoSpecResponse::write_fields);
        }
        let mut encoder = Encoder::new(Vec::new());
        let encoder = &mut encoder;
        encoder.write(&self.status);
        append_bytes(buffer, encoder.written());
    }

    fn id(&self) -> (id: u16) {
        35
    }
}

/// Asks for the reader operations that the reader holds.
#[derive(Debug, PartialEq, Eq)]
pub struct GetRoSpecs {}

impl DeepView for GetRoSpecs {
    type V = GetRoSpecs;

    open spec fn deep_view(&self) -> GetRoSpecs {
        *self
    }
}

impl GetRoSpecs {
    /// The bytes of the fields from the `k`-th on.
    #[verifier::opaque]
    pub open spec fn wire_from(v: GetRoSpecs, k: nat) -> Seq<u8>
        decreases 0 - k,
    {
        {
            Seq::empty()
        }
    }

    /// The bytes of the fields, one field at a time.
    pub proof fn lemma_wire_from(v: GetRoSpecs)
        ensures
            Self::wire_from(v, 0) == Seq::<u8>::empty(),
    {
        reveal(GetRoSpecs::wire_from);
    }

    /// Whether the fields fit the format, each before the fields behind it.
    #[verifier::opaque]
    pub open spec fn fits(v: GetRoSpecs) -> bool {
        true
    }

    /// The fields read in order, or the first error.
    #[verifier::opaque]
    pub open spec fn read_fields(s: DecoderState) -> Result<(GetRoSpecs, DecoderState), Error> {
        Ok((GetRoSpecs {  }, s))
    }

    /// The state after the fields have been written in order.
    #[verifier::opaque]
    pub open spec fn write_fields(v: GetRoSpecs, s: EncoderState) -> EncoderState {
        s
    }
}

impl LLRPMessage for GetRoSpecs {
    const ID: u16 = 26;

    open spec fn parse(data: Seq<u8>) -> Result<(GetRoSpecs, Seq<u8>), Error> {
        match Self::read_fields(DecoderState::start(data)) {
            Err(e) => Err(e),
            Ok((v, s)) => Ok((v, s.bytes)),
        }
    }

    open spec fn emit(v: GetRoSpecs) -> Seq<u8> {
        Self::write_fields(v, EncoderState::start(Seq::empty())).bytes
    }

    open spec fn canonical(v: GetRoSpecs) -> bool {
        Self::fits(v)
    }

    proof fn lemma_roundtrip(v: GetRoSpecs) {
        reveal(GetRoSpecs::fits);
        reveal(GetRoSpecs::read_fields);
        reveal(GetRoSpecs::write_fields);
        let s = EncoderState::start(Seq::<u8>::empty());
        GetRoSpecs::lemma_wire_from(v);
        lemma_concat_empty(s.bytes);
        lemma_concat_front(Self::wire_from(v, 0));
        if Self::canonical(v) {
            GetRoSpecs::lemma_wire_from(v);
        }
    }

    fn decode(data: &[u8]) -> (r: Result<(Self, &[u8]), Error>) {
        proof {
            reveal(GetRoSpecs::read_fields);
        }
        let mut decoder = Decoder::new(data);
        let decoder = &mut decoder;
        Ok((GetRoSpecs {   }, decoder.rest()))
    }

    fn encode(&self, buffer: &mut Vec<u8>) {
        proof {
            reveal(GetRoSpecs::write_fields);
        }
        let mut encoder = Encoder::new(Vec::new());
        let encoder = &mut encoder;
        append_bytes(buffer, encoder.written());
    }

    fn id(&self) -> (id: u16) {
        26
    }
}

/// The reader operations that the reader holds, in the order in which they were
/// added.
#[derive(Debug, PartialEq, Eq)]
pub struct GetRoSpecsResponse {
    /// The reader's status.
    pub status: LLRPStatus,
    pub ro_specs: Vec<RoSpec>,
}

/// The model of a `GetRoSpecsResponse`.
pub struct GetRoSpecsResponseView {
    pub status: LLRPStatusView,
    pub ro_specs: Seq<RoSpecView>,
}

impl DeepView for GetRoSpecsResponse {
    type V = GetRoSpecsResponseView;

    open spec fn deep_view(&self) -> GetRoSpecsResponseView {
        GetRoSpecsResponseView {
            status: self.status.deep_view(),
            ro_specs: self.ro_specs.deep_view(),
        }
    }
}

impl GetRoSpecsResponse {
    /// The bytes of the fields from the `k`-th on.
    #[verifier::opaque]
    pub open spec fn wire_from(v: GetRoSpecsResponseView, k: nat) -> Seq<u8>
        decreases 2 - k,
    {
        if k == 0 {
            <LLRPStatus as LLRPValue>::wire(v.status) + Self::wire_from(v, 1)
        } else if k == 1 {
            <Vec<RoSpec> as LLRPValue>::wire(v.ro_specs) + Self::wire_from(v, 2)
        } else {
            Seq::empty()
        }
    }

    /// The bytes of the fields, one field at a time.
    pub proof fn lemma_wire_from(v: GetRoSpecsResponseView)
        ensures
            Self::wire_from(v, 0) == <LLRPStatus as LLRPValue>::wire(v.status)
                + Self::wire_from(v, 1),
            Self::wire_from(v, 1) == <Vec<RoSpec> as LLRPValue>::wire(v.ro_specs)
                + Self::wire_from(v, 2),
            Self::wire_from(v, 2) == Seq::<u8>::empty(),
    {
        reveal(GetRoSpecsResponse::wire_from);
    }

    /// Whether the fields fit the format, each before the fields behind it.
    #[verifier::opaque]
    pub open spec fn fits(v: GetRoSpecsResponseView) -> bool {
        &&& <LLRPStatus as LLRPValue>::canonical(v.status)
        &&& <Vec<RoSpec> as LLRPValue>::canonical(v.ro_specs)
        &&& <Vec<RoSpec> as LLRPValue>::follow_ok(v.ro_specs, Self::wire_from(v, 2))
    }

    /// The fields read in order, or the first error.
    #[verifier::opaque]
    pub open spec fn read_fields(s: DecoderState) -> Result<
        (GetRoSpecsResponseView, DecoderState),
        Error,
    > {
        match <LLRPStatus as LLRPValue>::parse(s) {
            Err(e) => Err(e),
            Ok((status, s)) => match <Vec<RoSpec> as LLRPValue>::parse(s) {
                Err(e) => Err(e),
                Ok((ro_specs, s)) => Ok((GetRoSpecsResponseView { status, ro_specs }, s)),
            },
        }
    }

    /// The state after the fields have been written in order.
    #[verifier::opaque]
    pub open spec fn write_fields(v: GetRoSpecsResponseView, s: EncoderState) -> EncoderState {
        let s = <LLRPStatus as LLRPValue>::emit(v.status, s);
        let s = <Vec<RoSpec> as LLRPValue>::emit(v.ro_specs, s);
        s
    }
}

impl LLRPMessage for GetRoSpecsResponse {
    const ID: u16 = 36;

    open spec fn parse(data: Seq<u8>) -> Result<(GetRoSpecsResponseView, Seq<u8>), Error> {
        match Self::read_fields(DecoderState::start(data)) {
            Err(e) => Err(e),
            Ok((v, s)) => Ok((v, s.bytes)),
        }
    }

    open spec fn emit(v: GetRoSpecsResponseView) -> Seq<u8> {
        Self::write_fields(v, EncoderState::start(Seq::empty())).bytes
    }

    open spec fn canonical(v: GetRoSpecsResponseView) -> bool {
        Self::fits(v)
    }

    proof fn lemma_roundtrip(v: GetRoSpecsResponseView) {
        reveal(GetRoSpecsResponse::fits);
        reveal(GetRoSpecsResponse::read_fields);
        reveal(GetRoSpecsResponse::write_fields);
        let s = EncoderState::start(Seq::<u8>::empty());
        GetRoSpecsResponse::lemma_wire_from(v);
        <LLRPStatus as LLRPValue>::lemma_emit(v.status, s);
        let s1 = s.write_bytes(<LLRPStatus as LLRPValue>::wire(v.status));
        <Vec<RoSpec> as LLRPValue>::lemma_emit(v.ro_specs, s1);
        let s2 = s1.write_bytes(<Vec<RoSpec> as LLRPValue>::wire(v.ro_specs));
        lemma_concat_empty(s2.bytes);
        lemma_concat_assoc(
            s1.bytes,
            <Vec<RoSpec> as LLRPValue>::wire(v.ro_specs),
            GetRoSpecsResponse::wire_from(v, 2),
        );
        lemma_concat_assoc(
            s.bytes,
            <LLRPStatus as LLRPValue>::wire(v.status),
            GetRoSpecsResponse::wire_from(v, 1),
        );
        lemma_concat_front(Self::wire_from(v, 0));
        if Self::canonical(v) {
            GetRoSpecsResponse::lemma_wire_from(v);
            assert(<LLRPStatus as LLRPValue>::parse(DecoderState::start(Self::wire_from(v, 0))) == Ok::<(LLRPStatusView, DecoderState), Error>((v.status, DecoderState::start(Self::wire_from(v, 1))))) by {
                <LLRPStatus as LLRPValue>::lemma_parse(v.status, Self::wire_from(v, 1));
            }
            assert(<Vec<RoSpec> as LLRPValue>::parse(DecoderState::start(Self::wire_from(v, 1))) == Ok::<(Seq<RoSpecView>, DecoderState), Error>((v.ro_specs, DecoderState::start(Self::wire_from(v, 2))))) by {
                <Vec<RoSpec> as LLRPValue>::lemma_parse(v.ro_specs, Self::wire_from(v, 2));
            }
        }
    }

    fn decode(data: &[u8]) -> (r: Result<(Self, &[u8]), Error>) {
        proof {
            reveal(GetRoSpecsResponse::read_fields);
        }
        let mut decoder = Decoder::new(data);
        let decoder = &mut decoder;
        let status = decoder.read::<LLRPStatus>()?;
        let ro_specs = decoder.read::<Vec<RoSpec>>()?;
        Ok((GetRoSpecsResponse { status, ro_specs }, decoder.rest()))
    }

    fn encode(&self, buffer: &mut Vec<u8>) {
        proof {
            reveal(GetRoSpecsResponse::write_fields);
        }
        let mut encoder = Encoder::new(Vec::new());
        let encoder = &mut encoder;
        encoder.write(&self.status);
        encoder.write(&self.ro_specs);
        append_bytes(buffer, encoder.written());
    }

    fn id(&self) -> (id: u16) {
        36
    }
}

/// Hands a tag access operation to the reader.
#[derive(Debug, PartialEq, Eq)]
pub struct AddAccessSpec {
    pub access_spec: AccessSpec,
}

/// The model of a `AddAccessSpec`.
pub struct AddAccessSpecView {
    pub access_spec: AccessSpecView,
}

impl DeepView for AddAccessSpec {
    type V = AddAccessSpecView;

    open spec fn deep_view(&self) -> AddAccessSpecView {
        AddAccessSpecView {
            access_spec: self.access_spec.deep_view(),
        }
    }
}

impl AddAccessSpec {
    /// The bytes of the fields from the `k`-th on.
    #[verifier::opaque]
    pub open spec fn wire_from(v: AddAccessSpecView, k: nat) -> Seq<u8>
        decreases 1 - k,
    {
        if k == 0 {
            <AccessSpec as LLRPValue>::wire(v.access_spec) + Self::wire_from(v, 1)
        } else {
            Seq::empty()
        }
    }

    /// The bytes of the fields, one field at a time.
    pub proof fn lemma_wire_from(v: AddAccessSpecView)
        ensures
            Self::wire_from(v, 0) == <AccessSpec as LLRPValue>::wire(v.access_spec)
                + Self::wire_from(v, 1),
            Self::wire_from(v, 1) == Seq::<u8>::empty(),
    {
        reveal(AddAccessSpec::wire_from);
    }

    /// Whether the fields fit the format, each before the fields behind it.
    #[verifier::opaque]
    pub open spec fn fits(v: AddAccessSpecView) -> bool {
        &&& <AccessSpec as LLRPValue>::canonical(v.access_spec)
    }

    /// The fields read in order, or the first error.
    #[verifier::opaque]
    pub open spec fn read_fields(s: DecoderState) -> Result<
        (AddAccessSpecView, DecoderState),
        Error,
    > {
        match <AccessSpec as LLRPValue>::parse(s) {
            Err(e) => Err(e),
            Ok((access_spec, s)) => Ok((AddAccessSpecView { access_spec }, s)),
        }
    }

    /// The state after the fields have been written in order.
    #[verifier::opaque]
    pub open spec fn write_fields(v: AddAccessSpecView, s: EncoderState) -> EncoderState {
        let s = <AccessSpec as LLRPValue>::emit(v.access_spec, s);
        s
    }
}

impl LLRPMessage for AddAccessSpec {
    const ID: u16 = 40;

    open spec fn parse(data: Seq<u8>) -> Result<(AddAccessSpecView, Seq<u8>), Error> {
        match Self::read_fields(DecoderState::start(data)) {
            Err(e) => Err(e),
            Ok((v, s)) => Ok((v, s.bytes)),
        }
    }

    open spec fn emit(v: AddAccessSpecView) -> Seq<u8> {
        Self::write_fields(v, EncoderState::start(Seq::empty())).bytes
    }

    open spec fn canonical(v: AddAccessSpecView) -> bool {
        Self::fits(v)
    }

    proof fn lemma_roundtrip(v: AddAccessSpecView) {
        reveal(AddAccessSpec::fits);
        reveal(AddAccessSpec::read_fields);
        reveal(AddAccessSpec::write_fields);
        let s = EncoderState::start(Seq::<u8>::empty());
        AddAccessSpec::lemma_wire_from(v);
        <AccessSpec as LLRPValue>::lemma_emit(v.access_spec, s);
        let s1 = s.write_bytes(<AccessSpec as LLRPValue>::wire(v.access_spec));
        lemma_concat_empty(s1.bytes);
        lemma_concat_assoc(
            s.bytes,
            <AccessSpec as LLRPValue>::wire(v.access_spec),
            AddAccessSpec::wire_from(v, 1),
        );
        lemma_concat_front(Self::wire_from(v, 0));
        if Self::canonical(v) {
            AddAccessSpec::lemma_wire_from(v);
            assert(<AccessSpec as LLRPValue>::parse(DecoderState::start(Self::wire_from(v, 0))) == Ok::<(AccessSpecView, DecoderState), Error>((v.access_spec, DecoderState::start(Self::wire_from(v, 1))))) by {
                <AccessSpec as LLRPValue>::lemma_parse(v.access_spec, Self::wire_from(v, 1));
            }
        }
    }

    fn decode(data: &[u8]) -> (r: Result<(Self, &[u8]), Error>) {
        proof {
            reveal(AddAccessSpec::read_fields);
        }
        let mut decoder = Decoder::new(data);
        let decoder = &mut decoder;
        let access_spec = decoder.read::<AccessSpec>()?;
        Ok((AddAccessSpec { access_spec }, decoder.rest()))
    }

    fn encode(&self, buffer: &mut Vec<u8>) {
        proof {
            reveal(AddAccessSpec::write_fields);
        }
        let mut encoder = Encoder::new(Vec::new());
        let encoder = &mut encoder;
        encoder.write(&self.access_spec);
        append_bytes(buffer, encoder.written());
    }

    fn id(&self) -> (id: u16) {
        40
    }
}

/// Answers `AddAccessSpec`.
#[derive(Debug, PartialEq, Eq)]
pub struct AddAccessSpecResponse {
    /// The reader's status.
    pub status: LLRPStatus,
}

/// The model of a `AddAccessSpecResponse`.
pub struct AddAccessSpecResponseView {
    pub status: LLRPStatusView,
}

impl DeepView for AddAccessSpecResponse {
    type V = AddAccessSpecResponseView;

    open spec fn deep_view(&self) -> AddAccessSpecResponseView {
        AddAccessSpecResponseView {
            status: self.status.deep_view(),
        }
    }
}

impl AddAccessSpecResponse {
    /// The bytes of the fields from the `k`-th on.
    #[verifier::opaque]
    pub open spec fn wire_from(v: AddAccessSpecResponseView, k: nat) -> Seq<u8>
        decreases 1 - k,
    {
        if k == 0 {
            <LLRPStatus as LLRPValue>::wire(v.status) + Self::wire_from(v, 1)
        } else {
            Seq::empty()
        }
    }

    /// The bytes of the fields, one field at a time.
    pub proof fn lemma_wire_from(v: AddAccessSpecResponseView)
        ensures
            Self::wire_from(v, 0) == <LLRPStatus as LLRPValue>::wire(v.status)
                + Self::wire_from(v, 1),
            Self::wire_from(v, 1) == Seq::<u8>::empty(),
    {
        reveal(AddAccessSpecResponse::wire_from);
    }

    /// Whether the fields fit the format, each before the fields behind it.
    #[verifier::opaque]
    pub open spec fn fits(v: AddAccessSpecResponseView) -> bool {
        &&& <LLRPStatus as LLRPValue>::canonical(v.status)
    }

    /// The fields read in order, or the first error.
    #[verifier::opaque]
    pub open spec fn read_fields(s: DecoderState) -> Result<
        (AddAccessSpecResponseView, DecoderState),
        Error,
    > {
        match <LLRPStatus as LLRPValue>::parse(s) {
            Err(e) => Err(e),
            Ok((status, s)) => Ok((AddAccessSpecResponseView { status }, s)),
        }
    }

    /// The state after the fields have been written in order.
    #[verifier::opaque]
    pub open spec fn write_fields(v: AddAccessSpecResponseView, s: EncoderState) -> EncoderState {
        let s = <LLRPStatus as LLRPValue>::emit(v.status, s);
        s
    }
}

impl LLRPMessage for AddAccessSpecResponse {
    const ID: u16 = 50;

    open spec fn parse(data: Seq<u8>) -> Result<(AddAccessSpecResponseView, Seq<u8>), Error> {
        match Self::read_fields(DecoderState::start(data)) {
            Err(e) => Err(e),
            Ok((v, s)) => Ok((v, s.bytes)),
        }
    }

    open spec fn emit(v: AddAccessSpecResponseView) -> Seq<u8> {
        Self::write_fields(v, EncoderState::start(Seq::empty())).bytes
    }

    open spec fn canonical(v: AddAccessSpecResponseView) -> bool {
        Self::fits(v)
    }

    proof fn lemma_roundtrip(v: AddAccessSpecResponseView) {
        reveal(AddAccessSpecResponse::fits);
        reveal(AddAccessSpecResponse::read_fields);
        reveal(AddAccessSpecResponse::write_fields);
        let s = EncoderState::start(Seq::<u8>::empty());
        AddAccessSpecResponse::lemma_wire_from(v);
        <LLRPStatus as LLRPValue>::lemma_emit(v.status, s);
        let s1 = s.write_bytes(<LLRPStatus as LLRPValue>::wire(v.status));
        lemma_concat_empty(s1.bytes);
        lemma_concat_assoc(
            s.bytes,
            <LLRPStatus as LLRPValue>::wire(v.status),
            AddAccessSpecResponse::wire_from(v, 1),
        );
        lemma_concat_front(Self::wire_from(v, 0));
        if Self::canonical(v) {
            AddAccessSpecResponse::lemma_wire_from(v);
            assert(<LLRPStatus as LLRPValue>::parse(DecoderState::start(Self::wire_from(v, 0))) == Ok::<(LLRPStatusView, DecoderState), Error>((v.status, DecoderState::start(Self::wire_from(v, 1))))) by {
                <LLRPStatus as LLRPValue>::lemma_parse(v.status, Self::wire_from(v, 1));
            }
        }
    }

    fn decode(data: &[u8]) -> (r: Result<(Self, &[u8]), Error>) {
        proof {
            reveal(AddAccessSpecResponse::read_fields);
        }
        let mut decoder = Decoder::new(data);
        let decoder = &mut decoder;
        let status = decoder.read::<LLRPStatus>()?;
        Ok((AddAccessSpecResponse { status }, decoder.rest()))
    }

    fn encode(&self, buffer: &mut Vec<u8>) {
        proof {
            reveal(AddAccessSpecResponse::write_fields);
        }
        let mut encoder = Encoder::new(Vec::new());
        let encoder = &mut encoder;
        encoder.write(&self.status);
        append_bytes(buffer, encoder.written());
    }

    fn id(&self) -> (id: u16) {
        50
    }
}

/// Deletes a tag access operation.
#[derive(Debug, PartialEq, Eq)]
pub struct DeleteAccessSpec {
    /// The operation to delete; 0 for all.
    pub access_spec_id: u32,
}

impl DeepView for DeleteAccessSpec {
    type V = DeleteAccessSpec;

    open spec fn deep_view(&self) -> DeleteAccessSpec {
        *self
    }
}

impl DeleteAccessSpec {
    /// The bytes of the fields from the `k`-th on.
    #[verifier::opaque]
    pub open spec fn wire_from(v: DeleteAccessSpec, k: nat) -> Seq<u8>
        decreases 1 - k,
    {
        if k == 0 {
            <u32 as LLRPValue>::wire(v.access_spec_id) + Self::wire_from(v, 1)
        } else {
            Seq::empty()
        }
    }

    /// The bytes of the fields, one field at a time.
    pub proof fn lemma_wire_from(v: DeleteAccessSpec)
        ensures
            Self::wire_from(v, 0) == <u32 as LLRPValue>::wire(v.access_spec_id)
                + Self::wire_from(v, 1),
            Self::wire_from(v, 1) == Seq::<u8>::empty(),
    {
        reveal(DeleteAccessSpec::wire_from);
    }

    /// Whether the fields fit the format, each before the fields behind it.
    #[verifier::opaque]
    pub open spec fn fits(v: DeleteAccessSpec) -> bool {
        true
    }

    /// The fields read in order, or the first error.
    #[verifier::opaque]
    pub open spec fn read_fields(s: DecoderState) -> Result<
        (DeleteAccessSpec, DecoderState),
        Error,
    > {
        match <u32 as LLRPValue>::parse(s) {
            Err(e) => Err(e),
            Ok((access_spec_id, s)) => Ok((DeleteAccessSpec { access_spec_id }, s)),
        }
    }

    /// The state after the fields have been written in order.
    #[verifier::opaque]
    pub open spec fn write_fields(v: DeleteAccessSpec, s: EncoderState) -> EncoderState {
        let s = <u32 as LLRPValue>::emit(v.access_spec_id, s);
        s
    }
}

impl LLRPMessage for DeleteAccessSpec {
    const ID: u16 = 41;

    open spec fn parse(data: Seq<u8>) -> Result<(DeleteAccessSpec, Seq<u8>), Error> {
        match Self::read_fields(DecoderState::start(data)) {
            Err(e) => Err(e),
            Ok((v, s)) => Ok((v, s.bytes)),
        }
    }

    open spec fn emit(v: DeleteAccessSpec) -> Seq<u8> {
        Self::write_fields(v, EncoderState::start(Seq::empty())).bytes
    }

    open spec fn canonical(v: DeleteAccessSpec) -> bool {
        Self::fits(v)
    }

    proof fn lemma_roundtrip(v: DeleteAccessSpec) {
        reveal(DeleteAccessSpec::fits);
        reveal(DeleteAccessSpec::read_fields);
        reveal(DeleteAccessSpec::write_fields);
        let s = EncoderState::start(Seq::<u8>::empty());
        DeleteAccessSpec::lemma_wire_from(v);
        <u32 as LLRPValue>::lemma_emit(v.access_spec_id, s);
        let s1 = s.write_bytes(<u32 as LLRPValue>::wire(v.access_spec_id));
        lemma_concat_empty(s1.bytes);
        lemma_concat_assoc(
            s.bytes,
            <u32 as LLRPValue>::wire(v.access_spec_id),
            DeleteAccessSpec::wire_from(v, 1),
        );
        lemma_concat_front(Self::wire_from(v, 0));
        if Self::canonical(v) {
            DeleteAccessSpec::lemma_wire_from(v);
            assert(<u32 as LLRPValue>::parse(DecoderState::start(Self::wire_from(v, 0))) == Ok::<(u32, DecoderState), Error>((v.access_spec_id, DecoderState::start(Self::wire_from(v, 1))))) by {
                <u32 as LLRPValue>::lemma_parse(v.access_spec_id, Self::wire_from(v, 1));
            }
        }
    }

    fn decode(data: &[u8]) -> (r: Result<(Self, &[u8]), Error>) {
        proof {
            reveal(DeleteAccessSpec::read_fields);
        }
        let mut decoder = Decoder::new(data);
        let decoder = &mut decoder;
        let access_spec_id = decoder.read::<u32>()?;
        Ok((DeleteAccessSpec { access_spec_id }, decoder.rest()))
    }

    fn encode(&self, buffer: &mut Vec<u8>) {
        proof {
            reveal(DeleteAccessSpec::write_fields);
        }
        let mut encoder = Encoder::new(Vec::new());
        let encoder = &mut encoder;
        encoder.write(&self.access_spec_id);
        append_bytes(buffer, encoder.written());
    }

    fn id(&self) -> (id: u16) {
        41
    }
}

/// Answers `DeleteAccessSpec`.
#[derive(Debug, PartialEq, Eq)]
pub struct DeleteAccessSpecResponse {
    /// The reader's status.
    pub status: LLRPStatus,
}

/// The model of a `DeleteAccessSpecResponse`.
pub struct DeleteAccessSpecResponseView {
    pub status: LLRPStatusView,
}

impl DeepView for DeleteAccessSpecResponse {
    type V = DeleteAccessSpecResponseView;

    open spec fn deep_view(&self) -> DeleteAccessSpecResponseView {
        DeleteAccessSpecResponseView {
            status: self.status.deep_view(),
        }
    }
}

impl DeleteAccessSpecResponse {
    /// The bytes of the fields from the `k`-th on.
    #[verifier::opaque]
    pub open spec fn wire_from(v: DeleteAccessSpecResponseView, k: nat) -> Seq<u8>
        decreases 1 - k,
    {
        if k == 0 {
            <LLRPStatus as LLRPValue>::wire(v.status) + Self::wire_from(v, 1)
        } else {
            Seq::empty()
        }
    }

    /// The bytes of the fields, one field at a time.
    pub proof fn lemma_wire_from(v: DeleteAccessSpecResponseView)
        ensures
            Self::wire_from(v, 0) == <LLRPStatus as LLRPValue>::wire(v.status)
                + Self::wire_from(v, 1),
            Self::wire_from(v, 1) == Seq::<u8>::empty(),
    {
        reveal(DeleteAccessSpecResponse::wire_from);
    }

    /// Whether the fields fit the format, each before the fields behind it.
    #[verifier::opaque]
    pub open spec fn fits(v: DeleteAccessSpecResponseView) -> bool {
        &&& <LLRPStatus as LLRPValue>::canonical(v.status)
    }

    /// The fields read in order, or the first error.
    #[verifier::opaque]
    pub open spec fn read_fields(s: DecoderState) -> Result<
        (DeleteAccessSpecResponseView, DecoderState),
        Error,
    > {
        match <LLRPStatus as LLRPValue>::parse(s) {
            Err(e) => Err(e),
            Ok((status, s)) => Ok((DeleteAccessSpecResponseView { status }, s)),
        }
    }

    /// The state after the fields have been written in order.
    #[verifier::opaque]
    pub open spec fn write_fields(v: DeleteAccessSpecResponseView, s: EncoderState) -> EncoderState {
        let s = <LLRPStatus as LLRPValue>::emit(v.status, s);
        s
    }
}

impl LLRPMessage for DeleteAccessSpecResponse {
    const ID: u16 = 51;

    open spec fn parse(data: Seq<u8>) -> Result<(DeleteAccessSpecResponseView, Seq<u8>), Error> {
        match Self::read_fields(DecoderState::start(data)) {
            Err(e) => Err(e),
            Ok((v, s)) => Ok((v, s.bytes)),
        }
    }

    open spec fn emit(v: DeleteAccessSpecResponseView) -> Seq<u8> {
        Self::write_fields(v, EncoderState::start(Seq::empty())).bytes
    }

    open spec fn canonical(v: DeleteAccessSpecResponseView) -> bool {
        Self::fits(v)
    }

    proof fn lemma_roundtrip(v: DeleteAccessSpecResponseView) {
        reveal(DeleteAccessSpecResponse::fits);
        reveal(DeleteAccessSpecResponse::read_fields);
        reveal(DeleteAccessSpecResponse::write_fields);
        let s = EncoderState::start(Seq::<u8>::empty());
        DeleteAccessSpecResponse::lemma_wire_from(v);
        <LLRPStatus as LLRPValue>::lemma_emit(v.status, s);
        let s1 = s.write_bytes(<LLRPStatus as LLRPValue>::wire(v.status));
        lemma_concat_empty(s1.bytes);
        lemma_concat_assoc(
            s.bytes,
            <LLRPStatus as LLRPValue>::wire(v.status),
            DeleteAccessSpecResponse::wire_from(v, 1),
        );
        lemma_concat_front(Self::wire_from(v, 0));
        if Self::canonical(v) {
            DeleteAccessSpecResponse::lemma_wire_from(v);
            assert(<LLRPStatus as LLRPValue>::parse(DecoderState::start(Self::wire_from(v, 0))) == Ok::<(LLRPStatusView, DecoderState), Error>((v.status, DecoderState::start(Self::wire_from(v, 1))))) by {
                <LLRPStatus as LLRPValue>::lemma_parse(v.status, Self::wire_from(v, 1));
            }
        }
    }

    fn decode(data: &[u8]) -> (r: Result<(Self, &[u8]), Error>) {
        proof {
            reveal(DeleteAccessSpecResponse::read_fields);
        }
        let mut decoder = Decoder::new(data);
        let decoder = &mut decoder;
        let status = decoder.read::<LLRPStatus>()?;
        Ok((DeleteAccessSpecResponse { status }, decoder.rest()))
    }

    fn encode(&self, buffer: &mut Vec<u8>) {
        proof {
            reveal(DeleteAccessSpecResponse::write_fields);
        }
        let mut encoder = Encoder::new(Vec::new());
        let encoder = &mut encoder;
        encoder.write(&self.status);
        append_bytes(buffer, encoder.written());
    }

    fn id(&self) -> (id: u16) {
        51
    }
}

/// Enables a tag access operation.
#[derive(Debug, PartialEq, Eq)]
pub struct EnableAccessSpec {
    /// The operation to enable; 0 for all.
    pub access_spec_id: u32,
}

impl DeepView for EnableAccessSpec {
    type V = EnableAccessSpec;

    open spec fn deep_view(&self) -> EnableAccessSpec {
        *self
    }
}

impl EnableAccessSpec {
    /// The bytes of the fields from the `k`-th on.
    #[verifier::opaque]
    pub open spec fn wire_from(v: EnableAccessSpec, k: nat) -> Seq<u8>
        decreases 1 - k,
    {
        if k == 0 {
            <u32 as LLRPValue>::wire(v.access_spec_id) + Self::wire_from(v, 1)
        } else {
            Seq::empty()
        }
    }

    /// The bytes of the fields, one field at a time.
    pub proof fn lemma_wire_from(v: EnableAccessSpec)
        ensures
            Self::wire_from(v, 0) == <u32 as LLRPValue>::wire(v.access_spec_id)
                + Self::wire_from(v, 1),
            Self::wire_from(v, 1) == Seq::<u8>::empty(),
    {
        reveal(EnableAccessSpec::wire_from);
    }

    /// Whether the fields fit the format, each before the fields behind it.
    #[verifier::opaque]
    pub open spec fn fits(v: EnableAccessSpec) -> bool {
        true
    }

    /// The fields read in order, or the first error.
    #[verifier::opaque]
    pub open spec fn read_fields(s: DecoderState) -> Result<
        (EnableAccessSpec, DecoderState),
        Error,
    > {
        match <u32 as LLRPValue>::parse(s) {
            Err(e) => Err(e),
            Ok((access_spec_id, s)) => Ok((EnableAccessSpec { access_spec_id }, s)),
        }
    }

    /// The state after the fields have been written in order.
    #[verifier::opaque]
    pub open spec fn write_fields(v: EnableAccessSpec, s: EncoderState) -> EncoderState {
        let s = <u32 as LLRPValue>::emit(v.access_spec_id, s);
        s
    }
}

impl LLRPMessage for EnableAccessSpec {
    const ID: u16 = 42;

    open spec fn parse(data: Seq<u8>) -> Result<(EnableAccessSpec, Seq<u8>), Error> {
        match Self::read_fields(DecoderState::start(data)) {
            Err(e) => Err(e),
            Ok((v, s)) => Ok((v, s.bytes)),
        }
    }

    open spec fn emit(v: EnableAccessSpec) -> Seq<u8> {
        Self::write_fields(v, EncoderState::start(Seq::empty())).bytes
    }

    open spec fn canonical(v: EnableAccessSpec) -> bool {
        Self::fits(v)
    }

    proof fn lemma_roundtrip(v: EnableAccessSpec) {
        reveal(EnableAccessSpec::fits);
        reveal(EnableAccessSpec::read_fields);
        reveal(EnableAccessSpec::write_fields);
        let s = EncoderState::start(Seq::<u8>::empty());
        EnableAccessSpec::lemma_wire_from(v);
        <u32 as LLRPValue>::lemma_emit(v.access_spec_id, s);
        let s1 = s.write_bytes(<u32 as LLRPValue>::wire(v.access_spec_id));
        lemma_concat_empty(s1.bytes);
        lemma_concat_assoc(
            s.bytes,
            <u32 as LLRPValue>::wire(v.access_spec_id),
            EnableAccessSpec::wire_from(v, 1),
        );
        lemma_concat_front(Self::wire_from(v, 0));
        if Self::canonical(v) {
            EnableAccessSpec::lemma_wire_from(v);
            assert(<u32 as LLRPValue>::parse(DecoderState::start(Self::wire_from(v, 0))) == Ok::<(u32, DecoderState), Error>((v.access_spec_id, DecoderState::start(Self::wire_from(v, 1))))) by {
                <u32 as LLRPValue>::lemma_parse(v.access_spec_id, Self::wire_from(v, 1));
            }
        }
    }

    fn decode(data: &[u8]) -> (r: Result<(Self, &[u8]), Error>) {
        proof {
            reveal(EnableAccessSpec::read_fields);
        }
        let mut decoder = Decoder::new(data);
        let decoder = &mut decoder;
        let access_spec_id = decoder.read::<u32>()?;
        Ok((EnableAccessSpec { access_spec_id }, decoder.rest()))
    }

    fn encode(&self, buffer: &mut Vec<u8>) {
        proof {
            reveal(EnableAccessSpec::write_fields);
        }
        let mut encoder = Encoder::new(Vec::new());
        let encoder = &mut encoder;
        encoder.write(&self.access_spec_id);
        append_bytes(buffer, encoder.written());
    }

    fn id(&self) -> (id: u16) {
        42
    }
}

/// Answers `EnableAccessSpec`.
#[derive(Debug, PartialEq, Eq)]
pub struct EnableAccessSpecResponse {
    /// The reader's status.
    pub status: LLRPStatus,
}

/// The model of a `EnableAccessSpecResponse`.
pub struct EnableAccessSpecResponseView {
    pub status: LLRPStatusView,
}

impl DeepView for EnableAccessSpecResponse {
    type V = EnableAccessSpecResponseView;

    open spec fn deep_view(&self) -> EnableAccessSpecResponseView {
        EnableAccessSpecResponseView {
            status: self.status.deep_view(),
        }
    }
}

impl EnableAccessSpecResponse {
    /// The bytes of the fields from the `k`-th on.
    #[verifier::opaque]
    pub open spec fn wire_from(v: EnableAccessSpecResponseView, k: nat) -> Seq<u8>
        decreases 1 - k,
    {
        if k == 0 {
            <LLRPStatus as LLRPValue>::wire(v.status) + Self::wire_from(v, 1)
        } else {
            Seq::empty()
        }
    }

    /// The bytes of the fields, one field at a time.
    pub proof fn lemma_wire_from(v: EnableAccessSpecResponseView)
        ensures
            Self::wire_from(v, 0) == <LLRPStatus as LLRPValue>::wire(v.status)
                + Self::wire_from(v, 1),
            Self::wire_from(v, 1) == Seq::<u8>::empty(),
    {
        reveal(EnableAccessSpecResponse::wire_from);
    }

    /// Whether the fields fit the format, each before the fields behind it.
    #[verifier::opaque]
    pub open spec fn fits(v: EnableAccessSpecResponseView) -> bool {
        &&& <LLRPStatus as LLRPValue>::canonical(v.status)
    }

    /// The fields read in order, or the first error.
    #[verifier::opaque]
    pub open spec fn read_fields(s: DecoderState) -> Result<
        (EnableAccessSpecResponseView, DecoderState),
        Error,
    > {
        match <LLRPStatus as LLRPValue>::parse(s) {
            Err(e) => Err(e),
            Ok((status, s)) => Ok((EnableAccessSpecResponseView { status }, s)),
        }
    }

    /// The state after the fields have been written in order.
    #[verifier::opaque]
    pub open spec fn write_fields(v: EnableAccessSpecResponseView, s: EncoderState) -> EncoderState {
        let s = <LLRPStatus as LLRPValue>::emit(v.status, s);
        s
    }
}

impl LLRPMessage for EnableAccessSpecResponse {
    const ID: u16 = 52;

    open spec fn parse(data: Seq<u8>) -> Result<(EnableAccessSpecResponseView, Seq<u8>), Error> {
        match Self::read_fields(DecoderState::start(data)) {
            Err(e) => Err(e),
            Ok((v, s)) => Ok((v, s.bytes)),
        }
    }

    open spec fn emit(v: EnableAccessSpecResponseView) -> Seq<u8> {
        Self::write_fields(v, EncoderState::start(Seq::empty())).bytes
    }

    open spec fn canonical(v: EnableAccessSpecResponseView) -> bool {
        Self::fits(v)
    }

    proof fn lemma_roundtrip(v: EnableAccessSpecResponseView) {
        reveal(EnableAccessSpecResponse::fits);
        reveal(EnableAccessSpecResponse::read_fields);
        reveal(EnableAccessSpecResponse::write_fields);
        let s = EncoderState::start(Seq::<u8>::empty());
        EnableAccessSpecResponse::lemma_wire_from(v);
        <LLRPStatus as LLRPValue>::lemma_emit(v.status, s);
        let s1 = s.write_bytes(<LLRPStatus as LLRPValue>::wire(v.status));
        lemma_concat_empty(s1.bytes);
        lemma_concat_assoc(
            s.bytes,
            <LLRPStatus as LLRPValue>::wire(v.status),
            EnableAccessSpecResponse::wire_from(v, 1),
        );
        lemma_concat_front(Self::wire_from(v, 0));
        if Self::canonical(v) {
            EnableAccessSpecResponse::lemma_wire_from(v);
            assert(<LLRPStatus as LLRPValue>::parse(DecoderState::start(Self::wire_from(v, 0))) == Ok::<(LLRPStatusView, DecoderState), Error>((v.status, DecoderState::start(Self::wire_from(v, 1))))) by {
                <LLRPStatus as LLRPValue>::lemma_parse(v.status, Self::wire_from(v, 1));
            }
        }
    }

    fn decode(data: &[u8]) -> (r: Result<(Self, &[u8]), Error>) {
        proof {
            reveal(EnableAccessSpecResponse::read_fields);
        }
        let mut decoder = Decoder::new(data);
        let decoder = &mut decoder;
        let status = decoder.read::<LLRPStatus>()?;
        Ok((EnableAccessSpecResponse { status }, decoder.rest()))
    }

    fn encode(&self, buffer: &mut Vec<u8>) {
        proof {
            reveal(EnableAccessSpecResponse::write_fields);
        }
        let mut encoder = Encoder::new(Vec::new());
        let encoder = &mut encoder;
        encoder.write(&self.status);
        append_bytes(buffer, encoder.written());
    }

    fn id(&self) -> (id: u16) {
        52
    }
}

/// Disables a tag access operation.
#[derive(Debug, PartialEq, Eq)]
pub struct DisableAccessSpec {
    /// The operation to disable; 0 for all.
    pub access_spec_id: u32,
}

impl DeepView for DisableAccessSpec {
    type V = DisableAccessSpec;

    open spec fn deep_view(&self) -> DisableAccessSpec {
        *self
    }
}

impl DisableAccessSpec {
    /// The bytes of the fields from the `k`-th on.
    #[verifier::opaque]
    pub open spec fn wire_from(v: DisableAccessSpec, k: nat) -> Seq<u8>
        decreases 1 - k,
    {
        if k == 0 {
            <u32 as LLRPValue>::wire(v.access_spec_id) + Self::wire_from(v, 1)
        } else {
            Seq::empty()
        }
    }

    /// The bytes of the fields, one field at a time.
    pub proof fn lemma_wire_from(v: DisableAccessSpec)
        ensures
            Self::wire_from(v, 0) == <u32 as LLRPValue>::wire(v.access_spec_id)
                + Self::wire_from(v, 1),
            Self::wire_from(v, 1) == Seq::<u8>::empty(),
    {
        reveal(DisableAccessSpec::wire_from);
    }

    /// Whether the fields fit the format, each before the fields behind it.
    #[verifier::opaque]
    pub open spec fn fits(v: DisableAccessSpec) -> bool {
        true
    }

    /// The fields read in order, or the first error.
    #[verifier::opaque]
    pub open spec fn read_fields(s: DecoderState) -> Result<
        (DisableAccessSpec, DecoderState),
        Error,
    > {
        match <u32 as LLRPValue>::parse(s) {
            Err(e) => Err(e),
            Ok((access_spec_id, s)) => Ok((DisableAccessSpec { access_spec_id }, s)),
        }
    }

    /// The state after the fields have been written in order.
    #[verifier::opaque]
    pub open spec fn write_fields(v: DisableAccessSpec, s: EncoderState) -> EncoderState {
        let s = <u32 as LLRPValue>::emit(v.access_spec_id, s);
        s
    }
}

impl LLRPMessage for DisableAccessSpec {
    const ID: u16 = 43;

    open spec fn parse(data: Seq<u8>) -> Result<(DisableAccessSpec, Seq<u8>), Error> {
        match Self::read_fields(DecoderState::start(data)) {
            Err(e) => Err(e),
            Ok((v, s)) => Ok((v, s.bytes)),
        }
    }

    open spec fn emit(v: DisableAccessSpec) -> Seq<u8> {
        Self::write_fields(v, EncoderState::start(Seq::empty())).bytes
    }

    open spec fn canonical(v: DisableAccessSpec) -> bool {
        Self::fits(v)
    }

    proof fn lemma_roundtrip(v: DisableAccessSpec) {
        reveal(DisableAccessSpec::fits);
        reveal(DisableAccessSpec::read_fields);
        reveal(DisableAccessSpec::write_fields);
        let s = EncoderState::start(Seq::<u8>::empty());
        DisableAccessSpec::lemma_wire_from(v);
        <u32 as LLRPValue>::lemma_emit(v.access_spec_id, s);
        let s1 = s.write_bytes(<u32 as LLRPValue>::wire(v.access_spec_id));
        lemma_concat_empty(s1.bytes);
        lemma_concat_assoc(
            s.bytes,
            <u32 as LLRPValue>::wire(v.access_spec_id),
            DisableAccessSpec::wire_from(v, 1),
        );
        lemma_concat_front(Self::wire_from(v, 0));
        if Self::canonical(v) {
            DisableAccessSpec::lemma_wire_from(v);
            assert(<u32 as LLRPValue>::parse(DecoderState::start(Self::wire_from(v, 0))) == Ok::<(u32, DecoderState), Error>((v.access_spec_id, DecoderState::start(Self::wire_from(v, 1))))) by {
                <u32 as LLRPValue>::lemma_parse(v.access_spec_id, Self::wire_from(v, 1));
            }
        }
    }

    fn decode(data: &[u8]) -> (r: Result<(Self, &[u8]), Error>) {
        proof {
            reveal(DisableAccessSpec::read_fields);
        }
        let mut decoder = Decoder::new(data);
        let decoder = &mut decoder;
        let access_spec_id = decoder.read::<u32>()?;
        Ok((DisableAccessSpec { access_spec_id }, decoder.rest()))
    }

    fn encode(&self, buffer: &mut Vec<u8>) {
        proof {
            reveal(DisableAccessSpec::write_fields);
        }
        let mut encoder = Encoder::new(Vec::new());
        let encoder = &mut encoder;
        encoder.write(&self.access_spec_id);
        append_bytes(buffer, encoder.written());
    }

    fn id(&self) -> (id: u16) {
        43
    }
}

/// Answers `DisableAccessSpec`.
#[derive(Debug, PartialEq, Eq)]
pub struct DisableAccessSpecResponse {
    /// The reader's status.
    pub status: LLRPStatus,
}

/// The model of a `DisableAccessSpecResponse`.
pub struct DisableAccessSpecResponseView {
    pub status: LLRPStatusView,
}

impl DeepView for DisableAccessSpecResponse {
    type V = DisableAccessSpecResponseView;

    open spec fn deep_view(&self) -> DisableAccessSpecResponseView {
        DisableAccessSpecResponseView {
            status: self.status.deep_view(),
        }
    }
}

impl DisableAccessSpecResponse {
    /// The bytes of the fields from the `k`-th on.
    #[verifier::opaque]
    pub open spec fn wire_from(v: DisableAccessSpecResponseView, k: nat) -> Seq<u8>
        decreases 1 - k,
    {
        if k == 0 {
            <LLRPStatus as LLRPValue>::wire(v.status) + Self::wire_from(v, 1)
        } else {
            Seq::empty()
        }
    }

    /// The bytes of the fields, one field at a time.
    pub proof fn lemma_wire_from(v: DisableAccessSpecResponseView)
        ensures
            Self::wire_from(v, 0) == <LLRPStatus as LLRPValue>::wire(v.status)
                + Self::wire_from(v, 1),
            Self::wire_from(v, 1) == Seq::<u8>::empty(),
    {
        reveal(DisableAccessSpecResponse::wire_from);
    }

    /// Whether the fields fit the format, each before the fields behind it.
    #[verifier::opaque]
    pub open spec fn fits(v: DisableAccessSpecResponseView) -> bool {
        &&& <LLRPStatus as LLRPValue>::canonical(v.status)
    }

    /// The fields read in order, or the first error.
    #[verifier::opaque]
    pub open spec fn read_fields(s: DecoderState) -> Result<
        (DisableAccessSpecResponseView, DecoderState),
        Error,
    > {
        match <LLRPStatus as LLRPValue>::parse(s) {
            Err(e) => Err(e),
            Ok((status, s)) => Ok((DisableAccessSpecResponseView { status }, s)),
        }
    }

    /// The state after the fields have been written in order.
    #[verifier::opaque]
    pub open spec fn write_fields(v: DisableAccessSpecResponseView, s: EncoderState) -> EncoderState {
        let s = <LLRPStatus as LLRPValue>::emit(v.status, s);
        s
    }
}

impl LLRPMessage for DisableAccessSpecResponse {
    const ID: u16 = 53;

    open spec fn parse(data: Seq<u8>) -> Result<(DisableAccessSpecResponseView, Seq<u8>), Error> {
        match Self::read_fields(DecoderState::start(data)) {
            Err(e) => Err(e),
            Ok((v, s)) => Ok((v, s.bytes)),
        }
    }

    open spec fn emit(v: DisableAccessSpecResponseView) -> Seq<u8> {
        Self::write_fields(v, EncoderState::start(Seq::empty())).bytes
    }

    open spec fn canonical(v: DisableAccessSpecResponseView) -> bool {
        Self::fits(v)
    }

    proof fn lemma_roundtrip(v: DisableAccessSpecResponseView) {
        reveal(DisableAccessSpecResponse::fits);
        reveal(DisableAccessSpecResponse::read_fields);
        reveal(DisableAccessSpecResponse::write_fields);
        let s = EncoderState::start(Seq::<u8>::empty());
        DisableAccessSpecResponse::lemma_wire_from(v);
        <LLRPStatus as LLRPValue>::lemma_emit(v.status, s);
        let s1 = s.write_bytes(<LLRPStatus as LLRPValue>::wire(v.status));
        lemma_concat_empty(s1.bytes);
        lemma_concat_assoc(
            s.bytes,
            <LLRPStatus as LLRPValue>::wire(v.status),
            DisableAccessSpecResponse::wire_from(v, 1),
        );
        lemma_concat_front(Self::wire_from(v, 0));
        if Self::canonical(v) {
            DisableAccessSpecResponse::lemma_wire_from(v);
            assert(<LLRPStatus as LLRPValue>::parse(DecoderState::start(Self::wire_from(v, 0))) == Ok::<(LLRPStatusView, DecoderState), Error>((v.status, DecoderState::start(Self::wire_from(v, 1))))) by {
                <LLRPStatus as LLRPValue>::lemma_parse(v.status, Self::wire_from(v, 1));
            }
        }
    }

    fn decode(data: &[u8]) -> (r: Result<(Self, &[u8]), Error>) {
        proof {
            reveal(DisableAccessSpecResponse::read_fields);
        }
        let mut decoder = Decoder::new(data);
        let decoder = &mut decoder;
        let status = decoder.read::<LLRPStatus>()?;
        Ok((DisableAccessSpecResponse { status }, decoder.rest()))
    }

    fn encode(&self, buffer: &mut Vec<u8>) {
        proof {
            reveal(DisableAccessSpecResponse::write_fields);
        }
        let mut encoder = Encoder::new(Vec::new());
        let encoder = &mut encoder;
        encoder.write(&self.status);
        append_bytes(buffer, encoder.written());
    }

    fn id(&self) -> (id: u16) {
        53
    }
}

/// Asks for the tag access operations that the reader holds.
#[derive(Debug, PartialEq, Eq)]
pub struct GetAccessSpecs {}

impl DeepView for GetAccessSpecs {
    type V = GetAccessSpecs;

    open spec fn deep_view(&self) -> GetAccessSpecs {
        *self
    }
}

impl GetAccessSpecs {
    /// The bytes of the fields from the `k`-th on.
    #[verifier::opaque]
    pub open spec fn wire_from(v: GetAccessSpecs, k: nat) -> Seq<u8>
        decreases 0 - k,
    {
        {
            Seq::empty()
        }
    }

    /// The bytes of the fields, one field at a time.
    pub proof fn lemma_wire_from(v: GetAccessSpecs)
        ensures
            Self::wire_from(v, 0) == Seq::<u8>::empty(),
    {
        reveal(GetAccessSpecs::wire_from);
    }

    /// Whether the fields fit the format, each before the fields behind it.
    #[verifier::opaque]
    pub open spec fn fits(v: GetAccessSpecs) -> bool {
        true
    }

    /// The fields read in order, or the first error.
    #[verifier::opaque]
    pub open spec fn read_fields(s: DecoderState) -> Result<(GetAccessSpecs, DecoderState), Error> {
        Ok((GetAccessSpecs {  }, s))
    }

    /// The state after the fields have been written in order.
    #[verifier::opaque]
    pub open spec fn write_fields(v: GetAccessSpecs, s: EncoderState) -> EncoderState {
        s
    }
}

impl LLRPMessage for GetAccessSpecs {
    const ID: u16 = 44;

    open spec fn parse(data: Seq<u8>) -> Result<(GetAccessSpecs, Seq<u8>), Error> {
        match Self::read_fields(DecoderState::start(data)) {
            Err(e) => Err(e),
            Ok((v, s)) => Ok((v, s.bytes)),
        }
    }

    open spec fn emit(v: GetAccessSpecs) -> Seq<u8> {
        Self::write_fields(v, EncoderState::start(Seq::empty())).bytes
    }

    open spec fn canonical(v: GetAccessSpecs) -> bool {
        Self::fits(v)
    }

    proof fn lemma_roundtrip(v: GetAccessSpecs) {
        reveal(GetAccessSpecs::fits);
        reveal(GetAccessSpecs::read_fields);
        reveal(GetAccessSpecs::write_fields);
        let s = EncoderState::start(Seq::<u8>::empty());
        GetAccessSpecs::lemma_wire_from(v);
        lemma_concat_empty(s.bytes);
        lemma_concat_front(Self::wire_from(v, 0));
        if Self::canonical(v) {
            GetAccessSpecs::lemma_wire_from(v);
        }
    }

    fn decode(data: &[u8]) -> (r: Result<(Self, &[u8]), Error>) {
        proof {
            reveal(GetAccessSpecs::read_fields);
        }
        let mut decoder = Decoder::new(data);
        let decoder = &mut decoder;
        Ok((GetAccessSpecs {   }, decoder.rest()))
    }

    fn encode(&self, buffer: &mut Vec<u8>) {
        proof {
            reveal(GetAccessSpecs::write_fields);
        }
        let mut encoder = Encoder::new(Vec::new());
        let encoder = &mut encoder;
        append_bytes(buffer, encoder.written());
    }

    fn id(&self) -> (id: u16) {
        44
    }
}

/// The tag access operations that the reader holds, in the order in which they
/// were added.
#[derive(Debug, PartialEq, Eq)]
pub struct GetAccessSpecsResponse {
    /// The reader's status.
    pub status: LLRPStatus,
    pub access_specs: Vec<AccessSpec>,
}

/// The model of a `GetAccessSpecsResponse`.
pub struct GetAccessSpecsResponseView {
    pub status: LLRPStatusView,
    pub access_specs: Seq<AccessSpecView>,
}

impl DeepView for GetAccessSpecsResponse {
    type V = GetAccessSpecsResponseView;

    open spec fn deep_view(&self) -> GetAccessSpecsResponseView {
        GetAccessSpecsResponseView {
            status: self.status.deep_view(),
            access_specs: self.access_specs.deep_view(),
        }
    }
}

impl GetAccessSpecsResponse {
    /// The bytes of the fields from the `k`-th on.
    #[verifier::opaque]
    pub open spec fn wire_from(v: GetAccessSpecsResponseView, k: nat) -> Seq<u8>
        decreases 2 - k,
    {
        if k == 0 {
            <LLRPStatus as LLRPValue>::wire(v.status) + Self::wire_from(v, 1)
        } else if k == 1 {
            <Vec<AccessSpec> as LLRPValue>::wire(v.access_specs) + Self::wire_from(v, 2)
        } else {
            Seq::empty()
        }
    }

    /// The bytes of the fields, one field at a time.
    pub proof fn lemma_wire_from(v: GetAccessSpecsResponseView)
        ensures
            Self::wire_from(v, 0) == <LLRPStatus as LLRPValue>::wire(v.status)
                + Self::wire_from(v, 1),
            Self::wire_from(v, 1) == <Vec<AccessSpec> as LLRPValue>::wire(v.access_specs)
                + Self::wire_from(v, 2),
            Self::wire_from(v, 2) == Seq::<u8>::empty(),
    {
        reveal(GetAccessSpecsResponse::wire_from);
    }

    /// Whether the fields fit the format, each before the fields behind it.
    #[verifier::opaque]
    pub open spec fn fits(v: GetAccessSpecsResponseView) -> bool {
        &&& <LLRPStatus as LLRPValue>::canonical(v.status)
        &&& <Vec<AccessSpec> as LLRPValue>::canonical(v.access_specs)
        &&& <Vec<AccessSpec> as LLRPValue>::follow_ok(v.access_specs, Self::wire_from(v, 2))
    }

    /// The fields read in order, or the first error.
    #[verifier::opaque]
    pub open spec fn read_fields(s: DecoderState) -> Result<
        (GetAccessSpecsResponseView, DecoderState),
        Error,
    > {
        match <LLRPStatus as LLRPValue>::parse(s) {
            Err(e) => Err(e),
            Ok((status, s)) => match <Vec<AccessSpec> as LLRPValue>::parse(s) {
                Err(e) => Err(e),
                Ok(
                    (access_specs, s)) => Ok((GetAccessSpecsResponseView { status, access_specs },
                    s),
                ),
            },
        }
    }

    /// The state after the fields have been written in order.
    #[verifier::opaque]
    pub open spec fn write_fields(v: GetAccessSpecsResponseView, s: EncoderState) -> EncoderState {
        let s = <LLRPStatus as LLRPValue>::emit(v.status, s);
        let s = <Vec<AccessSpec> as LLRPValue>::emit(v.access_specs, s);
        s
    }
}

impl LLRPMessage for GetAccessSpecsResponse {
    const ID: u16 = 54;

    open spec fn parse(data: Seq<u8>) -> Result<(GetAccessSpecsResponseView, Seq<u8>), Error> {
        match Self::read_fields(DecoderState::start(data)) {
            Err(e) => Err(e),
            Ok((v, s)) => Ok((v, s.bytes)),
        }
    }

    open spec fn emit(v: GetAccessSpecsResponseView) -> Seq<u8> {
        Self::write_fields(v, EncoderState::start(Seq::empty())).bytes
    }

    open spec fn canonical(v: GetAccessSpecsResponseView) -> bool {
        Self::fits(v)
    }

    proof fn lemma_roundtrip(v: GetAccessSpecsResponseView) {
        reveal(GetAccessSpecsResponse::fits);
        reveal(GetAccessSpecsResponse::read_fields);
        reveal(GetAccessSpecsResponse::write_fields);
        let s = EncoderState::start(Seq::<u8>::empty());
        GetAccessSpecsResponse::lemma_wire_from(v);
        <LLRPStatus as LLRPValue>::lemma_emit(v.status, s);
        let s1 = s.write_bytes(<LLRPStatus as LLRPValue>::wire(v.status));
        <Vec<AccessSpec> as LLRPValue>::lemma_emit(v.access_specs, s1);
        let s2 = s1.write_bytes(<Vec<AccessSpec> as LLRPValue>::wire(v.access_specs));
        lemma_concat_empty(s2.bytes);
        lemma_concat_assoc(
            s1.bytes,
            <Vec<AccessSpec> as LLRPValue>::wire(v.access_specs),
            GetAccessSpecsResponse::wire_from(v, 2),
        );
        lemma_concat_assoc(
            s.bytes,
            <LLRPStatus as LLRPValue>::wire(v.status),
            GetAccessSpecsResponse::wire_from(v, 1),
        );
        lemma_concat_front(Self::wire_from(v, 0));
        if Self::canonical(v) {
            GetAccessSpecsResponse::lemma_wire_from(v);
            assert(<LLRPStatus as LLRPValue>::parse(DecoderState::start(Self::wire_from(v, 0))) == Ok::<(LLRPStatusView, DecoderState), Error>((v.status, DecoderState::start(Self::wire_from(v, 1))))) by {
                <LLRPStatus as LLRPValue>::lemma_parse(v.status, Self::wire_from(v, 1));
            }
            assert(<Vec<AccessSpec> as LLRPValue>::parse(DecoderState::start(Self::wire_from(v, 1))) == Ok::<(Seq<AccessSpecView>, DecoderState), Error>((v.access_specs, DecoderState::start(Self::wire_from(v, 2))))) by {
                <Vec<AccessSpec> as LLRPValue>::lemma_parse(v.access_specs, Self::wire_from(v, 2));
            }
        }
    }

    fn decode(data: &[u8]) -> (r: Result<(Self, &[u8]), Error>) {
        proof {
            reveal(GetAccessSpecsResponse::read_fields);
        }
        let mut decoder = Decoder::new(data);
        let decoder = &mut decoder;
        let status = decoder.read::<LLRPStatus>()?;
        let access_specs = decoder.read::<Vec<AccessSpec>>()?;
        Ok((GetAccessSpecsResponse { status, access_specs }, decoder.rest()))
    }

    fn encode(&self, buffer: &mut Vec<u8>) {
        proof {
            reveal(GetAccessSpecsResponse::write_fields);
        }
        let mut encoder = Encoder::new(Vec::new());
        let encoder = &mut encoder;
        encoder.write(&self.status);
        encoder.write(&self.access_specs);
        append_bytes(buffer, encoder.written());
    }

    fn id(&self) -> (id: u16) {
        54
    }
}

/// Sent by a reader that is to ask the client what to do with a tag.
#[derive(Debug, PartialEq, Eq)]
pub struct ClientRequestOp {
    /// What the reader has seen and done so far.
    pub tag_report: Vec<TagReportData>,
}

/// The model of a `ClientRequestOp`.
pub struct ClientRequestOpView {
    pub tag_report: Seq<TagReportDataView>,
}

impl DeepView for ClientRequestOp {
    type V = ClientRequestOpView;

    open spec fn deep_view(&self) -> ClientRequestOpView {
        ClientRequestOpView {
            tag_report: self.tag_report.deep_view(),
        }
    }
}

impl ClientRequestOp {
    /// The bytes of the fields from the `k`-th on.
    #[verifier::opaque]
    pub open spec fn wire_from(v: ClientRequestOpView, k: nat) -> Seq<u8>
        decreases 1 - k,
    {
        if k == 0 {
            <Vec<TagReportData> as LLRPValue>::wire(v.tag_report) + Self::wire_from(v, 1)
        } else {
            Seq::empty()
        }
    }

    /// The bytes of the fields, one field at a time.
    pub proof fn lemma_wire_from(v: ClientRequestOpView)
        ensures
            Self::wire_from(v, 0) == <Vec<TagReportData> as LLRPValue>::wire(v.tag_report)
                + Self::wire_from(v, 1),
            Self::wire_from(v, 1) == Seq::<u8>::empty(),
    {
        reveal(ClientRequestOp::wire_from);
    }

    /// Whether the fields fit the format, each before the fields behind it.
    #[verifier::opaque]
    pub open spec fn fits(v: ClientRequestOpView) -> bool {
        &&& <Vec<TagReportData> as LLRPValue>::canonical(v.tag_report)
        &&& <Vec<TagReportData> as LLRPValue>::follow_ok(v.tag_report, Self::wire_from(v, 1))
    }

    /// The fields read in order, or the first error.
    #[verifier::opaque]
    pub open spec fn read_fields(s: DecoderState) -> Result<
        (ClientRequestOpView, DecoderState),
        Error,
    > {
        match <Vec<TagReportData> as LLRPValue>::parse(s) {
            Err(e) => Err(e),
            Ok((tag_report, s)) => Ok((ClientRequestOpView { tag_report }, s)),
        }
    }

    /// The state after the fields have been written in order.
    #[verifier::opaque]
    pub open spec fn write_fields(v: ClientRequestOpView, s: EncoderState) -> EncoderState {
        let s = <Vec<TagReportData> as LLRPValue>::emit(v.tag_report, s);
        s
    }
}

impl LLRPMessage for ClientRequestOp {
    const ID: u16 = 45;

    open spec fn parse(data: Seq<u8>) -> Result<(ClientRequestOpView, Seq<u8>), Error> {
        match Self::read_fields(DecoderState::start(data)) {
            Err(e) => Err(e),
            Ok((v, s)) => Ok((v, s.bytes)),
        }
    }

    open spec fn emit(v: ClientRequestOpView) -> Seq<u8> {
        Self::write_fields(v, EncoderState::start(Seq::empty())).bytes
    }

    open spec fn canonical(v: ClientRequestOpView) -> bool {
        Self::fits(v)
    }

    proof fn lemma_roundtrip(v: ClientRequestOpView) {
        reveal(ClientRequestOp::fits);
        reveal(ClientRequestOp::read_fields);
        reveal(ClientRequestOp::write_fields);
        let s = EncoderState::start(Seq::<u8>::empty());
        ClientRequestOp::lemma_wire_from(v);
        <Vec<TagReportData> as LLRPValue>::lemma_emit(v.tag_report, s);
        let s1 = s.write_bytes(<Vec<TagReportData> as LLRPValue>::wire(v.tag_report));
        lemma_concat_empty(s1.bytes);
        lemma_concat_assoc(
            s.bytes,
            <Vec<TagReportData> as LLRPValue>::wire(v.tag_report),
            ClientRequestOp::wire_from(v, 1),
        );
        lemma_concat_front(Self::wire_from(v, 0));
        if Self::canonical(v) {
            ClientRequestOp::lemma_wire_from(v);
            assert(<Vec<TagReportData> as LLRPValue>::parse(DecoderState::start(Self::wire_from(v, 0))) == Ok::<(Seq<TagReportDataView>, DecoderState), Error>((v.tag_report, DecoderState::start(Self::wire_from(v, 1))))) by {
                <Vec<TagReportData> as LLRPValue>::lemma_parse(v.tag_report, Self::wire_from(v, 1));
            }
        }
    }

    fn decode(data: &[u8]) -> (r: Result<(Self, &[u8]), Error>) {
        proof {
            reveal(ClientRequestOp::read_fields);
        }
        let mut decoder = Decoder::new(data);
        let decoder = &mut decoder;
        let tag_report = decoder.read::<Vec<TagReportData>>()?;
        Ok((ClientRequestOp { tag_report }, decoder.rest()))
    }

    fn encode(&self, buffer: &mut Vec<u8>) {
        proof {
            reveal(ClientRequestOp::write_fields);
        }
        let mut encoder = Encoder::new(Vec::new());
        let encoder = &mut encoder;
        encoder.write(&self.tag_report);
        append_bytes(buffer, encoder.written());
    }

    fn id(&self) -> (id: u16) {
        45
    }
}

/// Asks the reader for its configuration.
#[derive(Debug, PartialEq, Eq)]
pub struct GetReaderConfig {
    /// All of the configuration, or one part of it.
    pub requested_data: ConfigRequestedData,
    /// The antenna that is asked about; 0 for all.
    pub antenna_id: u16,
    /// The input that is asked about; 0 for all.
    pub gpi_port_num: u16,
    /// The output that is asked about; 0 for all.
    pub gpo_port_num: u16,
    pub custom: Vec<CustomParameter>,
}

/// The model of a `GetReaderConfig`.
pub struct GetReaderConfigView {
    pub requested_data: ConfigRequestedData,
    pub antenna_id: u16,
    pub gpi_port_num: u16,
    pub gpo_port_num: u16,
    pub custom: Seq<CustomParameter>,
}

impl DeepView for GetReaderConfig {
    type V = GetReaderConfigView;

    open spec fn deep_view(&self) -> GetReaderConfigView {
        GetReaderConfigView {
            requested_data: self.requested_data,
            antenna_id: self.antenna_id,
            gpi_port_num: self.gpi_port_num,
            gpo_port_num: self.gpo_port_num,
            custom: self.custom.deep_view(),
        }
    }
}

impl GetReaderConfig {
    /// The bytes of the fields from the `k`-th on.
    #[verifier::opaque]
    pub open spec fn wire_from(v: GetReaderConfigView, k: nat) -> Seq<u8>
        decreases 5 - k,
    {
        if k == 0 {
            <u8 as LLRPValue>::wire(<u8 as Bits>::of_bits(v.requested_data.value()))
                + Self::wire_from(v, 1)
        } else if k == 1 {
            <u16 as LLRPValue>::wire(v.antenna_id) + Self::wire_from(v, 2)
        } else if k == 2 {
            <u16 as LLRPValue>::wire(v.gpi_port_num) + Self::wire_from(v, 3)
        } else if k == 3 {
            <u16 as LLRPValue>::wire(v.gpo_port_num) + Self::wire_from(v, 4)
        } else if k == 4 {
            <Vec<CustomParameter> as LLRPValue>::wire(v.custom) + Self::wire_from(v, 5)
        } else {
            Seq::empty()
        }
    }

    /// The bytes of the fields, one field at a time.
    pub proof fn lemma_wire_from(v: GetReaderConfigView)
        ensures
            Self::wire_from(v, 0) == <u8 as LLRPValue>::wire(<u8 as Bits>::of_bits(v.requested_data.value()))
                + Self::wire_from(v, 1),
            Self::wire_from(v, 1) == <u16 as LLRPValue>::wire(v.antenna_id) + Self::wire_from(v, 2),
            Self::wire_from(v, 2) == <u16 as LLRPValue>::wire(v.gpi_port_num)
                + Self::wire_from(v, 3),
            Self::wire_from(v, 3) == <u16 as LLRPValue>::wire(v.gpo_port_num)
                + Self::wire_from(v, 4),
            Self::wire_from(v, 4) == <Vec<CustomParameter> as LLRPValue>::wire(v.custom)
                + Self::wire_from(v, 5),
            Self::wire_from(v, 5) == Seq::<u8>::empty(),
    {
        reveal(GetReaderConfig::wire_from);
    }

    /// Whether the fields fit the format, each before the fields behind it.
    #[verifier::opaque]
    pub open spec fn fits(v: GetReaderConfigView) -> bool {
        &&& enum_fits::<ConfigRequestedData, u8>(v.requested_data)
        &&& <Vec<CustomParameter> as LLRPValue>::canonical(v.custom)
        &&& <Vec<CustomParameter> as LLRPValue>::follow_ok(v.custom, Self::wire_from(v, 5))
    }

    /// The fields read in order, or the first error.
    #[verifier::opaque]
    pub open spec fn read_fields(s: DecoderState) -> Result<
        (GetReaderConfigView, DecoderState),
        Error,
    > {
        match parse_enum::<ConfigRequestedData, u8>(s) {
            Err(e) => Err(e),
            Ok((requested_data, s)) => match <u16 as LLRPValue>::parse(s) {
                Err(e) => Err(e),
                Ok((antenna_id, s)) => match <u16 as LLRPValue>::parse(s) {
                    Err(e) => Err(e),
                    Ok((gpi_port_num, s)) => match <u16 as LLRPValue>::parse(s) {
                        Err(e) => Err(e),
                        Ok((gpo_port_num, s)) => match <Vec<CustomParameter> as LLRPValue>::parse(s) {
                            Err(e) => Err(e),
                            Ok((custom, s)) => Ok(
                                (
                                    GetReaderConfigView {
                                        requested_data,
                                        antenna_id,
                                        gpi_port_num,
                                        gpo_port_num,
                                        custom,
                                    },
                                    s,
                                ),
                            ),
                        },
                    },
                },
            },
        }
    }

    /// The state after the fields have been written in order.
    #[verifier::opaque]
    pub open spec fn write_fields(v: GetReaderConfigView, s: EncoderState) -> EncoderState {
        let s = <u8 as LLRPValue>::emit(<u8 as Bits>::of_bits(v.requested_data.value()), s);
        let s = <u16 as LLRPValue>::emit(v.antenna_id, s);
        let s = <u16 as LLRPValue>::emit(v.gpi_port_num, s);
        let s = <u16 as LLRPValue>::emit(v.gpo_port_num, s);
        let s = <Vec<CustomParameter> as LLRPValue>::emit(v.custom, s);
        s
    }
}

impl LLRPMessage for GetReaderConfig {
    const ID: u16 = 2;

    open spec fn parse(data: Seq<u8>) -> Result<(GetReaderConfigView, Seq<u8>), Error> {
        match Self::read_fields(DecoderState::start(data)) {
            Err(e) => Err(e),
            Ok((v, s)) => Ok((v, s.bytes)),
        }
    }

    open spec fn emit(v: GetReaderConfigView) -> Seq<u8> {
        Self::write_fields(v, EncoderState::start(Seq::empty())).bytes
    }

    open spec fn canonical(v: GetReaderConfigView) -> bool {
        Self::fits(v)
    }

    proof fn lemma_roundtrip(v: GetReaderConfigView) {
        reveal(GetReaderConfig::fits);
        reveal(GetReaderConfig::read_fields);
        reveal(GetReaderConfig::write_fields);
        let s = EncoderState::start(Seq::<u8>::empty());
        GetReaderConfig::lemma_wire_from(v);
        <u8 as LLRPValue>::lemma_emit(<u8 as Bits>::of_bits(v.requested_data.value()), s);
        let s1 = s.write_bytes(
            <u8 as LLRPValue>::wire(<u8 as Bits>::of_bits(v.requested_data.value())),
        );
        <u16 as LLRPValue>::lemma_emit(v.antenna_id, s1);
        let s2 = s1.write_bytes(<u16 as LLRPValue>::wire(v.antenna_id));
        <u16 as LLRPValue>::lemma_emit(v.gpi_port_num, s2);
        let s3 = s2.write_bytes(<u16 as LLRPValue>::wire(v.gpi_port_num));
        <u16 as LLRPValue>::lemma_emit(v.gpo_port_num, s3);
        let s4 = s3.write_bytes(<u16 as LLRPValue>::wire(v.gpo_port_num));
        <Vec<CustomParameter> as LLRPValue>::lemma_emit(v.custom, s4);
        let s5 = s4.write_bytes(<Vec<CustomParameter> as LLRPValue>::wire(v.custom));
        lemma_concat_empty(s5.bytes);
        lemma_concat_assoc(
            s4.bytes,
            <Vec<CustomParameter> as LLRPValue>::wire(v.custom),
            GetReaderConfig::wire_from(v, 5),
        );
        lemma_concat_assoc(
            s3.bytes,
            <u16 as LLRPValue>::wire(v.gpo_port_num),
            GetReaderConfig::wire_from(v, 4),
        );
        lemma_concat_assoc(
            s2.bytes,
            <u16 as LLRPValue>::wire(v.gpi_port_num),
            GetReaderConfig::wire_from(v, 3),
        );
        lemma_concat_assoc(
            s1.bytes,
            <u16 as LLRPValue>::wire(v.antenna_id),
            GetReaderConfig::wire_from(v, 2),
        );
        lemma_concat_assoc(
            s.bytes,
            <u8 as LLRPValue>::wire(<u8 as Bits>::of_bits(v.requested_data.value())),
            GetReaderConfig::wire_from(v, 1),
        );
        lemma_concat_front(Self::wire_from(v, 0));
        if Self::canonical(v) {
            GetReaderConfig::lemma_wire_from(v);
            assert(parse_enum::<ConfigRequestedData, u8>(DecoderState::start(Self::wire_from(v, 0))) == Ok::<(ConfigRequestedData, DecoderState), Error>((v.requested_data, DecoderState::start(Self::wire_from(v, 1))))) by {
                lemma_enum_front::<ConfigRequestedData, u8>(
                    v.requested_data,
                    Self::wire_from(v, 1),
                );
            }
            assert(<u16 as LLRPValue>::parse(DecoderState::start(Self::wire_from(v, 1))) == Ok::<(u16, DecoderState), Error>((v.antenna_id, DecoderState::start(Self::wire_from(v, 2))))) by {
                <u16 as LLRPValue>::lemma_parse(v.antenna_id, Self::wire_from(v, 2));
            }
            assert(<u16 as LLRPValue>::parse(DecoderState::start(Self::wire_from(v, 2))) == Ok::<(u16, DecoderState), Error>((v.gpi_port_num, DecoderState::start(Self::wire_from(v, 3))))) by {
                <u16 as LLRPValue>::lemma_parse(v.gpi_port_num, Self::wire_from(v, 3));
            }
            assert(<u16 as LLRPValue>::parse(DecoderState::start(Self::wire_from(v, 3))) == Ok::<(u16, DecoderState), Error>((v.gpo_port_num, DecoderState::start(Self::wire_from(v, 4))))) by {
                <u16 as LLRPValue>::lemma_parse(v.gpo_port_num, Self::wire_from(v, 4));
            }
            assert(<Vec<CustomParameter> as LLRPValue>::parse(DecoderState::start(Self::wire_from(v, 4))) == Ok::<(Seq<CustomParameter>, DecoderState), Error>((v.custom, DecoderState::start(Self::wire_from(v, 5))))) by {
                <Vec<CustomParameter> as LLRPValue>::lemma_parse(v.custom, Self::wire_from(v, 5));
            }
        }
    }

    fn decode(data: &[u8]) -> (r: Result<(Self, &[u8]), Error>) {
        proof {
            reveal(GetReaderConfig::read_fields);
        }
        let mut decoder = Decoder::new(data);
        let decoder = &mut decoder;
        let requested_data = decoder.read_enum::<ConfigRequestedData, u8>()?;
        let antenna_id = decoder.read::<u16>()?;
        let gpi_port_num = decoder.read::<u16>()?;
        let gpo_port_num = decoder.read::<u16>()?;
        let custom = decoder.read::<Vec<CustomParameter>>()?;
        Ok((GetReaderConfig { requested_data, antenna_id, gpi_port_num, gpo_port_num, custom }, decoder.rest()))
    }

    fn encode(&self, buffer: &mut Vec<u8>) {
        proof {
            reveal(GetReaderConfig::write_fields);
        }
        let mut encoder = Encoder::new(Vec::new());
        let encoder = &mut encoder;
        encoder.write_enum::<ConfigRequestedData, u8>(&self.requested_data);
        encoder.write(&self.antenna_id);
        encoder.write(&self.gpi_port_num);
        encoder.write(&self.gpo_port_num);
        encoder.write(&self.custom);
        append_bytes(buffer, encoder.written());
    }

    fn id(&self) -> (id: u16) {
        2
    }
}

/// Answers `SetReaderConfig`.
#[derive(Debug, PartialEq, Eq)]
pub struct SetReaderConfigResponse {
    /// The reader's status.
    pub status: LLRPStatus,
}

/// The model of a `SetReaderConfigResponse`.
pub struct SetReaderConfigResponseView {
    pub status: LLRPStatusView,
}

impl DeepView for SetReaderConfigResponse {
    type V = SetReaderConfigResponseView;

    open spec fn deep_view(&self) -> SetReaderConfigResponseView {
        SetReaderConfigResponseView {
            status: self.status.deep_view(),
        }
    }
}

impl SetReaderConfigResponse {
    /// The bytes of the fields from the `k`-th on.
    #[verifier::opaque]
    pub open spec fn wire_from(v: SetReaderConfigResponseView, k: nat) -> Seq<u8>
        decreases 1 - k,
    {
        if k == 0 {
            <LLRPStatus as LLRPValue>::wire(v.status) + Self::wire_from(v, 1)
        } else {
            Seq::empty()
        }
    }

    /// The bytes of the fields, one field at a time.
    pub proof fn lemma_wire_from(v: SetReaderConfigResponseView)
        ensures
            Self::wire_from(v, 0) == <LLRPStatus as LLRPValue>::wire(v.status)
                + Self::wire_from(v, 1),
            Self::wire_from(v, 1) == Seq::<u8>::empty(),
    {
        reveal(SetReaderConfigResponse::wire_from);
    }

    /// Whether the fields fit the format, each before the fields behind it.
    #[verifier::opaque]
    pub open spec fn fits(v: SetReaderConfigResponseView) -> bool {
        &&& <LLRPStatus as LLRPValue>::canonical(v.status)
    }

    /// The fields read in order, or the first error.
    #[verifier::opaque]
    pub open spec fn read_fields(s: DecoderState) -> Result<
        (SetReaderConfigResponseView, DecoderState),
        Error,
    > {
        match <LLRPStatus as LLRPValue>::parse(s) {
            Err(e) => Err(e),
            Ok((status, s)) => Ok((SetReaderConfigResponseView { status }, s)),
        }
    }

    /// The state after the fields have been written in order.
    #[verifier::opaque]
    pub open spec fn write_fields(v: SetReaderConfigResponseView, s: EncoderState) -> EncoderState {
        let s = <LLRPStatus as LLRPValue>::emit(v.status, s);
        s
    }
}

impl LLRPMessage for SetReaderConfigResponse {
    const ID: u16 = 13;

    open spec fn parse(data: Seq<u8>) -> Result<(SetReaderConfigResponseView, Seq<u8>), Error> {
        match Self::read_fields(DecoderState::start(data)) {
            Err(e) => Err(e),
            Ok((v, s)) => Ok((v, s.bytes)),
        }
    }

    open spec fn emit(v: SetReaderConfigResponseView) -> Seq<u8> {
        Self::write_fields(v, EncoderState::start(Seq::empty())).bytes
    }

    open spec fn canonical(v: SetReaderConfigResponseView) -> bool {
        Self::fits(v)
    }

    proof fn lemma_roundtrip(v: SetReaderConfigResponseView) {
        reveal(SetReaderConfigResponse::fits);
        reveal(SetReaderConfigResponse::read_fields);
        reveal(SetReaderConfigResponse::write_fields);
        let s = EncoderState::start(Seq::<u8>::empty());
        SetReaderConfigResponse::lemma_wire_from(v);
        <LLRPStatus as LLRPValue>::lemma_emit(v.status, s);
        let s1 = s.write_bytes(<LLRPStatus as LLRPValue>::wire(v.status));
        lemma_concat_empty(s1.bytes);
        lemma_concat_assoc(
            s.bytes,
            <LLRPStatus as LLRPValue>::wire(v.status),
            SetReaderConfigResponse::wire_from(v, 1),
        );
        lemma_concat_front(Self::wire_from(v, 0));
        if Self::canonical(v) {
            SetReaderConfigResponse::lemma_wire_from(v);
            assert(<LLRPStatus as LLRPValue>::parse(DecoderState::start(Self::wire_from(v, 0))) == Ok::<(LLRPStatusView, DecoderState), Error>((v.status, DecoderState::start(Self::wire_from(v, 1))))) by {
                <LLRPStatus as LLRPValue>::lemma_parse(v.status, Self::wire_from(v, 1));
            }
        }
    }

    fn decode(data: &[u8]) -> (r: Result<(Self, &[u8]), Error>) {
        proof {
            reveal(SetReaderConfigResponse::read_fields);
        }
        let mut decoder = Decoder::new(data);
        let decoder = &mut decoder;
        let status = decoder.read::<LLRPStatus>()?;
        Ok((SetReaderConfigResponse { status }, decoder.rest()))
    }

    fn encode(&self, buffer: &mut Vec<u8>) {
        proof {
            reveal(SetReaderConfigResponse::write_fields);
        }
        let mut encoder = Encoder::new(Vec::new());
        let encoder = &mut encoder;
        encoder.write(&self.status);
        append_bytes(buffer, encoder.written());
    }

    fn id(&self) -> (id: u16) {
        13
    }
}

/// Asks the reader to close the connection.
#[derive(Debug, PartialEq, Eq)]
pub struct CloseConnection {}

impl DeepView for CloseConnection {
    type V = CloseConnection;

    open spec fn deep_view(&self) -> CloseConnection {
        *self
    }
}

impl CloseConnection {
    /// The bytes of the fields from the `k`-th on.
    #[verifier::opaque]
    pub open spec fn wire_from(v: CloseConnection, k: nat) -> Seq<u8>
        decreases 0 - k,
    {
        {
            Seq::empty()
        }
    }

    /// The bytes of the fields, one field at a time.
    pub proof fn lemma_wire_from(v: CloseConnection)
        ensures
            Self::wire_from(v, 0) == Seq::<u8>::empty(),
    {
        reveal(CloseConnection::wire_from);
    }

    /// Whether the fields fit the format, each before the fields behind it.
    #[verifier::opaque]
    pub open spec fn fits(v: CloseConnection) -> bool {
        true
    }

    /// The fields read in order, or the first error.
    #[verifier::opaque]
    pub open spec fn read_fields(s: DecoderState) -> Result<
        (CloseConnection, DecoderState),
        Error,
    > {
        Ok((CloseConnection {  }, s))
    }

    /// The state after the fields have been written in order.
    #[verifier::opaque]
    pub open spec fn write_fields(v: CloseConnection, s: EncoderState) -> EncoderState {
        s
    }
}

impl LLRPMessage for CloseConnection {
    const ID: u16 = 14;

    open spec fn parse(data: Seq<u8>) -> Result<(CloseConnection, Seq<u8>), Error> {
        match Self::read_fields(DecoderState::start(data)) {
            Err(e) => Err(e),
            Ok((v, s)) => Ok((v, s.bytes)),
        }
    }

    open spec fn emit(v: CloseConnection) -> Seq<u8> {
        Self::write_fields(v, EncoderState::start(Seq::empty())).bytes
    }

    open spec fn canonical(v: CloseConnection) -> bool {
        Self::fits(v)
    }

    proof fn lemma_roundtrip(v: CloseConnection) {
        reveal(CloseConnection::fits);
        reveal(CloseConnection::read_fields);
        reveal(CloseConnection::write_fields);
        let s = EncoderState::start(Seq::<u8>::empty());
        CloseConnection::lemma_wire_from(v);
        lemma_concat_empty(s.bytes);
        lemma_concat_front(Self::wire_from(v, 0));
        if Self::canonical(v) {
            CloseConnection::lemma_wire_from(v);
        }
    }

    fn decode(data: &[u8]) -> (r: Result<(Self, &[u8]), Error>) {
        proof {
            reveal(CloseConnection::read_fields);
        }
        let mut decoder = Decoder::new(data);
        let decoder = &mut decoder;
        Ok((CloseConnection {   }, decoder.rest()))
    }

    fn encode(&self, buffer: &mut Vec<u8>) {
        proof {
            reveal(CloseConnection::write_fields);
        }
        let mut encoder = Encoder::new(Vec::new());
        let encoder = &mut encoder;
        append_bytes(buffer, encoder.written());
    }

    fn id(&self) -> (id: u16) {
        14
    }
}

/// Answers `CloseConnection`.
#[derive(Debug, PartialEq, Eq)]
pub struct CloseConnectionResponse {
    /// The reader's status.
    pub status: LLRPStatus,
}

/// The model of a `CloseConnectionResponse`.
pub struct CloseConnectionResponseView {
    pub status: LLRPStatusView,
}

impl DeepView for CloseConnectionResponse {
    type V = CloseConnectionResponseView;

    open spec fn deep_view(&self) -> CloseConnectionResponseView {
        CloseConnectionResponseView {
            status: self.status.deep_view(),
        }
    }
}

impl CloseConnectionResponse {
    /// The bytes of the fields from the `k`-th on.
    #[verifier::opaque]
    pub open spec fn wire_from(v: CloseConnectionResponseView, k: nat) -> Seq<u8>
        decreases 1 - k,
    {
        if k == 0 {
            <LLRPStatus as LLRPValue>::wire(v.status) + Self::wire_from(v, 1)
        } else {
            Seq::empty()
        }
    }

    /// The bytes of the fields, one field at a time.
    pub proof fn lemma_wire_from(v: CloseConnectionResponseView)
        ensures
            Self::wire_from(v, 0) == <LLRPStatus as LLRPValue>::wire(v.status)
                + Self::wire_from(v, 1),
            Self::wire_from(v, 1) == Seq::<u8>::empty(),
    {
        reveal(CloseConnectionResponse::wire_from);
    }

    /// Whether the fields fit the format, each before the fields behind it.
    #[verifier::opaque]
    pub open spec fn fits(v: CloseConnectionResponseView) -> bool {
        &&& <LLRPStatus as LLRPValue>::canonical(v.status)
    }

    /// The fields read in order, or the first error.
    #[verifier::opaque]
    pub open spec fn read_fields(s: DecoderState) -> Result<
        (CloseConnectionResponseView, DecoderState),
        Error,
    > {
        match <LLRPStatus as LLRPValue>::parse(s) {
            Err(e) => Err(e),
            Ok((status, s)) => Ok((CloseConnectionResponseView { status }, s)),
        }
    }

    /// The state after the fields have been written in order.
    #[verifier::opaque]
    pub open spec fn write_fields(v: CloseConnectionResponseView, s: EncoderState) -> EncoderState {
        let s = <LLRPStatus as LLRPValue>::emit(v.status, s);
        s
    }
}

impl LLRPMessage for CloseConnectionResponse {
    const ID: u16 = 4;

    open spec fn parse(data: Seq<u8>) -> Result<(CloseConnectionResponseView, Seq<u8>), Error> {
        match Self::read_fields(DecoderState::start(data)) {
            Err(e) => Err(e),
            Ok((v, s)) => Ok((v, s.bytes)),
        }
    }

    open spec fn emit(v: CloseConnectionResponseView) -> Seq<u8> {
        Self::write_fields(v, EncoderState::start(Seq::empty())).bytes
    }

    open spec fn canonical(v: CloseConnectionResponseView) -> bool {
        Self::fits(v)
    }

    proof fn lemma_roundtrip(v: CloseConnectionResponseView) {
        reveal(CloseConnectionResponse::fits);
        reveal(CloseConnectionResponse::read_fields);
        reveal(CloseConnectionResponse::write_fields);
        let s = EncoderState::start(Seq::<u8>::empty());
        CloseConnectionResponse::lemma_wire_from(v);
        <LLRPStatus as LLRPValue>::lemma_emit(v.status, s);
        let s1 = s.write_bytes(<LLRPStatus as LLRPValue>::wire(v.status));
        lemma_concat_empty(s1.bytes);
        lemma_concat_assoc(
            s.bytes,
            <LLRPStatus as LLRPValue>::wire(v.status),
            CloseConnectionResponse::wire_from(v, 1),
        );
        lemma_concat_front(Self::wire_from(v, 0));
        if Self::canonical(v) {
            CloseConnectionResponse::lemma_wire_from(v);
            assert(<LLRPStatus as LLRPValue>::parse(DecoderState::start(Self::wire_from(v, 0))) == Ok::<(LLRPStatusView, DecoderState), Error>((v.status, DecoderState::start(Self::wire_from(v, 1))))) by {
                <LLRPStatus as LLRPValue>::lemma_parse(v.status, Self::wire_from(v, 1));
            }
        }
    }

    fn decode(data: &[u8]) -> (r: Result<(Self, &[u8]), Error>) {
        proof {
            reveal(CloseConnectionResponse::read_fields);
        }
        let mut decoder = Decoder::new(data);
        let decoder = &mut decoder;
        let status = decoder.read::<LLRPStatus>()?;
        Ok((CloseConnectionResponse { status }, decoder.rest()))
    }

    fn encode(&self, buffer: &mut Vec<u8>) {
        proof {
            reveal(CloseConnectionResponse::write_fields);
        }
        let mut encoder = Encoder::new(Vec::new());
        let encoder = &mut encoder;
        encoder.write(&self.status);
        append_bytes(buffer, encoder.written());
    }

    fn id(&self) -> (id: u16) {
        4
    }
}

/// Asks the reader for its tag reports.
#[derive(Debug, PartialEq, Eq)]
pub struct GetReport {}

impl DeepView for GetReport {
    type V = GetReport;

    open spec fn deep_view(&self) -> GetReport {
        *self
    }
}

impl GetReport {
    /// The bytes of the fields from the `k`-th on.
    #[verifier::opaque]
    pub open spec fn wire_from(v: GetReport, k: nat) -> Seq<u8>
        decreases 0 - k,
    {
        {
            Seq::empty()
        }
    }

    /// The bytes of the fields, one field at a time.
    pub proof fn lemma_wire_from(v: GetReport)
        ensures
            Self::wire_from(v, 0) == Seq::<u8>::empty(),
    {
        reveal(GetReport::wire_from);
    }

    /// Whether the fields fit the format, each before the fields behind it.
    #[verifier::opaque]
    pub open spec fn fits(v: GetReport) -> bool {
        true
    }

    /// The fields read in order, or the first error.
    #[verifier::opaque]
    pub open spec fn read_fields(s: DecoderState) -> Result<(GetReport, DecoderState), Error> {
        Ok((GetReport {  }, s))
    }

    /// The state after the fields have been written in order.
    #[verifier::opaque]
    pub open spec fn write_fields(v: GetReport, s: EncoderState) -> EncoderState {
        s
    }
}

impl LLRPMessage for GetReport {
    const ID: u16 = 60;

    open spec fn parse(data: Seq<u8>) -> Result<(GetReport, Seq<u8>), Error> {
        match Self::read_fields(DecoderState::start(data)) {
            Err(e) => Err(e),
            Ok((v, s)) => Ok((v, s.bytes)),
        }
    }

    open spec fn emit(v: GetReport) -> Seq<u8> {
        Self::write_fields(v, EncoderState::start(Seq::empty())).bytes
    }

    open spec fn canonical(v: GetReport) -> bool {
        Self::fits(v)
    }

    proof fn lemma_roundtrip(v: GetReport) {
        reveal(GetReport::fits);
        reveal(GetReport::read_fields);
        reveal(GetReport::write_fields);
        let s = EncoderState::start(Seq::<u8>::empty());
        GetReport::lemma_wire_from(v);
        lemma_concat_empty(s.bytes);
        lemma_concat_front(Self::wire_from(v, 0));
        if Self::canonical(v) {
            GetReport::lemma_wire_from(v);
        }
    }

    fn decode(data: &[u8]) -> (r: Result<(Self, &[u8]), Error>) {
        proof {
            reveal(GetReport::read_fields);
        }
        let mut decoder = Decoder::new(data);
        let decoder = &mut decoder;
        Ok((GetReport {   }, decoder.rest()))
    }

    fn encode(&self, buffer: &mut Vec<u8>) {
        proof {
            reveal(GetReport::write_fields);
        }
        let mut encoder = Encoder::new(Vec::new());
        let encoder = &mut encoder;
        append_bytes(buffer, encoder.written());
    }

    fn id(&self) -> (id: u16) {
        60
    }
}

/// The results of reader and access operations.
#[derive(Debug, PartialEq, Eq)]
pub struct RoAccessReport {
    pub inventory_access_report: Vec<TagReportData>,
    pub rf_survey_report: Vec<RfSurveyReport>,
    pub custom: Vec<CustomParameter>,
}

/// The model of a `RoAccessReport`.
pub struct RoAccessReportView {
    pub inventory_access_report: Seq<TagReportDataView>,
    pub rf_survey_report: Seq<RfSurveyReportView>,
    pub custom: Seq<CustomParameter>,
}

impl DeepView for RoAccessReport {
    type V = RoAccessReportView;

    open spec fn deep_view(&self) -> RoAccessReportView {
        RoAccessReportView {
            inventory_access_report: self.inventory_access_report.deep_view(),
            rf_survey_report: self.rf_survey_report.deep_view(),
            custom: self.custom.deep_view(),
        }
    }
}

impl RoAccessReport {
    /// The bytes of the fields from the `k`-th on.
    #[verifier::opaque]
    pub open spec fn wire_from(v: RoAccessReportView, k: nat) -> Seq<u8>
        decreases 3 - k,
    {
        if k == 0 {
            <Vec<TagReportData> as LLRPValue>::wire(v.inventory_access_report)
                + Self::wire_from(v, 1)
        } else if k == 1 {
            <Vec<RfSurveyReport> as LLRPValue>::wire(v.rf_survey_report) + Self::wire_from(v, 2)
        } else if k == 2 {
            <Vec<CustomParameter> as LLRPValue>::wire(v.custom) + Self::wire_from(v, 3)
        } else {
            Seq::empty()
        }
    }

    /// The bytes of the fields, one field at a time.
    pub proof fn lemma_wire_from(v: RoAccessReportView)
        ensures
            Self::wire_from(v, 0) == <Vec<TagReportData> as LLRPValue>::wire(v.inventory_access_report)
                + Self::wire_from(v, 1),
            Self::wire_from(v, 1) == <Vec<RfSurveyReport> as LLRPValue>::wire(v.rf_survey_report)
                + Self::wire_from(v, 2),
            Self::wire_from(v, 2) == <Vec<CustomParameter> as LLRPValue>::wire(v.custom)
                + Self::wire_from(v, 3),
            Self::wire_from(v, 3) == Seq::<u8>::empty(),
    {
        reveal(RoAccessReport::wire_from);
    }

    /// Whether the fields fit the format, each before the fields behind it.
    #[verifier::opaque]
    pub open spec fn fits(v: RoAccessReportView) -> bool {
        &&& <Vec<TagReportData> as LLRPValue>::canonical(v.inventory_access_report)
        &&& <Vec<TagReportData> as LLRPValue>::follow_ok(
            v.inventory_access_report,
            Self::wire_from(v, 1),
        )
        &&& <Vec<RfSurveyReport> as LLRPValue>::canonical(v.rf_survey_report)
        &&& <Vec<RfSurveyReport> as LLRPValue>::follow_ok(v.rf_survey_report, Self::wire_from(v, 2))
        &&& <Vec<CustomParameter> as LLRPValue>::canonical(v.custom)
        &&& <Vec<CustomParameter> as LLRPValue>::follow_ok(v.custom, Self::wire_from(v, 3))
    }

    /// The fields read in order, or the first error.
    #[verifier::opaque]
    pub open spec fn read_fields(s: DecoderState) -> Result<
        (RoAccessReportView, DecoderState),
        Error,
    > {
        match <Vec<TagReportData> as LLRPValue>::parse(s) {
            Err(e) => Err(e),
            Ok((inventory_access_report, s)) => match <Vec<RfSurveyReport> as LLRPValue>::parse(s) {
                Err(e) => Err(e),
                Ok((rf_survey_report, s)) => match <Vec<CustomParameter> as LLRPValue>::parse(s) {
                    Err(e) => Err(e),
                    Ok((custom, s)) => Ok(
                        (
                            RoAccessReportView {
                                inventory_access_report,
                                rf_survey_report,
                                custom,
                            },
                            s,
                        ),
                    ),
                },
            },
        }
    }

    /// The state after the fields have been written in order.
    #[verifier::opaque]
    pub open spec fn write_fields(v: RoAccessReportView, s: EncoderState) -> EncoderState {
        let s = <Vec<TagReportData> as LLRPValue>::emit(v.inventory_access_report, s);
        let s = <Vec<RfSurveyReport> as LLRPValue>::emit(v.rf_survey_report, s);
        let s = <Vec<CustomParameter> as LLRPValue>::emit(v.custom, s);
        s
    }
}

impl LLRPMessage for RoAccessReport {
    const ID: u16 = 61;

    open spec fn parse(data: Seq<u8>) -> Result<(RoAccessReportView, Seq<u8>), Error> {
        match Self::read_fields(DecoderState::start(data)) {
            Err(e) => Err(e),
            Ok((v, s)) => Ok((v, s.bytes)),
        }
    }

    open spec fn emit(v: RoAccessReportView) -> Seq<u8> {
        Self::write_fields(v, EncoderState::start(Seq::empty())).bytes
    }

    open spec fn canonical(v: RoAccessReportView) -> bool {
        Self::fits(v)
    }

    proof fn lemma_roundtrip(v: RoAccessReportView) {
        reveal(RoAccessReport::fits);
        reveal(RoAccessReport::read_fields);
        reveal(RoAccessReport::write_fields);
        let s = EncoderState::start(Seq::<u8>::empty());
        RoAccessReport::lemma_wire_from(v);
        <Vec<TagReportData> as LLRPValue>::lemma_emit(v.inventory_access_report, s);
        let s1 = s.write_bytes(<Vec<TagReportData> as LLRPValue>::wire(v.inventory_access_report));
        <Vec<RfSurveyReport> as LLRPValue>::lemma_emit(v.rf_survey_report, s1);
        let s2 = s1.write_bytes(<Vec<RfSurveyReport> as LLRPValue>::wire(v.rf_survey_report));
        <Vec<CustomParameter> as LLRPValue>::lemma_emit(v.custom, s2);
        let s3 = s2.write_bytes(<Vec<CustomParameter> as LLRPValue>::wire(v.custom));
        lemma_concat_empty(s3.bytes);
        lemma_concat_assoc(
            s2.bytes,
            <Vec<CustomParameter> as LLRPValue>::wire(v.custom),
            RoAccessReport::wire_from(v, 3),
        );
        lemma_concat_assoc(
            s1.bytes,
            <Vec<RfSurveyReport> as LLRPValue>::wire(v.rf_survey_report),
            RoAccessReport::wire_from(v, 2),
        );
        lemma_concat_assoc(
            s.bytes,
            <Vec<TagReportData> as LLRPValue>::wire(v.inventory_access_report),
            RoAccessReport::wire_from(v, 1),
        );
        lemma_concat_front(Self::wire_from(v, 0));
        if Self::canonical(v) {
            RoAccessReport::lemma_wire_from(v);
            assert(<Vec<TagReportData> as LLRPValue>::parse(DecoderState::start(Self::wire_from(v, 0))) == Ok::<(Seq<TagReportDataView>, DecoderState), Error>((v.inventory_access_report, DecoderState::start(Self::wire_from(v, 1))))) by {
                <Vec<TagReportData> as LLRPValue>::lemma_parse(
                    v.inventory_access_report,
                    Self::wire_from(v, 1),
                );
            }
            assert(<Vec<RfSurveyReport> as LLRPValue>::parse(DecoderState::start(Self::wire_from(v, 1))) == Ok::<(Seq<RfSurveyReportView>, DecoderState), Error>((v.rf_survey_report, DecoderState::start(Self::wire_from(v, 2))))) by {
                <Vec<RfSurveyReport> as LLRPValue>::lemma_parse(
                    v.rf_survey_report,
                    Self::wire_from(v, 2),
                );
            }
            assert(<Vec<CustomParameter> as LLRPValue>::parse(DecoderState::start(Self::wire_from(v, 2))) == Ok::<(Seq<CustomParameter>, DecoderState), Error>((v.custom, DecoderState::start(Self::wire_from(v, 3))))) by {
                <Vec<CustomParameter> as LLRPValue>::lemma_parse(v.custom, Self::wire_from(v, 3));
            }
        }
    }

    fn decode(data: &[u8]) -> (r: Result<(Self, &[u8]), Error>) {
        proof {
            reveal(RoAccessReport::read_fields);
        }
        let mut decoder = Decoder::new(data);
        let decoder = &mut decoder;
        let inventory_access_report = decoder.read::<Vec<TagReportData>>()?;
        let rf_survey_report = decoder.read::<Vec<RfSurveyReport>>()?;
        let custom = decoder.read::<Vec<CustomParameter>>()?;
        Ok((RoAccessReport { inventory_access_report, rf_survey_report, custom }, decoder.rest()))
    }

    fn encode(&self, buffer: &mut Vec<u8>) {
        proof {
            reveal(RoAccessReport::write_fields);
        }
        let mut encoder = Encoder::new(Vec::new());
        let encoder = &mut encoder;
        encoder.write(&self.inventory_access_report);
        encoder.write(&self.rf_survey_report);
        encoder.write(&self.custom);
        append_bytes(buffer, encoder.written());
    }

    fn id(&self) -> (id: u16) {
        61
    }
}

/// Sent by the reader to show that the connection is alive.
#[derive(Debug, PartialEq, Eq)]
pub struct KeepAlive {}

impl DeepView for KeepAlive {
    type V = KeepAlive;

    open spec fn deep_view(&self) -> KeepAlive {
        *self
    }
}

impl KeepAlive {
    /// The bytes of the fields from the `k`-th on.
    #[verifier::opaque]
    pub open spec fn wire_from(v: KeepAlive, k: nat) -> Seq<u8>
        decreases 0 - k,
    {
        {
            Seq::empty()
        }
    }

    /// The bytes of the fields, one field at a time.
    pub proof fn lemma_wire_from(v: KeepAlive)
        ensures
            Self::wire_from(v, 0) == Seq::<u8>::empty(),
    {
        reveal(KeepAlive::wire_from);
    }

    /// Whether the fields fit the format, each before the fields behind it.
    #[verifier::opaque]
    pub open spec fn fits(v: KeepAlive) -> bool {
        true
    }

    /// The fields read in order, or the first error.
    #[verifier::opaque]
    pub open spec fn read_fields(s: DecoderState) -> Result<(KeepAlive, DecoderState), Error> {
        Ok((KeepAlive {  }, s))
    }

    /// The state after the fields have been written in order.
    #[verifier::opaque]
    pub open spec fn write_fields(v: KeepAlive, s: EncoderState) -> EncoderState {
        s
    }
}

impl LLRPMessage for KeepAlive {
    const ID: u16 = 62;

    open spec fn parse(data: Seq<u8>) -> Result<(KeepAlive, Seq<u8>), Error> {
        match Self::read_fields(DecoderState::start(data)) {
            Err(e) => Err(e),
            Ok((v, s)) => Ok((v, s.bytes)),
        }
    }

    open spec fn emit(v: KeepAlive) -> Seq<u8> {
        Self::write_fields(v, EncoderState::start(Seq::empty())).bytes
    }

    open spec fn canonical(v: KeepAlive) -> bool {
        Self::fits(v)
    }

    proof fn lemma_roundtrip(v: KeepAlive) {
        reveal(KeepAlive::fits);
        reveal(KeepAlive::read_fields);
        reveal(KeepAlive::write_fields);
        let s = EncoderState::start(Seq::<u8>::empty());
        KeepAlive::lemma_wire_from(v);
        lemma_concat_empty(s.bytes);
        lemma_concat_front(Self::wire_from(v, 0));
        if Self::canonical(v) {
            KeepAlive::lemma_wire_from(v);
        }
    }

    fn decode(data: &[u8]) -> (r: Result<(Self, &[u8]), Error>) {
        proof {
            reveal(KeepAlive::read_fields);
        }
        let mut decoder = Decoder::new(data);
        let decoder = &mut decoder;
        Ok((KeepAlive {   }, decoder.rest()))
    }

    fn encode(&self, buffer: &mut Vec<u8>) {
        proof {
            reveal(KeepAlive::write_fields);
        }
        let mut encoder = Encoder::new(Vec::new());
        let encoder = &mut encoder;
        append_bytes(buffer, encoder.written());
    }

    fn id(&self) -> (id: u16) {
        62
    }
}

/// Answers `KeepAlive`.
#[derive(Debug, PartialEq, Eq)]
pub struct KeepAliveAck {}

impl DeepView for KeepAliveAck {
    type V = KeepAliveAck;

    open spec fn deep_view(&self) -> KeepAliveAck {
        *self
    }
}

impl KeepAliveAck {
    /// The bytes of the fields from the `k`-th on.
    #[verifier::opaque]
    pub open spec fn wire_from(v: KeepAliveAck, k: nat) -> Seq<u8>
        decreases 0 - k,
    {
        {
            Seq::empty()
        }
    }

    /// The bytes of the fields, one field at a time.
    pub proof fn lemma_wire_from(v: KeepAliveAck)
        ensures
            Self::wire_from(v, 0) == Seq::<u8>::empty(),
    {
        reveal(KeepAliveAck::wire_from);
    }

    /// Whether the fields fit the format, each before the fields behind it.
    #[verifier::opaque]
    pub open spec fn fits(v: KeepAliveAck) -> bool {
        true
    }

    /// The fields read in order, or the first error.
    #[verifier::opaque]
    pub open spec fn read_fields(s: DecoderState) -> Result<(KeepAliveAck, DecoderState), Error> {
        Ok((KeepAliveAck {  }, s))
    }

    /// The state after the fields have been written in order.
    #[verifier::opaque]
    pub open spec fn write_fields(v: KeepAliveAck, s: EncoderState) -> EncoderState {
        s
    }
}

impl LLRPMessage for KeepAliveAck {
    const ID: u16 = 72;

    open spec fn parse(data: Seq<u8>) -> Result<(KeepAliveAck, Seq<u8>), Error> {
        match Self::read_fields(DecoderState::start(data)) {
            Err(e) => Err(e),
            Ok((v, s)) => Ok((v, s.bytes)),
        }
    }

    open spec fn emit(v: KeepAliveAck) -> Seq<u8> {
        Self::write_fields(v, EncoderState::start(Seq::empty())).bytes
    }

    open spec fn canonical(v: KeepAliveAck) -> bool {
        Self::fits(v)
    }

    proof fn lemma_roundtrip(v: KeepAliveAck) {
        reveal(KeepAliveAck::fits);
        reveal(KeepAliveAck::read_fields);
        reveal(KeepAliveAck::write_fields);
        let s = EncoderState::start(Seq::<u8>::empty());
        KeepAliveAck::lemma_wire_from(v);
        lemma_concat_empty(s.bytes);
        lemma_concat_front(Self::wire_from(v, 0));
        if Self::canonical(v) {
            KeepAliveAck::lemma_wire_from(v);
        }
    }

    fn decode(data: &[u8]) -> (r: Result<(Self, &[u8]), Error>) {
        proof {
            reveal(KeepAliveAck::read_fields);
        }
        let mut decoder = Decoder::new(data);
        let decoder = &mut decoder;
        Ok((KeepAliveAck {   }, decoder.rest()))
    }

    fn encode(&self, buffer: &mut Vec<u8>) {
        proof {
            reveal(KeepAliveAck::write_fields);
        }
        let mut encoder = Encoder::new(Vec::new());
        let encoder = &mut encoder;
        append_bytes(buffer, encoder.written());
    }

    fn id(&self) -> (id: u16) {
        72
    }
}

/// Sent by the reader when an event occurs that the client has asked for.
#[derive(Debug, PartialEq, Eq)]
pub struct ReaderEventNotification {
    pub data: ReaderEventNotificationData,
}

impl DeepView for ReaderEventNotification {
    type V = ReaderEventNotification;

    open spec fn deep_view(&self) -> ReaderEventNotification {
        *self
    }
}

impl ReaderEventNotification {
    /// The bytes of the fields from the `k`-th on.
    #[verifier::opaque]
    pub open spec fn wire_from(v: ReaderEventNotification, k: nat) -> Seq<u8>
        decreases 1 - k,
    {
        if k == 0 {
            <ReaderEventNotificationData as LLRPValue>::wire(v.data) + Self::wire_from(v, 1)
        } else {
            Seq::empty()
        }
    }

    /// The bytes of the fields, one field at a time.
    pub proof fn lemma_wire_from(v: ReaderEventNotification)
        ensures
            Self::wire_from(v, 0) == <ReaderEventNotificationData as LLRPValue>::wire(v.data)
                + Self::wire_from(v, 1),
            Self::wire_from(v, 1) == Seq::<u8>::empty(),
    {
        reveal(ReaderEventNotification::wire_from);
    }

    /// Whether the fields fit the format, each before the fields behind it.
    #[verifier::opaque]
    pub open spec fn fits(v: ReaderEventNotification) -> bool {
        &&& <ReaderEventNotificationData as LLRPValue>::canonical(v.data)
    }

    /// The fields read in order, or the first error.
    #[verifier::opaque]
    pub open spec fn read_fields(s: DecoderState) -> Result<
        (ReaderEventNotification, DecoderState),
        Error,
    > {
        match <ReaderEventNotificationData as LLRPValue>::parse(s) {
            Err(e) => Err(e),
            Ok((data, s)) => Ok((ReaderEventNotification { data }, s)),
        }
    }

    /// The state after the fields have been written in order.
    #[verifier::opaque]
    pub open spec fn write_fields(v: ReaderEventNotification, s: EncoderState) -> EncoderState {
        let s = <ReaderEventNotificationData as LLRPValue>::emit(v.data, s);
        s
    }
}

impl LLRPMessage for ReaderEventNotification {
    const ID: u16 = 63;

    open spec fn parse(data: Seq<u8>) -> Result<(ReaderEventNotification, Seq<u8>), Error> {
        match Self::read_fields(DecoderState::start(data)) {
            Err(e) => Err(e),
            Ok((v, s)) => Ok((v, s.bytes)),
        }
    }

    open spec fn emit(v: ReaderEventNotification) -> Seq<u8> {
        Self::write_fields(v, EncoderState::start(Seq::empty())).bytes
    }

    open spec fn canonical(v: ReaderEventNotification) -> bool {
        Self::fits(v)
    }

    proof fn lemma_roundtrip(v: ReaderEventNotification) {
        reveal(ReaderEventNotification::fits);
        reveal(ReaderEventNotification::read_fields);
        reveal(ReaderEventNotification::write_fields);
        let s = EncoderState::start(Seq::<u8>::empty());
        ReaderEventNotification::lemma_wire_from(v);
        <ReaderEventNotificationData as LLRPValue>::lemma_emit(v.data, s);
        let s1 = s.write_bytes(<ReaderEventNotificationData as LLRPValue>::wire(v.data));
        lemma_concat_empty(s1.bytes);
        lemma_concat_assoc(
            s.bytes,
            <ReaderEventNotificationData as LLRPValue>::wire(v.data),
            ReaderEventNotification::wire_from(v, 1),
        );
        lemma_concat_front(Self::wire_from(v, 0));
        if Self::canonical(v) {
            ReaderEventNotification::lemma_wire_from(v);
            assert(<ReaderEventNotificationData as LLRPValue>::parse(DecoderState::start(Self::wire_from(v, 0))) == Ok::<(ReaderEventNotificationData, DecoderState), Error>((v.data, DecoderState::start(Self::wire_from(v, 1))))) by {
                <ReaderEventNotificationData as LLRPValue>::lemma_parse(
                    v.data,
                    Self::wire_from(v, 1),
                );
            }
        }
    }

    fn decode(data: &[u8]) -> (r: Result<(Self, &[u8]), Error>) {
        proof {
            reveal(ReaderEventNotification::read_fields);
        }
        let mut decoder = Decoder::new(data);
        let decoder = &mut decoder;
        let data = decoder.read::<ReaderEventNotificationData>()?;
        Ok((ReaderEventNotification { data }, decoder.rest()))
    }

    fn encode(&self, buffer: &mut Vec<u8>) {
        proof {
            reveal(ReaderEventNotification::write_fields);
        }
        let mut encoder = Encoder::new(Vec::new());
        let encoder = &mut encoder;
        encoder.write(&self.data);
        append_bytes(buffer, encoder.written());
    }

    fn id(&self) -> (id: u16) {
        63
    }
}

/// Tells the reader that it may send the events and reports it has held back.
#[derive(Debug, PartialEq, Eq)]
pub struct EnableEventsAndReports {}

impl DeepView for EnableEventsAndReports {
    type V = EnableEventsAndReports;

    open spec fn deep_view(&self) -> EnableEventsAndReports {
        *self
    }
}

impl EnableEventsAndReports {
    /// The bytes of the fields from the `k`-th on.
    #[verifier::opaque]
    pub open spec fn wire_from(v: EnableEventsAndReports, k: nat) -> Seq<u8>
        decreases 0 - k,
    {
        {
            Seq::empty()
        }
    }

    /// The bytes of the fields, one field at a time.
    pub proof fn lemma_wire_from(v: EnableEventsAndReports)
        ensures
            Self::wire_from(v, 0) == Seq::<u8>::empty(),
    {
        reveal(EnableEventsAndReports::wire_from);
    }

    /// Whether the fields fit the format, each before the fields behind it.
    #[verifier::opaque]
    pub open spec fn fits(v: EnableEventsAndReports) -> bool {
        true
    }

    /// The fields read in order, or the first error.
    #[verifier::opaque]
    pub open spec fn read_fields(s: DecoderState) -> Result<
        (EnableEventsAndReports, DecoderState),
        Error,
    > {
        Ok((EnableEventsAndReports {  }, s))
    }

    /// The state after the fields have been written in order.
    #[verifier::opaque]
    pub open spec fn write_fields(v: EnableEventsAndReports, s: EncoderState) -> EncoderState {
        s
    }
}

impl LLRPMessage for EnableEventsAndReports {
    const ID: u16 = 64;

    open spec fn parse(data: Seq<u8>) -> Result<(EnableEventsAndReports, Seq<u8>), Error> {
        match Self::read_fields(DecoderState::start(data)) {
            Err(e) => Err(e),
            Ok((v, s)) => Ok((v, s.bytes)),
        }
    }

    open spec fn emit(v: EnableEventsAndReports) -> Seq<u8> {
        Self::write_fields(v, EncoderState::start(Seq::empty())).bytes
    }

    open spec fn canonical(v: EnableEventsAndReports) -> bool {
        Self::fits(v)
    }

    proof fn lemma_roundtrip(v: EnableEventsAndReports) {
        reveal(EnableEventsAndReports::fits);
        reveal(EnableEventsAndReports::read_fields);
        reveal(EnableEventsAndReports::write_fields);
        let s = EncoderState::start(Seq::<u8>::empty());
        EnableEventsAndReports::lemma_wire_from(v);
        lemma_concat_empty(s.bytes);
        lemma_concat_front(Self::wire_from(v, 0));
        if Self::canonical(v) {
            EnableEventsAndReports::lemma_wire_from(v);
        }
    }

    fn decode(data: &[u8]) -> (r: Result<(Self, &[u8]), Error>) {
        proof {
            reveal(EnableEventsAndReports::read_fields);
        }
        let mut decoder = Decoder::new(data);
        let decoder = &mut decoder;
        Ok((EnableEventsAndReports {   }, decoder.rest()))
    }

    fn encode(&self, buffer: &mut Vec<u8>) {
        proof {
            reveal(EnableEventsAndReports::write_fields);
        }
        let mut encoder = Encoder::new(Vec::new());
        let encoder = &mut encoder;
        append_bytes(buffer, encoder.written());
    }

    fn id(&self) -> (id: u16) {
        64
    }
}

/// A message with content that a vendor defines.
#[derive(Debug, PartialEq, Eq)]
pub struct CustomMessage {}

impl DeepView for CustomMessage {
    type V = CustomMessage;

    open spec fn deep_view(&self) -> CustomMessage {
        *self
    }
}

impl CustomMessage {
    /// The bytes of the fields from the `k`-th on.
    #[verifier::opaque]
    pub open spec fn wire_from(v: CustomMessage, k: nat) -> Seq<u8>
        decreases 0 - k,
    {
        {
            Seq::empty()
        }
    }

    /// The bytes of the fields, one field at a time.
    pub proof fn lemma_wire_from(v: CustomMessage)
        ensures
            Self::wire_from(v, 0) == Seq::<u8>::empty(),
    {
        reveal(CustomMessage::wire_from);
    }

    /// Whether the fields fit the format, each before the fields behind it.
    #[verifier::opaque]
    pub open spec fn fits(v: CustomMessage) -> bool {
        true
    }

    /// The fields read in order, or the first error.
    #[verifier::opaque]
    pub open spec fn read_fields(s: DecoderState) -> Result<(CustomMessage, DecoderState), Error> {
        Ok((CustomMessage {  }, s))
    }

    /// The state after the fields have been written in order.
    #[verifier::opaque]
    pub open spec fn write_fields(v: CustomMessage, s: EncoderState) -> EncoderState {
        s
    }
}

impl LLRPMessage for CustomMessage {
    const ID: u16 = 1023;

    open spec fn parse(data: Seq<u8>) -> Result<(CustomMessage, Seq<u8>), Error> {
        match Self::read_fields(DecoderState::start(data)) {
            Err(e) => Err(e),
            Ok((v, s)) => Ok((v, s.bytes)),
        }
    }

    open spec fn emit(v: CustomMessage) -> Seq<u8> {
        Self::write_fields(v, EncoderState::start(Seq::empty())).bytes
    }

    open spec fn canonical(v: CustomMessage) -> bool {
        Self::fits(v)
    }

    proof fn lemma_roundtrip(v: CustomMessage) {
        reveal(CustomMessage::fits);
        reveal(CustomMessage::read_fields);
        reveal(CustomMessage::write_fields);
        let s = EncoderState::start(Seq::<u8>::empty());
        CustomMessage::lemma_wire_from(v);
        lemma_concat_empty(s.bytes);
        lemma_concat_front(Self::wire_from(v, 0));
        if Self::canonical(v) {
            CustomMessage::lemma_wire_from(v);
        }
    }

    fn decode(data: &[u8]) -> (r: Result<(Self, &[u8]), Error>) {
        proof {
            reveal(CustomMessage::read_fields);
        }
        let mut decoder = Decoder::new(data);
        let decoder = &mut decoder;
        Ok((CustomMessage {   }, decoder.rest()))
    }

    fn encode(&self, buffer: &mut Vec<u8>) {
        proof {
            reveal(CustomMessage::write_fields);
        }
        let mut encoder = Encoder::new(Vec::new());
        let encoder = &mut encoder;
        append_bytes(buffer, encoder.written());
    }

    fn id(&self) -> (id: u16) {
        1023
    }
}

/// Sent by the reader in answer to a message that it cannot take.
#[derive(Debug, PartialEq, Eq)]
pub struct ErrorMessage {
    pub error: LLRPStatus,
}

/// The model of a `ErrorMessage`.
pub struct ErrorMessageView {
    pub error: LLRPStatusView,
}

impl DeepView for ErrorMessage {
    type V = ErrorMessageView;

    open spec fn deep_view(&self) -> ErrorMessageView {
        ErrorMessageView {
            error: self.error.deep_view(),
        }
    }
}

impl ErrorMessage {
    /// The bytes of the fields from the `k`-th on.
    #[verifier::opaque]
    pub open spec fn wire_from(v: ErrorMessageView, k: nat) -> Seq<u8>
        decreases 1 - k,
    {
        if k == 0 {
            <LLRPStatus as LLRPValue>::wire(v.error) + Self::wire_from(v, 1)
        } else {
            Seq::empty()
        }
    }

    /// The bytes of the fields, one field at a time.
    pub proof fn lemma_wire_from(v: ErrorMessageView)
        ensures
            Self::wire_from(v, 0) == <LLRPStatus as LLRPValue>::wire(v.error)
                + Self::wire_from(v, 1),
            Self::wire_from(v, 1) == Seq::<u8>::empty(),
    {
        reveal(ErrorMessage::wire_from);
    }

    /// Whether the fields fit the format, each before the fields behind it.
    #[verifier::opaque]
    pub open spec fn fits(v: ErrorMessageView) -> bool {
        &&& <LLRPStatus as LLRPValue>::canonical(v.error)
    }

    /// The fields read in order, or the first error.
    #[verifier::opaque]
    pub open spec fn read_fields(s: DecoderState) -> Result<
        (ErrorMessageView, DecoderState),
        Error,
    > {
        match <LLRPStatus as LLRPValue>::parse(s) {
            Err(e) => Err(e),
            Ok((error, s)) => Ok((ErrorMessageView { error }, s)),
        }
    }

    /// The state after the fields have been written in order.
    #[verifier::opaque]
    pub open spec fn write_fields(v: ErrorMessageView, s: EncoderState) -> EncoderState {
        let s = <LLRPStatus as LLRPValue>::emit(v.error, s);
        s
    }
}

impl LLRPMessage for ErrorMessage {
    const ID: u16 = 1000;

    open spec fn parse(data: Seq<u8>) -> Result<(ErrorMessageView, Seq<u8>), Error> {
        match Self::read_fields(DecoderState::start(data)) {
            Err(e) => Err(e),
            Ok((v, s)) => Ok((v, s.bytes)),
        }
    }

    open spec fn emit(v: ErrorMessageView) -> Seq<u8> {
        Self::write_fields(v, EncoderState::start(Seq::empty())).bytes
    }

    open spec fn canonical(v: ErrorMessageView) -> bool {
        Self::fits(v)
    }

    proof fn lemma_roundtrip(v: ErrorMessageView) {
        reveal(ErrorMessage::fits);
        reveal(ErrorMessage::read_fields);
        reveal(ErrorMessage::write_fields);
        let s = EncoderState::start(Seq::<u8>::empty());
        ErrorMessage::lemma_wire_from(v);
        <LLRPStatus as LLRPValue>::lemma_emit(v.error, s);
        let s1 = s.write_bytes(<LLRPStatus as LLRPValue>::wire(v.error));
        lemma_concat_empty(s1.bytes);
        lemma_concat_assoc(
            s.bytes,
            <LLRPStatus as LLRPValue>::wire(v.error),
            ErrorMessage::wire_from(v, 1),
        );
        lemma_concat_front(Self::wire_from(v, 0));
        if Self::canonical(v) {
            ErrorMessage::lemma_wire_from(v);
            assert(<LLRPStatus as LLRPValue>::parse(DecoderState::start(Self::wire_from(v, 0))) == Ok::<(LLRPStatusView, DecoderState), Error>((v.error, DecoderState::start(Self::wire_from(v, 1))))) by {
                <LLRPStatus as LLRPValue>::lemma_parse(v.error, Self::wire_from(v, 1));
            }
        }
    }

    fn decode(data: &[u8]) -> (r: Result<(Self, &[u8]), Error>) {
        proof {
            reveal(ErrorMessage::read_fields);
        }
        let mut decoder = Decoder::new(data);
        let decoder = &mut decoder;
        let error = decoder.read::<LLRPStatus>()?;
        Ok((ErrorMessage { error }, decoder.rest()))
    }

    fn encode(&self, buffer: &mut Vec<u8>) {
        proof {
            reveal(ErrorMessage::write_fields);
        }
        let mut encoder = Encoder::new(Vec::new());
        let encoder = &mut encoder;
        encoder.write(&self.error);
        append_bytes(buffer, encoder.written());
    }

    fn id(&self) -> (id: u16) {
        1000
    }
}

/// The type number of each message.
pub proof fn lemma_message_ids()
    ensures
        <GetSupportedVersion as LLRPMessage>::ID == 46,
        <GetSupportedVersionResponse as LLRPMessage>::ID == 56,
        <SetProtocolVersion as LLRPMessage>::ID == 47,
        <SetProtocolVersionResponse as LLRPMessage>::ID == 57,
        <GetReaderCapabilities as LLRPMessage>::ID == 1,
        <AddRoSpec as LLRPMessage>::ID == 20,
        <AddRoSpecResponse as LLRPMessage>::ID == 30,
        <DeleteRoSpec as LLRPMessage>::ID == 21,
        <DeleteRoSpecResponse as LLRPMessage>::ID == 31,
        <StartRoSpec as LLRPMessage>::ID == 22,
        <StartRoSpecResponse as LLRPMessage>::ID == 32,
        <StopRoSpec as LLRPMessage>::ID == 23,
        <StopRoSpecResponse as LLRPMessage>::ID == 33,
        <EnableRoSpec as LLRPMessage>::ID == 24,
        <EnableRoSpecResponse as LLRPMessage>::ID == 34,
        <DisableRoSpec as LLRPMessage>::ID == 25,
        <DisableRoSpecResponse as LLRPMessage>::ID == 35,
        <GetRoSpecs as LLRPMessage>::ID == 26,
        <GetRoSpecsResponse as LLRPMessage>::ID == 36,
        <AddAccessSpec as LLRPMessage>::ID == 40,
        <AddAccessSpecResponse as LLRPMessage>::ID == 50,
        <DeleteAccessSpec as LLRPMessage>::ID == 41,
        <DeleteAccessSpecResponse as LLRPMessage>::ID == 51,
        <EnableAccessSpec as LLRPMessage>::ID == 42,
        <EnableAccessSpecResponse as LLRPMessage>::ID == 52,
        <DisableAccessSpec as LLRPMessage>::ID == 43,
        <DisableAccessSpecResponse as LLRPMessage>::ID == 53,
        <GetAccessSpecs as LLRPMessage>::ID == 44,
        <GetAccessSpecsResponse as LLRPMessage>::ID == 54,
        <ClientRequestOp as LLRPMessage>::ID == 45,
        <GetReaderConfig as LLRPMessage>::ID == 2,
        <SetReaderConfigResponse as LLRPMessage>::ID == 13,
        <CloseConnection as LLRPMessage>::ID == 14,
        <CloseConnectionResponse as LLRPMessage>::ID == 4,
        <GetReport as LLRPMessage>::ID == 60,
        <RoAccessReport as LLRPMessage>::ID == 61,
        <KeepAlive as LLRPMessage>::ID == 62,
        <KeepAliveAck as LLRPMessage>::ID == 72,
        <ReaderEventNotification as LLRPMessage>::ID == 63,
        <EnableEventsAndReports as LLRPMessage>::ID == 64,
        <CustomMessage as LLRPMessage>::ID == 1023,
        <ErrorMessage as LLRPMessage>::ID == 1000,
{
}

/// The reader's capabilities.
#[derive(Debug, PartialEq, Eq)]
pub struct GetReaderCapabilitiesResponse {
    /// The reader's status.
    pub status: Option<LLRPStatus>,
    pub general: Option<GeneralDeviceCapabilities>,
    pub llrp: Option<LLRPCapabilities>,
    pub regulatory: Option<RegulatoryCapabilities>,
    pub air_protocol: Option<AirProtocolLLRPCapabilities>,
    pub custom: Vec<CustomParameter>,
}

/// Answers `ClientRequestOp`; sent by the client.
#[derive(Debug, PartialEq, Eq)]
pub struct ClientRequestOpResponse {
    pub response: ClientRequestResponse,
}

/// The reader's configuration.
#[derive(Debug, PartialEq, Eq)]
pub struct GetReaderConfigResponse {
    /// The reader's status.
    pub status: LLRPStatus,
    pub reader_event_notification_spec: Option<ReaderEventNotificationSpec>,
    pub antenna_properties: Option<AntennaProperties>,
    pub antenna_configuration: Option<AntennaConfiguration>,
    pub ro_report_spec: Option<RoReportSpec>,
    pub access_report_spec: Option<AccessReportSpec>,
    pub keep_alive_spec: Option<KeepAliveSpec>,
    pub gpo_write_data: Option<GpoWriteData>,
    pub gpi_port_current_state: Option<GpiPortCurrentState>,
    pub events_and_reports: Option<EventsAndReports>,
    pub custom: Vec<CustomParameter>,
}

/// Changes the reader's configuration.
#[derive(Debug, PartialEq, Eq)]
pub struct SetReaderConfig {
    /// Whether the reader first goes back to its factory settings.
    pub reset_to_factory_default: bool,
    pub reader_event_notification_spec: Option<ReaderEventNotificationSpec>,
    pub antenna_properties: Option<AntennaProperties>,
    pub antenna_configuration: Option<AntennaConfiguration>,
    pub ro_report_spec: Option<RoReportSpec>,
    pub access_report_spec: Option<AccessReportSpec>,
    pub keep_alive_spec: Option<KeepAliveSpec>,
    pub gpo_write_data: Option<GpoWriteData>,
    pub gpi_port_current_state: Option<GpiPortCurrentState>,
    pub events_and_reports: Option<EventsAndReports>,
    pub custom: Vec<CustomParameter>,
}

/// What the payload holds when it is read as the message `M`; what the
/// message's fields leave of the payload is dropped.
#[verifier::opaque]
pub open spec fn payload_of<M: LLRPMessage>(payload: Seq<u8>) -> Result<M::V, Error> {
    match M::parse(payload) {
        Err(e) => Err(e),
        Ok((v, _)) => Ok(v),
    }
}

/// Decodes a payload as the message `M`.
pub fn decode_payload<M: LLRPMessage>(payload: &[u8]) -> (r: Result<M, Error>)
    ensures
        match payload_of::<M>(payload@) {
            Ok(v) => r is Ok && r->Ok_0.deep_view() == v,
            Err(e) => r == Err::<M, Error>(e),
        },
{
    proof {
        reveal(payload_of);
    }
    match M::decode(payload) {
        Err(e) => Err(e),
        Ok((message, _)) => Ok(message),
    }
}

/// A message that fits the format is read back from its payload.
pub proof fn lemma_payload_roundtrip<M: LLRPMessage>(v: M::V)
    ensures
        M::canonical(v) ==> payload_of::<M>(bytes_of::<M>(v)) == Ok::<M::V, Error>(v),
{
    reveal(payload_of);
    reveal(bytes_of);
    M::lemma_roundtrip(v);
}

/// The payload bytes of a message `M` with the model `v`.
#[verifier::opaque]
pub open spec fn bytes_of<M: LLRPMessage>(v: M::V) -> Seq<u8> {
    M::emit(v)
}

/// Appends the payload of `message` to `buffer`.
pub fn encode_payload<M: LLRPMessage>(message: &M, buffer: &mut Vec<u8>)
    ensures
        final(buffer)@ == old(buffer)@ + bytes_of::<M>(message.deep_view()),
{
    proof {
        reveal(bytes_of);
    }
    message.encode(buffer);
}

/// Any message, by its type.
#[derive(Debug, PartialEq, Eq)]
pub enum Message {
    GetSupportedVersion(GetSupportedVersion),
    GetSupportedVersionResponse(GetSupportedVersionResponse),
    SetProtocolVersion(SetProtocolVersion),
    SetProtocolVersionResponse(SetProtocolVersionResponse),
    GetReaderCapabilities(GetReaderCapabilities),
    AddRoSpec(AddRoSpec),
    AddRoSpecResponse(AddRoSpecResponse),
    DeleteRoSpec(DeleteRoSpec),
    DeleteRoSpecResponse(DeleteRoSpecResponse),
    StartRoSpec(StartRoSpec),
    StartRoSpecResponse(StartRoSpecResponse),
    StopRoSpec(StopRoSpec),
    StopRoSpecResponse(StopRoSpecResponse),
    EnableRoSpec(EnableRoSpec),
    EnableRoSpecResponse(EnableRoSpecResponse),
    DisableRoSpec(DisableRoSpec),
    DisableRoSpecResponse(DisableRoSpecResponse),
    GetRoSpecs(GetRoSpecs),
    GetRoSpecsResponse(GetRoSpecsResponse),
    AddAccessSpec(AddAccessSpec),
    AddAccessSpecResponse(AddAccessSpecResponse),
    DeleteAccessSpec(DeleteAccessSpec),
    DeleteAccessSpecResponse(DeleteAccessSpecResponse),
    EnableAccessSpec(EnableAccessSpec),
    EnableAccessSpecResponse(EnableAccessSpecResponse),
    DisableAccessSpec(DisableAccessSpec),
    DisableAccessSpecResponse(DisableAccessSpecResponse),
    GetAccessSpecs(GetAccessSpecs),
    GetAccessSpecsResponse(GetAccessSpecsResponse),
    ClientRequestOp(ClientRequestOp),
    GetReaderConfig(GetReaderConfig),
    SetReaderConfigResponse(SetReaderConfigResponse),
    CloseConnection(CloseConnection),
    CloseConnectionResponse(CloseConnectionResponse),
    GetReport(GetReport),
    RoAccessReport(RoAccessReport),
    KeepAlive(KeepAlive),
    KeepAliveAck(KeepAliveAck),
    ReaderEventNotification(ReaderEventNotification),
    EnableEventsAndReports(EnableEventsAndReports),
    CustomMessage(CustomMessage),
    ErrorMessage(ErrorMessage),
}

/// The model of a `Message`.
pub enum MessageView {
    GetSupportedVersion(GetSupportedVersion),
    GetSupportedVersionResponse(GetSupportedVersionResponse),
    SetProtocolVersion(SetProtocolVersion),
    SetProtocolVersionResponse(SetProtocolVersionResponseView),
    GetReaderCapabilities(GetReaderCapabilitiesView),
    AddRoSpec(AddRoSpecView),
    AddRoSpecResponse(AddRoSpecResponseView),
    DeleteRoSpec(DeleteRoSpec),
    DeleteRoSpecResponse(DeleteRoSpecResponseView),
    StartRoSpec(StartRoSpec),
    StartRoSpecResponse(StartRoSpecResponseView),
    StopRoSpec(StopRoSpec),
    StopRoSpecResponse(StopRoSpecResponseView),
    EnableRoSpec(EnableRoSpec),
    EnableRoSpecResponse(EnableRoSpecResponseView),
    DisableRoSpec(DisableRoSpec),
    DisableRoSpecResponse(DisableRoSpecResponseView),
    GetRoSpecs(GetRoSpecs),
    GetRoSpecsResponse(GetRoSpecsResponseView),
    AddAccessSpec(AddAccessSpecView),
    AddAccessSpecResponse(AddAccessSpecResponseView),
    DeleteAccessSpec(DeleteAccessSpec),
    DeleteAccessSpecResponse(DeleteAccessSpecResponseView),
    EnableAccessSpec(EnableAccessSpec),
    EnableAccessSpecResponse(EnableAccessSpecResponseView),
    DisableAccessSpec(DisableAccessSpec),
    DisableAccessSpecResponse(DisableAccessSpecResponseView),
    GetAccessSpecs(GetAccessSpecs),
    GetAccessSpecsResponse(GetAccessSpecsResponseView),
    ClientRequestOp(ClientRequestOpView),
    GetReaderConfig(GetReaderConfigView),
    SetReaderConfigResponse(SetReaderConfigResponseView),
    CloseConnection(CloseConnection),
    CloseConnectionResponse(CloseConnectionResponseView),
    GetReport(GetReport),
    RoAccessReport(RoAccessReportView),
    KeepAlive(KeepAlive),
    KeepAliveAck(KeepAliveAck),
    ReaderEventNotification(ReaderEventNotification),
    EnableEventsAndReports(EnableEventsAndReports),
    CustomMessage(CustomMessage),
    ErrorMessage(ErrorMessageView),
}

impl DeepView for Message {
    type V = MessageView;

    open spec fn deep_view(&self) -> MessageView {
        match self {
            Message::GetSupportedVersion(x) => MessageView::GetSupportedVersion(x.deep_view()),
            Message::GetSupportedVersionResponse(
                x) => MessageView::GetSupportedVersionResponse(x.deep_view(),
            ),
            Message::SetProtocolVersion(x) => MessageView::SetProtocolVersion(x.deep_view()),
            Message::SetProtocolVersionResponse(
                x) => MessageView::SetProtocolVersionResponse(x.deep_view(),
            ),
            Message::GetReaderCapabilities(x) => MessageView::GetReaderCapabilities(x.deep_view()),
            Message::AddRoSpec(x) => MessageView::AddRoSpec(x.deep_view()),
            Message::AddRoSpecResponse(x) => MessageView::AddRoSpecResponse(x.deep_view()),
            Message::DeleteRoSpec(x) => MessageView::DeleteRoSpec(x.deep_view()),
            Message::DeleteRoSpecResponse(x) => MessageView::DeleteRoSpecResponse(x.deep_view()),
            Message::StartRoSpec(x) => MessageView::StartRoSpec(x.deep_view()),
            Message::StartRoSpecResponse(x) => MessageView::StartRoSpecResponse(x.deep_view()),
            Message::StopRoSpec(x) => MessageView::StopRoSpec(x.deep_view()),
            Message::StopRoSpecResponse(x) => MessageView::StopRoSpecResponse(x.deep_view()),
            Message::EnableRoSpec(x) => MessageView::EnableRoSpec(x.deep_view()),
            Message::EnableRoSpecResponse(x) => MessageView::EnableRoSpecResponse(x.deep_view()),
            Message::DisableRoSpec(x) => MessageView::DisableRoSpec(x.deep_view()),
            Message::DisableRoSpecResponse(x) => MessageView::DisableRoSpecResponse(x.deep_view()),
            Message::GetRoSpecs(x) => MessageView::GetRoSpecs(x.deep_view()),
            Message::GetRoSpecsResponse(x) => MessageView::GetRoSpecsResponse(x.deep_view()),
            Message::AddAccessSpec(x) => MessageView::AddAccessSpec(x.deep_view()),
            Message::AddAccessSpecResponse(x) => MessageView::AddAccessSpecResponse(x.deep_view()),
            Message::DeleteAccessSpec(x) => MessageView::DeleteAccessSpec(x.deep_view()),
            Message::DeleteAccessSpecResponse(
                x) => MessageView::DeleteAccessSpecResponse(x.deep_view(),
            ),
            Message::EnableAccessSpec(x) => MessageView::EnableAccessSpec(x.deep_view()),
            Message::EnableAccessSpecResponse(
                x) => MessageView::EnableAccessSpecResponse(x.deep_view(),
            ),
            Message::DisableAccessSpec(x) => MessageView::DisableAccessSpec(x.deep_view()),
            Message::DisableAccessSpecResponse(
                x) => MessageView::DisableAccessSpecResponse(x.deep_view(),
            ),
            Message::GetAccessSpecs(x) => MessageView::GetAccessSpecs(x.deep_view()),
            Message::GetAccessSpecsResponse(
                x) => MessageView::GetAccessSpecsResponse(x.deep_view(),
            ),
            Message::ClientRequestOp(x) => MessageView::ClientRequestOp(x.deep_view()),
            Message::GetReaderConfig(x) => MessageView::GetReaderConfig(x.deep_view()),
            Message::SetReaderConfigResponse(
                x) => MessageView::SetReaderConfigResponse(x.deep_view(),
            ),
            Message::CloseConnection(x) => MessageView::CloseConnection(x.deep_view()),
            Message::CloseConnectionResponse(
                x) => MessageView::CloseConnectionResponse(x.deep_view(),
            ),
            Message::GetReport(x) => MessageView::GetReport(x.deep_view()),
            Message::RoAccessReport(x) => MessageView::RoAccessReport(x.deep_view()),
            Message::KeepAlive(x) => MessageView::KeepAlive(x.deep_view()),
            Message::KeepAliveAck(x) => MessageView::KeepAliveAck(x.deep_view()),
            Message::ReaderEventNotification(
                x) => MessageView::ReaderEventNotification(x.deep_view(),
            ),
            Message::EnableEventsAndReports(
                x) => MessageView::EnableEventsAndReports(x.deep_view(),
            ),
            Message::CustomMessage(x) => MessageView::CustomMessage(x.deep_view()),
            Message::ErrorMessage(x) => MessageView::ErrorMessage(x.deep_view()),
        }
    }
}

impl Message {
    /// Among the messages that settle the protocol version: the message of type `type_num` that the
    /// payload holds, or nothing where the type is none of theirs.
    pub open spec fn parse_version(type_num: u16, payload: Seq<u8>) -> Option<Result<MessageView, Error>> {
        if type_num == 46 {
            Some(
                match payload_of::<GetSupportedVersion>(payload) {
                    Err(e) => Err(e),
                    Ok(x) => Ok(MessageView::GetSupportedVersion(x)),
                },
            )
        } else if type_num == 56 {
            Some(
                match payload_of::<GetSupportedVersionResponse>(payload) {
                    Err(e) => Err(e),
                    Ok(x) => Ok(MessageView::GetSupportedVersionResponse(x)),
                },
            )
        } else if type_num == 47 {
            Some(
                match payload_of::<SetProtocolVersion>(payload) {
                    Err(e) => Err(e),
                    Ok(x) => Ok(MessageView::SetProtocolVersion(x)),
                },
            )
        } else if type_num == 57 {
            Some(
                match payload_of::<SetProtocolVersionResponse>(payload) {
                    Err(e) => Err(e),
                    Ok(x) => Ok(MessageView::SetProtocolVersionResponse(x)),
                },
            )
        } else {
            None
        }
    }

    /// Among the messages that ask a reader what it can do: the message of type `type_num` that the
    /// payload holds, or nothing where the type is none of theirs.
    pub open spec fn parse_capabilities(type_num: u16, payload: Seq<u8>) -> Option<Result<MessageView, Error>> {
        if type_num == 1 {
            Some(
                match payload_of::<GetReaderCapabilities>(payload) {
                    Err(e) => Err(e),
                    Ok(x) => Ok(MessageView::GetReaderCapabilities(x)),
                },
            )
        } else {
            None
        }
    }

    /// Among the messages that steer reader operations: the message of type `type_num` that the
    /// payload holds, or nothing where the type is none of theirs.
    pub open spec fn parse_ro_spec(type_num: u16, payload: Seq<u8>) -> Option<Result<MessageView, Error>> {
        if type_num == 20 {
            Some(
                match payload_of::<AddRoSpec>(payload) {
                    Err(e) => Err(e),
                    Ok(x) => Ok(MessageView::AddRoSpec(x)),
                },
            )
        } else if type_num == 21 {
            Some(
                match payload_of::<DeleteRoSpec>(payload) {
                    Err(e) => Err(e),
                    Ok(x) => Ok(MessageView::DeleteRoSpec(x)),
                },
            )
        } else if type_num == 22 {
            Some(
                match payload_of::<StartRoSpec>(payload) {
                    Err(e) => Err(e),
                    Ok(x) => Ok(MessageView::StartRoSpec(x)),
                },
            )
        } else if type_num == 23 {
            Some(
                match payload_of::<StopRoSpec>(payload) {
                    Err(e) => Err(e),
                    Ok(x) => Ok(MessageView::StopRoSpec(x)),
                },
            )
        } else if type_num == 24 {
            Some(
                match payload_of::<EnableRoSpec>(payload) {
                    Err(e) => Err(e),
                    Ok(x) => Ok(MessageView::EnableRoSpec(x)),
                },
            )
        } else if type_num == 25 {
            Some(
                match payload_of::<DisableRoSpec>(payload) {
                    Err(e) => Err(e),
                    Ok(x) => Ok(MessageView::DisableRoSpec(x)),
                },
            )
        } else if type_num == 26 {
            Some(
                match payload_of::<GetRoSpecs>(payload) {
                    Err(e) => Err(e),
                    Ok(x) => Ok(MessageView::GetRoSpecs(x)),
                },
            )
        } else {
            None
        }
    }

    /// Among the answers to the messages that steer reader operations: the message of type `type_num` that the
    /// payload holds, or nothing where the type is none of theirs.
    pub open spec fn parse_ro_spec_response(type_num: u16, payload: Seq<u8>) -> Option<Result<MessageView, Error>> {
        if type_num == 30 {
            Some(
                match payload_of::<AddRoSpecResponse>(payload) {
                    Err(e) => Err(e),
                    Ok(x) => Ok(MessageView::AddRoSpecResponse(x)),
                },
            )
        } else if type_num == 31 {
            Some(
                match payload_of::<DeleteRoSpecResponse>(payload) {
                    Err(e) => Err(e),
                    Ok(x) => Ok(MessageView::DeleteRoSpecResponse(x)),
                },
            )
        } else if type_num == 32 {
            Some(
                match payload_of::<StartRoSpecResponse>(payload) {
                    Err(e) => Err(e),
                    Ok(x) => Ok(MessageView::StartRoSpecResponse(x)),
                },
            )
        } else if type_num == 33 {
            Some(
                match payload_of::<StopRoSpecResponse>(payload) {
                    Err(e) => Err(e),
                    Ok(x) => Ok(MessageView::StopRoSpecResponse(x)),
                },
            )
        } else if type_num == 34 {
            Some(
                match payload_of::<EnableRoSpecResponse>(payload) {
                    Err(e) => Err(e),
                    Ok(x) => Ok(MessageView::EnableRoSpecResponse(x)),
                },
            )
        } else if type_num == 35 {
            Some(
                match payload_of::<DisableRoSpecResponse>(payload) {
                    Err(e) => Err(e),
                    Ok(x) => Ok(MessageView::DisableRoSpecResponse(x)),
                },
            )
        } else if type_num == 36 {
            Some(
                match payload_of::<GetRoSpecsResponse>(payload) {
                    Err(e) => Err(e),
                    Ok(x) => Ok(MessageView::GetRoSpecsResponse(x)),
                },
            )
        } else {
            None
        }
    }

    /// Among the messages that steer tag access operations: the message of type `type_num` that the
    /// payload holds, or nothing where the type is none of theirs.
    pub open spec fn parse_access_spec(type_num: u16, payload: Seq<u8>) -> Option<Result<MessageView, Error>> {
        if type_num == 40 {
            Some(
                match payload_of::<AddAccessSpec>(payload) {
                    Err(e) => Err(e),
                    Ok(x) => Ok(MessageView::AddAccessSpec(x)),
                },
            )
        } else if type_num == 41 {
            Some(
                match payload_of::<DeleteAccessSpec>(payload) {
                    Err(e) => Err(e),
                    Ok(x) => Ok(MessageView::DeleteAccessSpec(x)),
                },
            )
        } else if type_num == 42 {
            Some(
                match payload_of::<EnableAccessSpec>(payload) {
                    Err(e) => Err(e),
                    Ok(x) => Ok(MessageView::EnableAccessSpec(x)),
                },
            )
        } else if type_num == 43 {
            Some(
                match payload_of::<DisableAccessSpec>(payload) {
                    Err(e) => Err(e),
                    Ok(x) => Ok(MessageView::DisableAccessSpec(x)),
                },
            )
        } else if type_num == 44 {
            Some(
                match payload_of::<GetAccessSpecs>(payload) {
                    Err(e) => Err(e),
                    Ok(x) => Ok(MessageView::GetAccessSpecs(x)),
                },
            )
        } else if type_num == 45 {
            Some(
                match payload_of::<ClientRequestOp>(payload) {
                    Err(e) => Err(e),
                    Ok(x) => Ok(MessageView::ClientRequestOp(x)),
                },
            )
        } else {
            None
        }
    }

    /// Among the answers to the messages that steer tag access operations: the message of type `type_num` that the
    /// payload holds, or nothing where the type is none of theirs.
    pub open spec fn parse_access_spec_response(type_num: u16, payload: Seq<u8>) -> Option<Result<MessageView, Error>> {
        if type_num == 50 {
            Some(
                match payload_of::<AddAccessSpecResponse>(payload) {
                    Err(e) => Err(e),
                    Ok(x) => Ok(MessageView::AddAccessSpecResponse(x)),
                },
            )
        } else if type_num == 51 {
            Some(
                match payload_of::<DeleteAccessSpecResponse>(payload) {
                    Err(e) => Err(e),
                    Ok(x) => Ok(MessageView::DeleteAccessSpecResponse(x)),
                },
            )
        } else if type_num == 52 {
            Some(
                match payload_of::<EnableAccessSpecResponse>(payload) {
                    Err(e) => Err(e),
                    Ok(x) => Ok(MessageView::EnableAccessSpecResponse(x)),
                },
            )
        } else if type_num == 53 {
            Some(
                match payload_of::<DisableAccessSpecResponse>(payload) {
                    Err(e) => Err(e),
                    Ok(x) => Ok(MessageView::DisableAccessSpecResponse(x)),
                },
            )
        } else if type_num == 54 {
            Some(
                match payload_of::<GetAccessSpecsResponse>(payload) {
                    Err(e) => Err(e),
                    Ok(x) => Ok(MessageView::GetAccessSpecsResponse(x)),
                },
            )
        } else {
            None
        }
    }

    /// Among the messages on a reader's configuration and connection: the message of type `type_num` that the
    /// payload holds, or nothing where the type is none of theirs.
    pub open spec fn parse_config(type_num: u16, payload: Seq<u8>) -> Option<Result<MessageView, Error>> {
        if type_num == 2 {
            Some(
                match payload_of::<GetReaderConfig>(payload) {
                    Err(e) => Err(e),
                    Ok(x) => Ok(MessageView::GetReaderConfig(x)),
                },
            )
        } else if type_num == 13 {
            Some(
                match payload_of::<SetReaderConfigResponse>(payload) {
                    Err(e) => Err(e),
                    Ok(x) => Ok(MessageView::SetReaderConfigResponse(x)),
                },
            )
        } else if type_num == 14 {
            Some(
                match payload_of::<CloseConnection>(payload) {
                    Err(e) => Err(e),
                    Ok(x) => Ok(MessageView::CloseConnection(x)),
                },
            )
        } else if type_num == 4 {
            Some(
                match payload_of::<CloseConnectionResponse>(payload) {
                    Err(e) => Err(e),
                    Ok(x) => Ok(MessageView::CloseConnectionResponse(x)),
                },
            )
        } else {
            None
        }
    }

    /// Among the messages that carry reports and events: the message of type `type_num` that the
    /// payload holds, or nothing where the type is none of theirs.
    pub open spec fn parse_report(type_num: u16, payload: Seq<u8>) -> Option<Result<MessageView, Error>> {
        if type_num == 60 {
            Some(
                match payload_of::<GetReport>(payload) {
                    Err(e) => Err(e),
                    Ok(x) => Ok(MessageView::GetReport(x)),
                },
            )
        } else if type_num == 61 {
            Some(
                match payload_of::<RoAccessReport>(payload) {
                    Err(e) => Err(e),
                    Ok(x) => Ok(MessageView::RoAccessReport(x)),
                },
            )
        } else if type_num == 62 {
            Some(
                match payload_of::<KeepAlive>(payload) {
                    Err(e) => Err(e),
                    Ok(x) => Ok(MessageView::KeepAlive(x)),
                },
            )
        } else if type_num == 72 {
            Some(
                match payload_of::<KeepAliveAck>(payload) {
                    Err(e) => Err(e),
                    Ok(x) => Ok(MessageView::KeepAliveAck(x)),
                },
            )
        } else if type_num == 63 {
            Some(
                match payload_of::<ReaderEventNotification>(payload) {
                    Err(e) => Err(e),
                    Ok(x) => Ok(MessageView::ReaderEventNotification(x)),
                },
            )
        } else if type_num == 64 {
            Some(
                match payload_of::<EnableEventsAndReports>(payload) {
                    Err(e) => Err(e),
                    Ok(x) => Ok(MessageView::EnableEventsAndReports(x)),
                },
            )
        } else {
            None
        }
    }

    /// Among the vendor's message and the error message: the message of type `type_num` that the
    /// payload holds, or nothing where the type is none of theirs.
    pub open spec fn parse_other(type_num: u16, payload: Seq<u8>) -> Option<Result<MessageView, Error>> {
        if type_num == 1023 {
            Some(
                match payload_of::<CustomMessage>(payload) {
                    Err(e) => Err(e),
                    Ok(x) => Ok(MessageView::CustomMessage(x)),
                },
            )
        } else if type_num == 1000 {
            Some(
                match payload_of::<ErrorMessage>(payload) {
                    Err(e) => Err(e),
                    Ok(x) => Ok(MessageView::ErrorMessage(x)),
                },
            )
        } else {
            None
        }
    }

    /// The message of type `message_id % 65536` that the payload holds, or
    /// the error that names `message_id` where no message has that type.
    pub open spec fn parse(message_id: u32, payload: Seq<u8>) -> Result<MessageView, Error> {
        let type_num = (message_id % 0x1_0000) as u16;
        if let Some(r) = Self::parse_version(type_num, payload) {
            r
        } else if let Some(r) = Self::parse_capabilities(type_num, payload) {
            r
        } else if let Some(r) = Self::parse_ro_spec(type_num, payload) {
            r
        } else if let Some(r) = Self::parse_ro_spec_response(type_num, payload) {
            r
        } else if let Some(r) = Self::parse_access_spec(type_num, payload) {
            r
        } else if let Some(r) = Self::parse_access_spec_response(type_num, payload) {
            r
        } else if let Some(r) = Self::parse_config(type_num, payload) {
            r
        } else if let Some(r) = Self::parse_report(type_num, payload) {
            r
        } else if let Some(r) = Self::parse_other(type_num, payload) {
            r
        } else {
            Err(Error::UnknownMessageId(message_id))
        }
    }

    /// The type number of the message.
    pub open spec fn type_num(v: MessageView) -> u16 {
        match v {
            MessageView::GetSupportedVersion(_) => 46,
            MessageView::GetSupportedVersionResponse(_) => 56,
            MessageView::SetProtocolVersion(_) => 47,
            MessageView::SetProtocolVersionResponse(_) => 57,
            MessageView::GetReaderCapabilities(_) => 1,
            MessageView::AddRoSpec(_) => 20,
            MessageView::AddRoSpecResponse(_) => 30,
            MessageView::DeleteRoSpec(_) => 21,
            MessageView::DeleteRoSpecResponse(_) => 31,
            MessageView::StartRoSpec(_) => 22,
            MessageView::StartRoSpecResponse(_) => 32,
            MessageView::StopRoSpec(_) => 23,
            MessageView::StopRoSpecResponse(_) => 33,
            MessageView::EnableRoSpec(_) => 24,
            MessageView::EnableRoSpecResponse(_) => 34,
            MessageView::DisableRoSpec(_) => 25,
            MessageView::DisableRoSpecResponse(_) => 35,
            MessageView::GetRoSpecs(_) => 26,
            MessageView::GetRoSpecsResponse(_) => 36,
            MessageView::AddAccessSpec(_) => 40,
            MessageView::AddAccessSpecResponse(_) => 50,
            MessageView::DeleteAccessSpec(_) => 41,
            MessageView::DeleteAccessSpecResponse(_) => 51,
            MessageView::EnableAccessSpec(_) => 42,
            MessageView::EnableAccessSpecResponse(_) => 52,
            MessageView::DisableAccessSpec(_) => 43,
            MessageView::DisableAccessSpecResponse(_) => 53,
            MessageView::GetAccessSpecs(_) => 44,
            MessageView::GetAccessSpecsResponse(_) => 54,
            MessageView::ClientRequestOp(_) => 45,
            MessageView::GetReaderConfig(_) => 2,
            MessageView::SetReaderConfigResponse(_) => 13,
            MessageView::CloseConnection(_) => 14,
            MessageView::CloseConnectionResponse(_) => 4,
            MessageView::GetReport(_) => 60,
            MessageView::RoAccessReport(_) => 61,
            MessageView::KeepAlive(_) => 62,
            MessageView::KeepAliveAck(_) => 72,
            MessageView::ReaderEventNotification(_) => 63,
            MessageView::EnableEventsAndReports(_) => 64,
            MessageView::CustomMessage(_) => 1023,
            MessageView::ErrorMessage(_) => 1000,
        }
    }

    /// The payload bytes of the message.
    pub open spec fn emit(v: MessageView) -> Seq<u8> {
        match v {
            MessageView::GetSupportedVersion(x) => bytes_of::<GetSupportedVersion>(x),
            MessageView::GetSupportedVersionResponse(
                x) => bytes_of::<GetSupportedVersionResponse>(x,
            ),
            MessageView::SetProtocolVersion(x) => bytes_of::<SetProtocolVersion>(x),
            MessageView::SetProtocolVersionResponse(x) => bytes_of::<SetProtocolVersionResponse>(x),
            MessageView::GetReaderCapabilities(x) => bytes_of::<GetReaderCapabilities>(x),
            MessageView::AddRoSpec(x) => bytes_of::<AddRoSpec>(x),
            MessageView::AddRoSpecResponse(x) => bytes_of::<AddRoSpecResponse>(x),
            MessageView::DeleteRoSpec(x) => bytes_of::<DeleteRoSpec>(x),
            MessageView::DeleteRoSpecResponse(x) => bytes_of::<DeleteRoSpecResponse>(x),
            MessageView::StartRoSpec(x) => bytes_of::<StartRoSpec>(x),
            MessageView::StartRoSpecResponse(x) => bytes_of::<StartRoSpecResponse>(x),
            MessageView::StopRoSpec(x) => bytes_of::<StopRoSpec>(x),
            MessageView::StopRoSpecResponse(x) => bytes_of::<StopRoSpecResponse>(x),
            MessageView::EnableRoSpec(x) => bytes_of::<EnableRoSpec>(x),
            MessageView::EnableRoSpecResponse(x) => bytes_of::<EnableRoSpecResponse>(x),
            MessageView::DisableRoSpec(x) => bytes_of::<DisableRoSpec>(x),
            MessageView::DisableRoSpecResponse(x) => bytes_of::<DisableRoSpecResponse>(x),
            MessageView::GetRoSpecs(x) => bytes_of::<GetRoSpecs>(x),
            MessageView::GetRoSpecsResponse(x) => bytes_of::<GetRoSpecsResponse>(x),
            MessageView::AddAccessSpec(x) => bytes_of::<AddAccessSpec>(x),
            MessageView::AddAccessSpecResponse(x) => bytes_of::<AddAccessSpecResponse>(x),
            MessageView::DeleteAccessSpec(x) => bytes_of::<DeleteAccessSpec>(x),
            MessageView::DeleteAccessSpecResponse(x) => bytes_of::<DeleteAccessSpecResponse>(x),
            MessageView::EnableAccessSpec(x) => bytes_of::<EnableAccessSpec>(x),
            MessageView::EnableAccessSpecResponse(x) => bytes_of::<EnableAccessSpecResponse>(x),
            MessageView::DisableAccessSpec(x) => bytes_of::<DisableAccessSpec>(x),
            MessageView::DisableAccessSpecResponse(x) => bytes_of::<DisableAccessSpecResponse>(x),
            MessageView::GetAccessSpecs(x) => bytes_of::<GetAccessSpecs>(x),
            MessageView::GetAccessSpecsResponse(x) => bytes_of::<GetAccessSpecsResponse>(x),
            MessageView::ClientRequestOp(x) => bytes_of::<ClientRequestOp>(x),
            MessageView::GetReaderConfig(x) => bytes_of::<GetReaderConfig>(x),
            MessageView::SetReaderConfigResponse(x) => bytes_of::<SetReaderConfigResponse>(x),
            MessageView::CloseConnection(x) => bytes_of::<CloseConnection>(x),
            MessageView::CloseConnectionResponse(x) => bytes_of::<CloseConnectionResponse>(x),
            MessageView::GetReport(x) => bytes_of::<GetReport>(x),
            MessageView::RoAccessReport(x) => bytes_of::<RoAccessReport>(x),
            MessageView::KeepAlive(x) => bytes_of::<KeepAlive>(x),
            MessageView::KeepAliveAck(x) => bytes_of::<KeepAliveAck>(x),
            MessageView::ReaderEventNotification(x) => bytes_of::<ReaderEventNotification>(x),
            MessageView::EnableEventsAndReports(x) => bytes_of::<EnableEventsAndReports>(x),
            MessageView::CustomMessage(x) => bytes_of::<CustomMessage>(x),
            MessageView::ErrorMessage(x) => bytes_of::<ErrorMessage>(x),
        }
    }

    fn decode_version(type_num: u16, payload: &[u8]) -> (r: Option<Result<Message, Error>>)
        ensures
            match Self::parse_version(type_num, payload@) {
                Some(Ok(v)) => r is Some && r->Some_0 is Ok && r->Some_0->Ok_0.deep_view() == v,
                Some(Err(e)) => r == Some(Err::<Message, Error>(e)),
                None => r is None,
            },
    {
        if type_num == 46 {
            match decode_payload::<GetSupportedVersion>(payload) {
                Err(e) => Some(Err(e)),
                Ok(x) => Some(Ok(Message::GetSupportedVersion(x))),
            }
        } else if type_num == 56 {
            match decode_payload::<GetSupportedVersionResponse>(payload) {
                Err(e) => Some(Err(e)),
                Ok(x) => Some(Ok(Message::GetSupportedVersionResponse(x))),
            }
        } else if type_num == 47 {
            match decode_payload::<SetProtocolVersion>(payload) {
                Err(e) => Some(Err(e)),
                Ok(x) => Some(Ok(Message::SetProtocolVersion(x))),
            }
        } else if type_num == 57 {
            match decode_payload::<SetProtocolVersionResponse>(payload) {
                Err(e) => Some(Err(e)),
                Ok(x) => Some(Ok(Message::SetProtocolVersionResponse(x))),
            }
        } else {
            None
        }
    }

    fn decode_capabilities(type_num: u16, payload: &[u8]) -> (r: Option<Result<Message, Error>>)
        ensures
            match Self::parse_capabilities(type_num, payload@) {
                Some(Ok(v)) => r is Some && r->Some_0 is Ok && r->Some_0->Ok_0.deep_view() == v,
                Some(Err(e)) => r == Some(Err::<Message, Error>(e)),
                None => r is None,
            },
    {
        if type_num == 1 {
            match decode_payload::<GetReaderCapabilities>(payload) {
                Err(e) => Some(Err(e)),
                Ok(x) => Some(Ok(Message::GetReaderCapabilities(x))),
            }
        } else {
            None
        }
    }

    fn decode_ro_spec(type_num: u16, payload: &[u8]) -> (r: Option<Result<Message, Error>>)
        ensures
            match Self::parse_ro_spec(type_num, payload@) {
                Some(Ok(v)) => r is Some && r->Some_0 is Ok && r->Some_0->Ok_0.deep_view() == v,
                Some(Err(e)) => r == Some(Err::<Message, Error>(e)),
                None => r is None,
            },
    {
        if type_num == 20 {
            match decode_payload::<AddRoSpec>(payload) {
                Err(e) => Some(Err(e)),
                Ok(x) => Some(Ok(Message::AddRoSpec(x))),
            }
        } else if type_num == 21 {
            match decode_payload::<DeleteRoSpec>(payload) {
                Err(e) => Some(Err(e)),
                Ok(x) => Some(Ok(Message::DeleteRoSpec(x))),
            }
        } else if type_num == 22 {
            match decode_payload::<StartRoSpec>(payload) {
                Err(e) => Some(Err(e)),
                Ok(x) => Some(Ok(Message::StartRoSpec(x))),
            }
        } else if type_num == 23 {
            match decode_payload::<StopRoSpec>(payload) {
                Err(e) => Some(Err(e)),
                Ok(x) => Some(Ok(Message::StopRoSpec(x))),
            }
        } else if type_num == 24 {
            match decode_payload::<EnableRoSpec>(payload) {
                Err(e) => Some(Err(e)),
                Ok(x) => Some(Ok(Message::EnableRoSpec(x))),
            }
        } else if type_num == 25 {
            match decode_payload::<DisableRoSpec>(payload) {
                Err(e) => Some(Err(e)),
                Ok(x) => Some(Ok(Message::DisableRoSpec(x))),
            }
        } else if type_num == 26 {
            match decode_payload::<GetRoSpecs>(payload) {
                Err(e) => Some(Err(e)),
                Ok(x) => Some(Ok(Message::GetRoSpecs(x))),
            }
        } else {
            None
        }
    }

    fn decode_ro_spec_response(type_num: u16, payload: &[u8]) -> (r: Option<Result<Message, Error>>)
        ensures
            match Self::parse_ro_spec_response(type_num, payload@) {
                Some(Ok(v)) => r is Some && r->Some_0 is Ok && r->Some_0->Ok_0.deep_view() == v,
                Some(Err(e)) => r == Some(Err::<Message, Error>(e)),
                None => r is None,
            },
    {
        if type_num == 30 {
            match decode_payload::<AddRoSpecResponse>(payload) {
                Err(e) => Some(Err(e)),
                Ok(x) => Some(Ok(Message::AddRoSpecResponse(x))),
            }
        } else if type_num == 31 {
            match decode_payload::<DeleteRoSpecResponse>(payload) {
                Err(e) => Some(Err(e)),
                Ok(x) => Some(Ok(Message::DeleteRoSpecResponse(x))),
            }
        } else if type_num == 32 {
            match decode_payload::<StartRoSpecResponse>(payload) {
                Err(e) => Some(Err(e)),
                Ok(x) => Some(Ok(Message::StartRoSpecResponse(x))),
            }
        } else if type_num == 33 {
            match decode_payload::<StopRoSpecResponse>(payload) {
                Err(e) => Some(Err(e)),
                Ok(x) => Some(Ok(Message::StopRoSpecResponse(x))),
            }
        } else if type_num == 34 {
            match decode_payload::<EnableRoSpecResponse>(payload) {
                Err(e) => Some(Err(e)),
                Ok(x) => Some(Ok(Message::EnableRoSpecResponse(x))),
            }
        } else if type_num == 35 {
            match decode_payload::<DisableRoSpecResponse>(payload) {
                Err(e) => Some(Err(e)),
                Ok(x) => Some(Ok(Message::DisableRoSpecResponse(x))),
            }
        } else if type_num == 36 {
            match decode_payload::<GetRoSpecsResponse>(payload) {
                Err(e) => Some(Err(e)),
                Ok(x) => Some(Ok(Message::GetRoSpecsResponse(x))),
            }
        } else {
            None
        }
    }

    fn decode_access_spec(type_num: u16, payload: &[u8]) -> (r: Option<Result<Message, Error>>)
        ensures
            match Self::parse_access_spec(type_num, payload@) {
                Some(Ok(v)) => r is Some && r->Some_0 is Ok && r->Some_0->Ok_0.deep_view() == v,
                Some(Err(e)) => r == Some(Err::<Message, Error>(e)),
                None => r is None,
            },
    {
        if type_num == 40 {
            match decode_payload::<AddAccessSpec>(payload) {
                Err(e) => Some(Err(e)),
                Ok(x) => Some(Ok(Message::AddAccessSpec(x))),
            }
        } else if type_num == 41 {
            match decode_payload::<DeleteAccessSpec>(payload) {
                Err(e) => Some(Err(e)),
                Ok(x) => Some(Ok(Message::DeleteAccessSpec(x))),
            }
        } else if type_num == 42 {
            match decode_payload::<EnableAccessSpec>(payload) {
                Err(e) => Some(Err(e)),
                Ok(x) => Some(Ok(Message::EnableAccessSpec(x))),
            }
        } else if type_num == 43 {
            match decode_payload::<DisableAccessSpec>(payload) {
                Err(e) => Some(Err(e)),
                Ok(x) => Some(Ok(Message::DisableAccessSpec(x))),
            }
        } else if type_num == 44 {
            match decode_payload::<GetAccessSpecs>(payload) {
                Err(e) => Some(Err(e)),
                Ok(x) => Some(Ok(Message::GetAccessSpecs(x))),
            }
        } else if type_num == 45 {
            match decode_payload::<ClientRequestOp>(payload) {
                Err(e) => Some(Err(e)),
                Ok(x) => Some(Ok(Message::ClientRequestOp(x))),
            }
        } else {
            None
        }
    }

    fn decode_access_spec_response(type_num: u16, payload: &[u8]) -> (r: Option<Result<Message, Error>>)
        ensures
            match Self::parse_access_spec_response(type_num, payload@) {
                Some(Ok(v)) => r is Some && r->Some_0 is Ok && r->Some_0->Ok_0.deep_view() == v,
                Some(Err(e)) => r == Some(Err::<Message, Error>(e)),
                None => r is None,
            },
    {
        if type_num == 50 {
            match decode_payload::<AddAccessSpecResponse>(payload) {
                Err(e) => Some(Err(e)),
                Ok(x) => Some(Ok(Message::AddAccessSpecResponse(x))),
            }
        } else if type_num == 51 {
            match decode_payload::<DeleteAccessSpecResponse>(payload) {
                Err(e) => Some(Err(e)),
                Ok(x) => Some(Ok(Message::DeleteAccessSpecResponse(x))),
            }
        } else if type_num == 52 {
            match decode_payload::<EnableAccessSpecResponse>(payload) {
                Err(e) => Some(Err(e)),
                Ok(x) => Some(Ok(Message::EnableAccessSpecResponse(x))),
            }
        } else if type_num == 53 {
            match decode_payload::<DisableAccessSpecResponse>(payload) {
                Err(e) => Some(Err(e)),
                Ok(x) => Some(Ok(Message::DisableAccessSpecResponse(x))),
            }
        } else if type_num == 54 {
            match decode_payload::<GetAccessSpecsResponse>(payload) {
                Err(e) => Some(Err(e)),
                Ok(x) => Some(Ok(Message::GetAccessSpecsResponse(x))),
            }
        } else {
            None
        }
    }

    fn decode_config(type_num: u16, payload: &[u8]) -> (r: Option<Result<Message, Error>>)
        ensures
            match Self::parse_config(type_num, payload@) {
                Some(Ok(v)) => r is Some && r->Some_0 is Ok && r->Some_0->Ok_0.deep_view() == v,
                Some(Err(e)) => r == Some(Err::<Message, Error>(e)),
                None => r is None,
            },
    {
        if type_num == 2 {
            match decode_payload::<GetReaderConfig>(payload) {
                Err(e) => Some(Err(e)),
                Ok(x) => Some(Ok(Message::GetReaderConfig(x))),
            }
        } else if type_num == 13 {
            match decode_payload::<SetReaderConfigResponse>(payload) {
                Err(e) => Some(Err(e)),
                Ok(x) => Some(Ok(Message::SetReaderConfigResponse(x))),
            }
        } else if type_num == 14 {
            match decode_payload::<CloseConnection>(payload) {
                Err(e) => Some(Err(e)),
                Ok(x) => Some(Ok(Message::CloseConnection(x))),
            }
        } else if type_num == 4 {
            match decode_payload::<CloseConnectionResponse>(payload) {
                Err(e) => Some(Err(e)),
                Ok(x) => Some(Ok(Message::CloseConnectionResponse(x))),
            }
        } else {
            None
        }
    }

    fn decode_report(type_num: u16, payload: &[u8]) -> (r: Option<Result<Message, Error>>)
        ensures
            match Self::parse_report(type_num, payload@) {
                Some(Ok(v)) => r is Some && r->Some_0 is Ok && r->Some_0->Ok_0.deep_view() == v,
                Some(Err(e)) => r == Some(Err::<Message, Error>(e)),
                None => r is None,
            },
    {
        if type_num == 60 {
            match decode_payload::<GetReport>(payload) {
                Err(e) => Some(Err(e)),
                Ok(x) => Some(Ok(Message::GetReport(x))),
            }
        } else if type_num == 61 {
            match decode_payload::<RoAccessReport>(payload) {
                Err(e) => Some(Err(e)),
                Ok(x) => Some(Ok(Message::RoAccessReport(x))),
            }
        } else if type_num == 62 {
            match decode_payload::<KeepAlive>(payload) {
                Err(e) => Some(Err(e)),
                Ok(x) => Some(Ok(Message::KeepAlive(x))),
            }
        } else if type_num == 72 {
            match decode_payload::<KeepAliveAck>(payload) {
                Err(e) => Some(Err(e)),
                Ok(x) => Some(Ok(Message::KeepAliveAck(x))),
            }
        } else if type_num == 63 {
            match decode_payload::<ReaderEventNotification>(payload) {
                Err(e) => Some(Err(e)),
                Ok(x) => Some(Ok(Message::ReaderEventNotification(x))),
            }
        } else if type_num == 64 {
            match decode_payload::<EnableEventsAndReports>(payload) {
                Err(e) => Some(Err(e)),
                Ok(x) => Some(Ok(Message::EnableEventsAndReports(x))),
            }
        } else {
            None
        }
    }

    fn decode_other(type_num: u16, payload: &[u8]) -> (r: Option<Result<Message, Error>>)
        ensures
            match Self::parse_other(type_num, payload@) {
                Some(Ok(v)) => r is Some && r->Some_0 is Ok && r->Some_0->Ok_0.deep_view() == v,
                Some(Err(e)) => r == Some(Err::<Message, Error>(e)),
                None => r is None,
            },
    {
        if type_num == 1023 {
            match decode_payload::<CustomMessage>(payload) {
                Err(e) => Some(Err(e)),
                Ok(x) => Some(Ok(Message::CustomMessage(x))),
            }
        } else if type_num == 1000 {
            match decode_payload::<ErrorMessage>(payload) {
                Err(e) => Some(Err(e)),
                Ok(x) => Some(Ok(Message::ErrorMessage(x))),
            }
        } else {
            None
        }
    }

    /// Whether the message fits the format.
    pub open spec fn canonical(v: MessageView) -> bool {
        match v {
            MessageView::GetSupportedVersion(
                x) => <GetSupportedVersion as LLRPMessage>::canonical(x,
            ),
            MessageView::GetSupportedVersionResponse(
                x) => <GetSupportedVersionResponse as LLRPMessage>::canonical(x,
            ),
            MessageView::SetProtocolVersion(x) => <SetProtocolVersion as LLRPMessage>::canonical(x),
            MessageView::SetProtocolVersionResponse(
                x) => <SetProtocolVersionResponse as LLRPMessage>::canonical(x,
            ),
            MessageView::GetReaderCapabilities(
                x) => <GetReaderCapabilities as LLRPMessage>::canonical(x,
            ),
            MessageView::AddRoSpec(x) => <AddRoSpec as LLRPMessage>::canonical(x),
            MessageView::AddRoSpecResponse(x) => <AddRoSpecResponse as LLRPMessage>::canonical(x),
            MessageView::DeleteRoSpec(x) => <DeleteRoSpec as LLRPMessage>::canonical(x),
            MessageView::DeleteRoSpecResponse(
                x) => <DeleteRoSpecResponse as LLRPMessage>::canonical(x,
            ),
            MessageView::StartRoSpec(x) => <StartRoSpec as LLRPMessage>::canonical(x),
            MessageView::StartRoSpecResponse(
                x) => <StartRoSpecResponse as LLRPMessage>::canonical(x,
            ),
            MessageView::StopRoSpec(x) => <StopRoSpec as LLRPMessage>::canonical(x),
            MessageView::StopRoSpecResponse(x) => <StopRoSpecResponse as LLRPMessage>::canonical(x),
            MessageView::EnableRoSpec(x) => <EnableRoSpec as LLRPMessage>::canonical(x),
            MessageView::EnableRoSpecResponse(
                x) => <EnableRoSpecResponse as LLRPMessage>::canonical(x,
            ),
            MessageView::DisableRoSpec(x) => <DisableRoSpec as LLRPMessage>::canonical(x),
            MessageView::DisableRoSpecResponse(
                x) => <DisableRoSpecResponse as LLRPMessage>::canonical(x,
            ),
            MessageView::GetRoSpecs(x) => <GetRoSpecs as LLRPMessage>::canonical(x),
            MessageView::GetRoSpecsResponse(x) => <GetRoSpecsResponse as LLRPMessage>::canonical(x),
            MessageView::AddAccessSpec(x) => <AddAccessSpec as LLRPMessage>::canonical(x),
            MessageView::AddAccessSpecResponse(
                x) => <AddAccessSpecResponse as LLRPMessage>::canonical(x,
            ),
            MessageView::DeleteAccessSpec(x) => <DeleteAccessSpec as LLRPMessage>::canonical(x),
            MessageView::DeleteAccessSpecResponse(
                x) => <DeleteAccessSpecResponse as LLRPMessage>::canonical(x,
            ),
            MessageView::EnableAccessSpec(x) => <EnableAccessSpec as LLRPMessage>::canonical(x),
            MessageView::EnableAccessSpecResponse(
                x) => <EnableAccessSpecResponse as LLRPMessage>::canonical(x,
            ),
            MessageView::DisableAccessSpec(x) => <DisableAccessSpec as LLRPMessage>::canonical(x),
            MessageView::DisableAccessSpecResponse(
                x) => <DisableAccessSpecResponse as LLRPMessage>::canonical(x,
            ),
            MessageView::GetAccessSpecs(x) => <GetAccessSpecs as LLRPMessage>::canonical(x),
            MessageView::GetAccessSpecsResponse(
                x) => <GetAccessSpecsResponse as LLRPMessage>::canonical(x,
            ),
            MessageView::ClientRequestOp(x) => <ClientRequestOp as LLRPMessage>::canonical(x),
            MessageView::GetReaderConfig(x) => <GetReaderConfig as LLRPMessage>::canonical(x),
            MessageView::SetReaderConfigResponse(
                x) => <SetReaderConfigResponse as LLRPMessage>::canonical(x,
            ),
            MessageView::CloseConnection(x) => <CloseConnection as LLRPMessage>::canonical(x),
            MessageView::CloseConnectionResponse(
                x) => <CloseConnectionResponse as LLRPMessage>::canonical(x,
            ),
            MessageView::GetReport(x) => <GetReport as LLRPMessage>::canonical(x),
            MessageView::RoAccessReport(x) => <RoAccessReport as LLRPMessage>::canonical(x),
            MessageView::KeepAlive(x) => <KeepAlive as LLRPMessage>::canonical(x),
            MessageView::KeepAliveAck(x) => <KeepAliveAck as LLRPMessage>::canonical(x),
            MessageView::ReaderEventNotification(
                x) => <ReaderEventNotification as LLRPMessage>::canonical(x,
            ),
            MessageView::EnableEventsAndReports(
                x) => <EnableEventsAndReports as LLRPMessage>::canonical(x,
            ),
            MessageView::CustomMessage(x) => <CustomMessage as LLRPMessage>::canonical(x),
            MessageView::ErrorMessage(x) => <ErrorMessage as LLRPMessage>::canonical(x),
        }
    }

    /// Among the messages that settle the protocol version: a message that fits the format is read
    /// back from the payload that it is written to.
    pub proof fn lemma_roundtrip_version(v: MessageView)
        requires
            v is GetSupportedVersion || v is GetSupportedVersionResponse || v is SetProtocolVersion || v is SetProtocolVersionResponse,
        ensures
            Message::canonical(v) ==> Message::parse_version(Message::type_num(v), Message::emit(v)) == Some(
                Ok::<MessageView, Error>(v),
            ),
    {
        match v {
            MessageView::GetSupportedVersion(x) => {
                lemma_payload_roundtrip::<GetSupportedVersion>(x);
            },
            MessageView::GetSupportedVersionResponse(x) => {
                lemma_payload_roundtrip::<GetSupportedVersionResponse>(x);
            },
            MessageView::SetProtocolVersion(x) => {
                lemma_payload_roundtrip::<SetProtocolVersion>(x);
            },
            MessageView::SetProtocolVersionResponse(x) => {
                lemma_payload_roundtrip::<SetProtocolVersionResponse>(x);
            },
            _ => {},
        }
    }

    /// Among the messages that ask a reader what it can do: a message that fits the format is read
    /// back from the payload that it is written to.
    pub proof fn lemma_roundtrip_capabilities(v: MessageView)
        requires
            v is GetReaderCapabilities,
        ensures
            Message::canonical(v) ==> Message::parse_capabilities(Message::type_num(v), Message::emit(v)) == Some(
                Ok::<MessageView, Error>(v),
            ),
    {
        match v {
            MessageView::GetReaderCapabilities(x) => {
                lemma_payload_roundtrip::<GetReaderCapabilities>(x);
            },
            _ => {},
        }
    }

    /// Among the messages that steer reader operations: a message that fits the format is read
    /// back from the payload that it is written to.
    pub proof fn lemma_roundtrip_ro_spec(v: MessageView)
        requires
            v is AddRoSpec || v is DeleteRoSpec || v is StartRoSpec || v is StopRoSpec || v is EnableRoSpec || v is DisableRoSpec || v is GetRoSpecs,
        ensures
            Message::canonical(v) ==> Message::parse_ro_spec(Message::type_num(v), Message::emit(v)) == Some(
                Ok::<MessageView, Error>(v),
            ),
    {
        match v {
            MessageView::AddRoSpec(x) => {
                lemma_payload_roundtrip::<AddRoSpec>(x);
            },
            MessageView::DeleteRoSpec(x) => {
                lemma_payload_roundtrip::<DeleteRoSpec>(x);
            },
            MessageView::StartRoSpec(x) => {
                lemma_payload_roundtrip::<StartRoSpec>(x);
            },
            MessageView::StopRoSpec(x) => {
                lemma_payload_roundtrip::<StopRoSpec>(x);
            },
            MessageView::EnableRoSpec(x) => {
                lemma_payload_roundtrip::<EnableRoSpec>(x);
            },
            MessageView::DisableRoSpec(x) => {
                lemma_payload_roundtrip::<DisableRoSpec>(x);
            },
            MessageView::GetRoSpecs(x) => {
                lemma_payload_roundtrip::<GetRoSpecs>(x);
            },
            _ => {},
        }
    }

    /// Among the answers to the messages that steer reader operations: a message that fits the format is read
    /// back from the payload that it is written to.
    pub proof fn lemma_roundtrip_ro_spec_response(v: MessageView)
        requires
            v is AddRoSpecResponse || v is DeleteRoSpecResponse || v is StartRoSpecResponse || v is StopRoSpecResponse || v is EnableRoSpecResponse || v is DisableRoSpecResponse || v is GetRoSpecsResponse,
        ensures
            Message::canonical(v) ==> Message::parse_ro_spec_response(Message::type_num(v), Message::emit(v)) == Some(
                Ok::<MessageView, Error>(v),
            ),
    {
        match v {
            MessageView::AddRoSpecResponse(x) => {
                lemma_payload_roundtrip::<AddRoSpecResponse>(x);
            },
            MessageView::DeleteRoSpecResponse(x) => {
                lemma_payload_roundtrip::<DeleteRoSpecResponse>(x);
            },
            MessageView::StartRoSpecResponse(x) => {
                lemma_payload_roundtrip::<StartRoSpecResponse>(x);
            },
            MessageView::StopRoSpecResponse(x) => {
                lemma_payload_roundtrip::<StopRoSpecResponse>(x);
            },
            MessageView::EnableRoSpecResponse(x) => {
                lemma_payload_roundtrip::<EnableRoSpecResponse>(x);
            },
            MessageView::DisableRoSpecResponse(x) => {
                lemma_payload_roundtrip::<DisableRoSpecResponse>(x);
            },
            MessageView::GetRoSpecsResponse(x) => {
                lemma_payload_roundtrip::<GetRoSpecsResponse>(x);
            },
            _ => {},
        }
    }

    /// Among the messages that steer tag access operations: a message that fits the format is read
    /// back from the payload that it is written to.
    pub proof fn lemma_roundtrip_access_spec(v: MessageView)
        requires
            v is AddAccessSpec || v is DeleteAccessSpec || v is EnableAccessSpec || v is DisableAccessSpec || v is GetAccessSpecs || v is ClientRequestOp,
        ensures
            Message::canonical(v) ==> Message::parse_access_spec(Message::type_num(v), Message::emit(v)) == Some(
                Ok::<MessageView, Error>(v),
            ),
    {
        match v {
            MessageView::AddAccessSpec(x) => {
                lemma_payload_roundtrip::<AddAccessSpec>(x);
            },
            MessageView::DeleteAccessSpec(x) => {
                lemma_payload_roundtrip::<DeleteAccessSpec>(x);
            },
            MessageView::EnableAccessSpec(x) => {
                lemma_payload_roundtrip::<EnableAccessSpec>(x);
            },
            MessageView::DisableAccessSpec(x) => {
                lemma_payload_roundtrip::<DisableAccessSpec>(x);
            },
            MessageView::GetAccessSpecs(x) => {
                lemma_payload_roundtrip::<GetAccessSpecs>(x);
            },
            MessageView::ClientRequestOp(x) => {
                lemma_payload_roundtrip::<ClientRequestOp>(x);
            },
            _ => {},
        }
    }

    /// Among the answers to the messages that steer tag access operations: a message that fits the format is read
    /// back from the payload that it is written to.
    pub proof fn lemma_roundtrip_access_spec_response(v: MessageView)
        requires
            v is AddAccessSpecResponse || v is DeleteAccessSpecResponse || v is EnableAccessSpecResponse || v is DisableAccessSpecResponse || v is GetAccessSpecsResponse,
        ensures
            Message::canonical(v) ==> Message::parse_access_spec_response(Message::type_num(v), Message::emit(v)) == Some(
                Ok::<MessageView, Error>(v),
            ),
    {
        match v {
            MessageView::AddAccessSpecResponse(x) => {
                lemma_payload_roundtrip::<AddAccessSpecResponse>(x);
            },
            MessageView::DeleteAccessSpecResponse(x) => {
                lemma_payload_roundtrip::<DeleteAccessSpecResponse>(x);
            },
            MessageView::EnableAccessSpecResponse(x) => {
                lemma_payload_roundtrip::<EnableAccessSpecResponse>(x);
            },
            MessageView::DisableAccessSpecResponse(x) => {
                lemma_payload_roundtrip::<DisableAccessSpecResponse>(x);
            },
            MessageView::GetAccessSpecsResponse(x) => {
                lemma_payload_roundtrip::<GetAccessSpecsResponse>(x);
            },
            _ => {},
        }
    }

    /// Among the messages on a reader's configuration and connection: a message that fits the format is read
    /// back from the payload that it is written to.
    pub proof fn lemma_roundtrip_config(v: MessageView)
        requires
            v is GetReaderConfig || v is SetReaderConfigResponse || v is CloseConnection || v is CloseConnectionResponse,
        ensures
            Message::canonical(v) ==> Message::parse_config(Message::type_num(v), Message::emit(v)) == Some(
                Ok::<MessageView, Error>(v),
            ),
    {
        match v {
            MessageView::GetReaderConfig(x) => {
                lemma_payload_roundtrip::<GetReaderConfig>(x);
            },
            MessageView::SetReaderConfigResponse(x) => {
                lemma_payload_roundtrip::<SetReaderConfigResponse>(x);
            },
            MessageView::CloseConnection(x) => {
                lemma_payload_roundtrip::<CloseConnection>(x);
            },
            MessageView::CloseConnectionResponse(x) => {
                lemma_payload_roundtrip::<CloseConnectionResponse>(x);
            },
            _ => {},
        }
    }

    /// Among the messages that carry reports and events: a message that fits the format is read
    /// back from the payload that it is written to.
    pub proof fn lemma_roundtrip_report(v: MessageView)
        requires
            v is GetReport || v is RoAccessReport || v is KeepAlive || v is KeepAliveAck || v is ReaderEventNotification || v is EnableEventsAndReports,
        ensures
            Message::canonical(v) ==> Message::parse_report(Message::type_num(v), Message::emit(v)) == Some(
                Ok::<MessageView, Error>(v),
            ),
    {
        match v {
            MessageView::GetReport(x) => {
                lemma_payload_roundtrip::<GetReport>(x);
            },
            MessageView::RoAccessReport(x) => {
                lemma_payload_roundtrip::<RoAccessReport>(x);
            },
            MessageView::KeepAlive(x) => {
                lemma_payload_roundtrip::<KeepAlive>(x);
            },
            MessageView::KeepAliveAck(x) => {
                lemma_payload_roundtrip::<KeepAliveAck>(x);
            },
            MessageView::ReaderEventNotification(x) => {
                lemma_payload_roundtrip::<ReaderEventNotification>(x);
            },
            MessageView::EnableEventsAndReports(x) => {
                lemma_payload_roundtrip::<EnableEventsAndReports>(x);
            },
            _ => {},
        }
    }

    /// Among the vendor's message and the error message: a message that fits the format is read
    /// back from the payload that it is written to.
    pub proof fn lemma_roundtrip_other(v: MessageView)
        requires
            v is CustomMessage || v is ErrorMessage,
        ensures
            Message::canonical(v) ==> Message::parse_other(Message::type_num(v), Message::emit(v)) == Some(
                Ok::<MessageView, Error>(v),
            ),
    {
        match v {
            MessageView::CustomMessage(x) => {
                lemma_payload_roundtrip::<CustomMessage>(x);
            },
            MessageView::ErrorMessage(x) => {
                lemma_payload_roundtrip::<ErrorMessage>(x);
            },
            _ => {},
        }
    }

    /// Any message that fits the format is read back, under its own type,
    /// from the payload that it is written to.
    #[verifier::rlimit(40)]
    pub proof fn lemma_roundtrip(v: MessageView)
        ensures
            Message::canonical(v) ==> Message::parse(Message::type_num(v) as u32, Message::emit(v)) == Ok::<MessageView, Error>(v),
    {
        if v is GetSupportedVersion || v is GetSupportedVersionResponse || v is SetProtocolVersion || v is SetProtocolVersionResponse {
            Self::lemma_roundtrip_version(v);
        } else if v is GetReaderCapabilities {
            Self::lemma_roundtrip_capabilities(v);
        } else if v is AddRoSpec || v is DeleteRoSpec || v is StartRoSpec || v is StopRoSpec || v is EnableRoSpec || v is DisableRoSpec || v is GetRoSpecs {
            Self::lemma_roundtrip_ro_spec(v);
        } else if v is AddRoSpecResponse || v is DeleteRoSpecResponse || v is StartRoSpecResponse || v is StopRoSpecResponse || v is EnableRoSpecResponse || v is DisableRoSpecResponse || v is GetRoSpecsResponse {
            Self::lemma_roundtrip_ro_spec_response(v);
        } else if v is AddAccessSpec || v is DeleteAccessSpec || v is EnableAccessSpec || v is DisableAccessSpec || v is GetAccessSpecs || v is ClientRequestOp {
            Self::lemma_roundtrip_access_spec(v);
        } else if v is AddAccessSpecResponse || v is DeleteAccessSpecResponse || v is EnableAccessSpecResponse || v is DisableAccessSpecResponse || v is GetAccessSpecsResponse {
            Self::lemma_roundtrip_access_spec_response(v);
        } else if v is GetReaderConfig || v is SetReaderConfigResponse || v is CloseConnection || v is CloseConnectionResponse {
            Self::lemma_roundtrip_config(v);
        } else if v is GetReport || v is RoAccessReport || v is KeepAlive || v is KeepAliveAck || v is ReaderEventNotification || v is EnableEventsAndReports {
            Self::lemma_roundtrip_report(v);
        } else if v is CustomMessage || v is ErrorMessage {
            Self::lemma_roundtrip_other(v);
        } else {
        }
    }

    /// A message that was written, read and written again comes out as the
    /// same bytes.
    pub proof fn lemma_reencode(v: MessageView)
        ensures
            Message::canonical(v) ==> Message::parse(Message::type_num(v) as u32, Message::emit(v)) is Ok
                && Message::emit(Message::parse(Message::type_num(v) as u32, Message::emit(v))->Ok_0)
                == Message::emit(v),
    {
        Self::lemma_roundtrip(v);
    }

    /// Decodes the payload of an envelope whose type field is `message_id`.
    pub fn decode(message_id: u32, payload: &[u8]) -> (r: Result<Message, Error>)
        ensures
            match Message::parse(message_id, payload@) {
                Ok(v) => r is Ok && r->Ok_0.deep_view() == v,
                Err(e) => r == Err::<Message, Error>(e),
            },
    {
        let type_num = (message_id % 0x1_0000) as u16;
        if let Some(r) = Self::decode_version(type_num, payload) {
            r
        } else if let Some(r) = Self::decode_capabilities(type_num, payload) {
            r
        } else if let Some(r) = Self::decode_ro_spec(type_num, payload) {
            r
        } else if let Some(r) = Self::decode_ro_spec_response(type_num, payload) {
            r
        } else if let Some(r) = Self::decode_access_spec(type_num, payload) {
            r
        } else if let Some(r) = Self::decode_access_spec_response(type_num, payload) {
            r
        } else if let Some(r) = Self::decode_config(type_num, payload) {
            r
        } else if let Some(r) = Self::decode_report(type_num, payload) {
            r
        } else if let Some(r) = Self::decode_other(type_num, payload) {
            r
        } else {
            Err(Error::UnknownMessageId(message_id))
        }
    }

    /// Appends the payload to `buffer`.
    pub fn encode(&self, buffer: &mut Vec<u8>)
        ensures
            final(buffer)@ == old(buffer)@ + Message::emit(self.deep_view()),
    {
        match self {
            Message::GetSupportedVersion(x) => encode_payload::<GetSupportedVersion>(x, buffer),
            Message::GetSupportedVersionResponse(
                x) => encode_payload::<GetSupportedVersionResponse>(x, buffer,
            ),
            Message::SetProtocolVersion(x) => encode_payload::<SetProtocolVersion>(x, buffer),
            Message::SetProtocolVersionResponse(
                x) => encode_payload::<SetProtocolVersionResponse>(x, buffer,
            ),
            Message::GetReaderCapabilities(x) => encode_payload::<GetReaderCapabilities>(x, buffer),
            Message::AddRoSpec(x) => encode_payload::<AddRoSpec>(x, buffer),
            Message::AddRoSpecResponse(x) => encode_payload::<AddRoSpecResponse>(x, buffer),
            Message::DeleteRoSpec(x) => encode_payload::<DeleteRoSpec>(x, buffer),
            Message::DeleteRoSpecResponse(x) => encode_payload::<DeleteRoSpecResponse>(x, buffer),
            Message::StartRoSpec(x) => encode_payload::<StartRoSpec>(x, buffer),
            Message::StartRoSpecResponse(x) => encode_payload::<StartRoSpecResponse>(x, buffer),
            Message::StopRoSpec(x) => encode_payload::<StopRoSpec>(x, buffer),
            Message::StopRoSpecResponse(x) => encode_payload::<StopRoSpecResponse>(x, buffer),
            Message::EnableRoSpec(x) => encode_payload::<EnableRoSpec>(x, buffer),
            Message::EnableRoSpecResponse(x) => encode_payload::<EnableRoSpecResponse>(x, buffer),
            Message::DisableRoSpec(x) => encode_payload::<DisableRoSpec>(x, buffer),
            Message::DisableRoSpecResponse(x) => encode_payload::<DisableRoSpecResponse>(x, buffer),
            Message::GetRoSpecs(x) => encode_payload::<GetRoSpecs>(x, buffer),
            Message::GetRoSpecsResponse(x) => encode_payload::<GetRoSpecsResponse>(x, buffer),
            Message::AddAccessSpec(x) => encode_payload::<AddAccessSpec>(x, buffer),
            Message::AddAccessSpecResponse(x) => encode_payload::<AddAccessSpecResponse>(x, buffer),
            Message::DeleteAccessSpec(x) => encode_payload::<DeleteAccessSpec>(x, buffer),
            Message::DeleteAccessSpecResponse(
                x) => encode_payload::<DeleteAccessSpecResponse>(x, buffer,
            ),
            Message::EnableAccessSpec(x) => encode_payload::<EnableAccessSpec>(x, buffer),
            Message::EnableAccessSpecResponse(
                x) => encode_payload::<EnableAccessSpecResponse>(x, buffer,
            ),
            Message::DisableAccessSpec(x) => encode_payload::<DisableAccessSpec>(x, buffer),
            Message::DisableAccessSpecResponse(
                x) => encode_payload::<DisableAccessSpecResponse>(x, buffer,
            ),
            Message::GetAccessSpecs(x) => encode_payload::<GetAccessSpecs>(x, buffer),
            Message::GetAccessSpecsResponse(
                x) => encode_payload::<GetAccessSpecsResponse>(x, buffer,
            ),
            Message::ClientRequestOp(x) => encode_payload::<ClientRequestOp>(x, buffer),
            Message::GetReaderConfig(x) => encode_payload::<GetReaderConfig>(x, buffer),
            Message::SetReaderConfigResponse(
                x) => encode_payload::<SetReaderConfigResponse>(x, buffer,
            ),
            Message::CloseConnection(x) => encode_payload::<CloseConnection>(x, buffer),
            Message::CloseConnectionResponse(
                x) => encode_payload::<CloseConnectionResponse>(x, buffer,
            ),
            Message::GetReport(x) => encode_payload::<GetReport>(x, buffer),
            Message::RoAccessReport(x) => encode_payload::<RoAccessReport>(x, buffer),
            Message::KeepAlive(x) => encode_payload::<KeepAlive>(x, buffer),
            Message::KeepAliveAck(x) => encode_payload::<KeepAliveAck>(x, buffer),
            Message::ReaderEventNotification(
                x) => encode_payload::<ReaderEventNotification>(x, buffer,
            ),
            Message::EnableEventsAndReports(
                x) => encode_payload::<EnableEventsAndReports>(x, buffer,
            ),
            Message::CustomMessage(x) => encode_payload::<CustomMessage>(x, buffer),
            Message::ErrorMessage(x) => encode_payload::<ErrorMessage>(x, buffer),
        }
    }

    /// The type number that the envelope carries for the message.
    pub fn message_type(&self) -> (id: u16)
        ensures
            id == Message::type_num(self.deep_view()),
    {
        match self {
            Message::GetSupportedVersion(_) => 46,
            Message::GetSupportedVersionResponse(_) => 56,
            Message::SetProtocolVersion(_) => 47,
            Message::SetProtocolVersionResponse(_) => 57,
            Message::GetReaderCapabilities(_) => 1,
            Message::AddRoSpec(_) => 20,
            Message::AddRoSpecResponse(_) => 30,
            Message::DeleteRoSpec(_) => 21,
            Message::DeleteRoSpecResponse(_) => 31,
            Message::StartRoSpec(_) => 22,
            Message::StartRoSpecResponse(_) => 32,
            Message::StopRoSpec(_) => 23,
            Message::StopRoSpecResponse(_) => 33,
            Message::EnableRoSpec(_) => 24,
            Message::EnableRoSpecResponse(_) => 34,
            Message::DisableRoSpec(_) => 25,
            Message::DisableRoSpecResponse(_) => 35,
            Message::GetRoSpecs(_) => 26,
            Message::GetRoSpecsResponse(_) => 36,
            Message::AddAccessSpec(_) => 40,
            Message::AddAccessSpecResponse(_) => 50,
            Message::DeleteAccessSpec(_) => 41,
            Message::DeleteAccessSpecResponse(_) => 51,
            Message::EnableAccessSpec(_) => 42,
            Message::EnableAccessSpecResponse(_) => 52,
            Message::DisableAccessSpec(_) => 43,
            Message::DisableAccessSpecResponse(_) => 53,
            Message::GetAccessSpecs(_) => 44,
            Message::GetAccessSpecsResponse(_) => 54,
            Message::ClientRequestOp(_) => 45,
            Message::GetReaderConfig(_) => 2,
            Message::SetReaderConfigResponse(_) => 13,
            Message::CloseConnection(_) => 14,
            Message::CloseConnectionResponse(_) => 4,
            Message::GetReport(_) => 60,
            Message::RoAccessReport(_) => 61,
            Message::KeepAlive(_) => 62,
            Message::KeepAliveAck(_) => 72,
            Message::ReaderEventNotification(_) => 63,
            Message::EnableEventsAndReports(_) => 64,
            Message::CustomMessage(_) => 1023,
            Message::ErrorMessage(_) => 1000,
        }
    }

    pub fn id(&self) -> (id: u16)
        ensures
            id == Message::type_num(self.deep_view()),
    {
        self.message_type()
    }
}

} // verus!
