//! The enumerations of the protocol, each with its table of numbers.

use vstd::prelude::*;
use crate::error::Error;
use crate::value::{Bits, LLRPEnumeration};

verus! {

/// The outcome that a reader reports for a message, a parameter or a field.
#[allow(non_camel_case_types)]
#[derive(Copy, Clone, PartialEq, Eq, Debug, Structural)]
pub enum StatusCode {
    /// The message was received and processed successfully.
    M_Success,
    /// A parameter of the message is in error.
    M_ParameterError,
    /// A field of the message is in error.
    M_FieldError,
    /// The message holds a parameter that it may not hold.
    M_UnexpectedParameter,
    /// A required parameter is missing from the message.
    M_MissingParameter,
    /// A parameter that may occur once occurs more often.
    M_DuplicateParameter,
    /// More instances of a parameter than the reader can take.
    M_OverflowParameter,
    /// More instances of a field than the reader can take.
    M_OverflowField,
    /// The message holds a parameter that the reader does not know.
    M_UnknownParameter,
    /// The field is unknown to the reader.
    M_UnknownField,
    /// The reader does not support the message type.
    M_UnsupportedMessage,
    /// The reader does not support the protocol version of the message.
    M_UnsupportedVersion,
    /// The reader does not support the parameter.
    M_UnsupportedParameter,
    /// The reader did not expect the message.
    M_UnexpectedMessage,
    /// A parameter of the parameter is in error.
    P_ParameterErrorParameter,
    /// A field of the parameter is in error.
    P_FieldError,
    /// The parameter holds a parameter that it may not hold.
    P_UnexpectedParameter,
    /// A required parameter is missing from the parameter.
    P_MissingParameter,
    /// A parameter that may occur once occurs more often.
    P_DuplicateParameter,
    /// More instances of a parameter than the reader can take.
    P_OverflowParameter,
    /// More instances of a field than the reader can take.
    P_OverflowField,
    /// The parameter holds a parameter that the reader does not know.
    P_UnknownParameter,
    /// The field is unknown to the reader.
    P_UnknownField,
    /// The reader does not support the parameter.
    P_UnsupportedParameter,
    /// The value of the field is invalid.
    A_InvalidField,
    /// The value of the field is out of range.
    A_OutOfRange,
    /// The reader itself has a problem.
    R_DeviceError,
}

impl LLRPEnumeration for StatusCode {
    open spec fn value(&self) -> u32 {
        match self {
            StatusCode::M_Success => 0,
            StatusCode::M_ParameterError => 100,
            StatusCode::M_FieldError => 101,
            StatusCode::M_UnexpectedParameter => 102,
            StatusCode::M_MissingParameter => 103,
            StatusCode::M_DuplicateParameter => 104,
            StatusCode::M_OverflowParameter => 105,
            StatusCode::M_OverflowField => 106,
            StatusCode::M_UnknownParameter => 107,
            StatusCode::M_UnknownField => 108,
            StatusCode::M_UnsupportedMessage => 109,
            StatusCode::M_UnsupportedVersion => 110,
            StatusCode::M_UnsupportedParameter => 111,
            StatusCode::M_UnexpectedMessage => 112,
            StatusCode::P_ParameterErrorParameter => 200,
            StatusCode::P_FieldError => 201,
            StatusCode::P_UnexpectedParameter => 202,
            StatusCode::P_MissingParameter => 203,
            StatusCode::P_DuplicateParameter => 204,
            StatusCode::P_OverflowParameter => 205,
            StatusCode::P_OverflowField => 206,
            StatusCode::P_UnknownParameter => 207,
            StatusCode::P_UnknownField => 208,
            StatusCode::P_UnsupportedParameter => 209,
            StatusCode::A_InvalidField => 300,
            StatusCode::A_OutOfRange => 301,
            StatusCode::R_DeviceError => 401,
        }
    }

    open spec fn variant(value: u32) -> Option<StatusCode> {
        if value == 0 {
            Some(StatusCode::M_Success)
        } else if value == 100 {
            Some(StatusCode::M_ParameterError)
        } else if value == 101 {
            Some(StatusCode::M_FieldError)
        } else if value == 102 {
            Some(StatusCode::M_UnexpectedParameter)
        } else if value == 103 {
            Some(StatusCode::M_MissingParameter)
        } else if value == 104 {
            Some(StatusCode::M_DuplicateParameter)
        } else if value == 105 {
            Some(StatusCode::M_OverflowParameter)
        } else if value == 106 {
            Some(StatusCode::M_OverflowField)
        } else if value == 107 {
            Some(StatusCode::M_UnknownParameter)
        } else if value == 108 {
            Some(StatusCode::M_UnknownField)
        } else if value == 109 {
            Some(StatusCode::M_UnsupportedMessage)
        } else if value == 110 {
            Some(StatusCode::M_UnsupportedVersion)
        } else if value == 111 {
            Some(StatusCode::M_UnsupportedParameter)
        } else if value == 112 {
            Some(StatusCode::M_UnexpectedMessage)
        } else if value == 200 {
            Some(StatusCode::P_ParameterErrorParameter)
        } else if value == 201 {
            Some(StatusCode::P_FieldError)
        } else if value == 202 {
            Some(StatusCode::P_UnexpectedParameter)
        } else if value == 203 {
            Some(StatusCode::P_MissingParameter)
        } else if value == 204 {
            Some(StatusCode::P_DuplicateParameter)
        } else if value == 205 {
            Some(StatusCode::P_OverflowParameter)
        } else if value == 206 {
            Some(StatusCode::P_OverflowField)
        } else if value == 207 {
            Some(StatusCode::P_UnknownParameter)
        } else if value == 208 {
            Some(StatusCode::P_UnknownField)
        } else if value == 209 {
            Some(StatusCode::P_UnsupportedParameter)
        } else if value == 300 {
            Some(StatusCode::A_InvalidField)
        } else if value == 301 {
            Some(StatusCode::A_OutOfRange)
        } else if value == 401 {
            Some(StatusCode::R_DeviceError)
        } else {
            None
        }
    }

    proof fn lemma_variant_of_value(&self) {
    }

    proof fn lemma_value_of_variant(value: u32) {
    }

    fn from_value(value: u32) -> (r: Result<StatusCode, Error>) {
        if value == 0 {
            Ok(StatusCode::M_Success)
        } else if value == 100 {
            Ok(StatusCode::M_ParameterError)
        } else if value == 101 {
            Ok(StatusCode::M_FieldError)
        } else if value == 102 {
            Ok(StatusCode::M_UnexpectedParameter)
        } else if value == 103 {
            Ok(StatusCode::M_MissingParameter)
        } else if value == 104 {
            Ok(StatusCode::M_DuplicateParameter)
        } else if value == 105 {
            Ok(StatusCode::M_OverflowParameter)
        } else if value == 106 {
            Ok(StatusCode::M_OverflowField)
        } else if value == 107 {
            Ok(StatusCode::M_UnknownParameter)
        } else if value == 108 {
            Ok(StatusCode::M_UnknownField)
        } else if value == 109 {
            Ok(StatusCode::M_UnsupportedMessage)
        } else if value == 110 {
            Ok(StatusCode::M_UnsupportedVersion)
        } else if value == 111 {
            Ok(StatusCode::M_UnsupportedParameter)
        } else if value == 112 {
            Ok(StatusCode::M_UnexpectedMessage)
        } else if value == 200 {
            Ok(StatusCode::P_ParameterErrorParameter)
        } else if value == 201 {
            Ok(StatusCode::P_FieldError)
        } else if value == 202 {
            Ok(StatusCode::P_UnexpectedParameter)
        } else if value == 203 {
            Ok(StatusCode::P_MissingParameter)
        } else if value == 204 {
            Ok(StatusCode::P_DuplicateParameter)
        } else if value == 205 {
            Ok(StatusCode::P_OverflowParameter)
        } else if value == 206 {
            Ok(StatusCode::P_OverflowField)
        } else if value == 207 {
            Ok(StatusCode::P_UnknownParameter)
        } else if value == 208 {
            Ok(StatusCode::P_UnknownField)
        } else if value == 209 {
            Ok(StatusCode::P_UnsupportedParameter)
        } else if value == 300 {
            Ok(StatusCode::A_InvalidField)
        } else if value == 301 {
            Ok(StatusCode::A_OutOfRange)
        } else if value == 401 {
            Ok(StatusCode::R_DeviceError)
        } else {
            Err(Error::InvalidVariant(value))
        }
    }

    fn to_value<T: Bits>(&self) -> (v: T) {
        T::from_bits(
            match self {
                StatusCode::M_Success => 0,
                StatusCode::M_ParameterError => 100,
                StatusCode::M_FieldError => 101,
                StatusCode::M_UnexpectedParameter => 102,
                StatusCode::M_MissingParameter => 103,
                StatusCode::M_DuplicateParameter => 104,
                StatusCode::M_OverflowParameter => 105,
                StatusCode::M_OverflowField => 106,
                StatusCode::M_UnknownParameter => 107,
                StatusCode::M_UnknownField => 108,
                StatusCode::M_UnsupportedMessage => 109,
                StatusCode::M_UnsupportedVersion => 110,
                StatusCode::M_UnsupportedParameter => 111,
                StatusCode::M_UnexpectedMessage => 112,
                StatusCode::P_ParameterErrorParameter => 200,
                StatusCode::P_FieldError => 201,
                StatusCode::P_UnexpectedParameter => 202,
                StatusCode::P_MissingParameter => 203,
                StatusCode::P_DuplicateParameter => 204,
                StatusCode::P_OverflowParameter => 205,
                StatusCode::P_OverflowField => 206,
                StatusCode::P_UnknownParameter => 207,
                StatusCode::P_UnknownField => 208,
                StatusCode::P_UnsupportedParameter => 209,
                StatusCode::A_InvalidField => 300,
                StatusCode::A_OutOfRange => 301,
                StatusCode::R_DeviceError => 401,
            },
        )
    }
}

/// Which capabilities a client asks a reader for.
#[allow(non_camel_case_types)]
#[derive(Copy, Clone, PartialEq, Eq, Debug, Structural)]
pub enum ReaderCapabilitiesRequestedData {
    All,
    GeneralDeviceCapabilities,
    LLRPCapabilities,
    RegulatoryCapabilities,
    AirProtocolLLRPCapabilities,
}

impl LLRPEnumeration for ReaderCapabilitiesRequestedData {
    open spec fn value(&self) -> u32 {
        match self {
            ReaderCapabilitiesRequestedData::All => 0,
            ReaderCapabilitiesRequestedData::GeneralDeviceCapabilities => 1,
            ReaderCapabilitiesRequestedData::LLRPCapabilities => 2,
            ReaderCapabilitiesRequestedData::RegulatoryCapabilities => 3,
            ReaderCapabilitiesRequestedData::AirProtocolLLRPCapabilities => 4,
        }
    }

    open spec fn variant(value: u32) -> Option<ReaderCapabilitiesRequestedData> {
        if value == 0 {
            Some(ReaderCapabilitiesRequestedData::All)
        } else if value == 1 {
            Some(ReaderCapabilitiesRequestedData::GeneralDeviceCapabilities)
        } else if value == 2 {
            Some(ReaderCapabilitiesRequestedData::LLRPCapabilities)
        } else if value == 3 {
            Some(ReaderCapabilitiesRequestedData::RegulatoryCapabilities)
        } else if value == 4 {
            Some(ReaderCapabilitiesRequestedData::AirProtocolLLRPCapabilities)
        } else {
            None
        }
    }

    proof fn lemma_variant_of_value(&self) {
    }

    proof fn lemma_value_of_variant(value: u32) {
    }

    fn from_value(value: u32) -> (r: Result<ReaderCapabilitiesRequestedData, Error>) {
        if value == 0 {
            Ok(ReaderCapabilitiesRequestedData::All)
        } else if value == 1 {
            Ok(ReaderCapabilitiesRequestedData::GeneralDeviceCapabilities)
        } else if value == 2 {
            Ok(ReaderCapabilitiesRequestedData::LLRPCapabilities)
        } else if value == 3 {
            Ok(ReaderCapabilitiesRequestedData::RegulatoryCapabilities)
        } else if value == 4 {
            Ok(ReaderCapabilitiesRequestedData::AirProtocolLLRPCapabilities)
        } else {
            Err(Error::InvalidVariant(value))
        }
    }

    fn to_value<T: Bits>(&self) -> (v: T) {
        T::from_bits(
            match self {
                ReaderCapabilitiesRequestedData::All => 0,
                ReaderCapabilitiesRequestedData::GeneralDeviceCapabilities => 1,
                ReaderCapabilitiesRequestedData::LLRPCapabilities => 2,
                ReaderCapabilitiesRequestedData::RegulatoryCapabilities => 3,
                ReaderCapabilitiesRequestedData::AirProtocolLLRPCapabilities => 4,
            },
        )
    }
}

/// The air protocols that an antenna can speak.
#[allow(non_camel_case_types)]
#[derive(Copy, Clone, PartialEq, Eq, Debug, Structural)]
pub enum AirProtocol {
    UnspecifiedAirProtocol,
    EPCGlobalClass1Gen2,
    Reserved,
}

impl LLRPEnumeration for AirProtocol {
    open spec fn value(&self) -> u32 {
        match self {
            AirProtocol::UnspecifiedAirProtocol => 0,
            AirProtocol::EPCGlobalClass1Gen2 => 1,
            AirProtocol::Reserved => 2,
        }
    }

    open spec fn variant(value: u32) -> Option<AirProtocol> {
        if value == 0 {
            Some(AirProtocol::UnspecifiedAirProtocol)
        } else if value == 1 {
            Some(AirProtocol::EPCGlobalClass1Gen2)
        } else if value == 2 {
            Some(AirProtocol::Reserved)
        } else {
            None
        }
    }

    proof fn lemma_variant_of_value(&self) {
    }

    proof fn lemma_value_of_variant(value: u32) {
    }

    fn from_value(value: u32) -> (r: Result<AirProtocol, Error>) {
        if value == 0 {
            Ok(AirProtocol::UnspecifiedAirProtocol)
        } else if value == 1 {
            Ok(AirProtocol::EPCGlobalClass1Gen2)
        } else if value == 2 {
            Ok(AirProtocol::Reserved)
        } else {
            Err(Error::InvalidVariant(value))
        }
    }

    fn to_value<T: Bits>(&self) -> (v: T) {
        T::from_bits(
            match self {
                AirProtocol::UnspecifiedAirProtocol => 0,
                AirProtocol::EPCGlobalClass1Gen2 => 1,
                AirProtocol::Reserved => 2,
            },
        )
    }
}

/// Which part of its configuration a client asks a reader for.
#[allow(non_camel_case_types)]
#[derive(Copy, Clone, PartialEq, Eq, Debug, Structural)]
pub enum ConfigRequestedData {
    All,
    GeneralDeviceCapabilities,
    LLRPCapabilities,
    RegulatoryCapabilities,
    AirProtocolLLRPCapabilities,
}

impl LLRPEnumeration for ConfigRequestedData {
    open spec fn value(&self) -> u32 {
        match self {
            ConfigRequestedData::All => 0,
            ConfigRequestedData::GeneralDeviceCapabilities => 1,
            ConfigRequestedData::LLRPCapabilities => 2,
            ConfigRequestedData::RegulatoryCapabilities => 3,
            ConfigRequestedData::AirProtocolLLRPCapabilities => 4,
        }
    }

    open spec fn variant(value: u32) -> Option<ConfigRequestedData> {
        if value == 0 {
            Some(ConfigRequestedData::All)
        } else if value == 1 {
            Some(ConfigRequestedData::GeneralDeviceCapabilities)
        } else if value == 2 {
            Some(ConfigRequestedData::LLRPCapabilities)
        } else if value == 3 {
            Some(ConfigRequestedData::RegulatoryCapabilities)
        } else if value == 4 {
            Some(ConfigRequestedData::AirProtocolLLRPCapabilities)
        } else {
            None
        }
    }

    proof fn lemma_variant_of_value(&self) {
    }

    proof fn lemma_value_of_variant(value: u32) {
    }

    fn from_value(value: u32) -> (r: Result<ConfigRequestedData, Error>) {
        if value == 0 {
            Ok(ConfigRequestedData::All)
        } else if value == 1 {
            Ok(ConfigRequestedData::GeneralDeviceCapabilities)
        } else if value == 2 {
            Ok(ConfigRequestedData::LLRPCapabilities)
        } else if value == 3 {
            Ok(ConfigRequestedData::RegulatoryCapabilities)
        } else if value == 4 {
            Ok(ConfigRequestedData::AirProtocolLLRPCapabilities)
        } else {
            Err(Error::InvalidVariant(value))
        }
    }

    fn to_value<T: Bits>(&self) -> (v: T) {
        T::from_bits(
            match self {
                ConfigRequestedData::All => 0,
                ConfigRequestedData::GeneralDeviceCapabilities => 1,
                ConfigRequestedData::LLRPCapabilities => 2,
                ConfigRequestedData::RegulatoryCapabilities => 3,
                ConfigRequestedData::AirProtocolLLRPCapabilities => 4,
            },
        )
    }
}

} // verus!
