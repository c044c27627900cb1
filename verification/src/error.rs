//! What can go wrong while decoding.

use vstd::prelude::*;
use crate::text::{append_decimal, decimal};

verus! {

/// The kinds of host I/O failure the codec can surface.
#[derive(Debug, Clone, Copy, PartialEq, Eq, Structural)]
pub enum IoErrorKind {
    /// The bytes read are not what the format allows (text that is not UTF-8,
    /// an envelope length below the header size).
    InvalidData,
    /// A codec failure that was handed to the host as an I/O error.
    InvalidInput,
    /// The source ended before the announced number of bytes came.
    UnexpectedEof,
    /// Any other failure of the host.
    Other,
}

/// Everything that can go wrong while decoding.
#[derive(Debug, Clone, Copy, PartialEq, Eq, Structural)]
pub enum Error {
    /// A failure of the host's I/O layer, reduced to its kind.
    Io(IoErrorKind),
    /// The buffer ended inside a field or header.
    InsufficientData { needed: usize, remaining: usize },
    /// A parameter ended while the bit accumulator still held bits.
    TrailingBits(usize),
    /// A TLV body was longer than its fields.
    TrailingBytes(usize),
    /// A TLV length below the header size or beyond the enclosing scope.
    TlvLengthInvalid(u16),
    /// The header found is not the one required; carries the type found.
    InvalidType(u16),
    /// A TV type outside the seven bits of a TV header. The codec itself
    /// refuses a header it did not ask for with `InvalidType`; this kind is
    /// for the types that are built on it.
    InvalidTvType(u8),
    /// An enumeration value outside the table.
    InvalidVariant(u32),
    /// A message type the dispatcher does not know.
    UnknownMessageId(u32),
}

impl IoErrorKind {
    /// The words for the kind of failure.
    pub open spec fn describe(self) -> Seq<char> {
        match self {
            IoErrorKind::InvalidData => "invalid data"@,
            IoErrorKind::InvalidInput => "invalid input"@,
            IoErrorKind::UnexpectedEof => "unexpected end of file"@,
            IoErrorKind::Other => "other error"@,
        }
    }
}

impl Error {
    /// The message for the error, in words and decimal numbers.
    pub open spec fn describe(self) -> Seq<char> {
        match self {
            Error::Io(kind) => kind.describe(),
            Error::InsufficientData { needed, remaining } => "Insufficient data: "@ + decimal(
                needed as nat,
            ) + " bytes needed, but only "@ + decimal(remaining as nat) + " remaining"@,
            Error::TrailingBits(len) => decimal(len as nat) + " trailing bits"@,
            Error::TrailingBytes(len) => decimal(len as nat) + " trailing bytes"@,
            Error::TlvLengthInvalid(len) => "Invalid length for TLV parameter: "@ + decimal(
                len as nat,
            ),
            Error::InvalidType(type_id) => "Invalid type num: "@ + decimal(type_id as nat),
            Error::InvalidTvType(tv_id) => "Invalid TV type num: "@ + decimal(tv_id as nat),
            Error::InvalidVariant(value) => "Invalid variant: "@ + decimal(value as nat),
            Error::UnknownMessageId(id) => "Unknown message id: "@ + decimal(id as nat),
        }
    }

    /// The message for the error.
    pub fn message(&self) -> (text: String)
        ensures
            text@ == self.describe(),
    {
        match self {
            Error::Io(kind) => match kind {
                IoErrorKind::InvalidData => String::from_str("invalid data"),
                IoErrorKind::InvalidInput => String::from_str("invalid input"),
                IoErrorKind::UnexpectedEof => String::from_str("unexpected end of file"),
                IoErrorKind::Other => String::from_str("other error"),
            },
            Error::InsufficientData { needed, remaining } => {
                let mut text = String::from_str("Insufficient data: ");
                append_decimal(&mut text, *needed as u64);
                text.append(" bytes needed, but only ");
                append_decimal(&mut text, *remaining as u64);
                text.append(" remaining");
                text
            },
            Error::TrailingBits(len) => {
                let mut text = String::new();
                append_decimal(&mut text, *len as u64);
                assert(text@ =~= decimal(*len as nat));
                text.append(" trailing bits");
                text
            },
            Error::TrailingBytes(len) => {
                let mut text = String::new();
                append_decimal(&mut text, *len as u64);
                assert(text@ =~= decimal(*len as nat));
                text.append(" trailing bytes");
                text
            },
            Error::TlvLengthInvalid(len) => {
                let mut text = String::from_str("Invalid length for TLV parameter: ");
                append_decimal(&mut text, *len as u64);
                text
            },
            Error::InvalidType(type_id) => {
                let mut text = String::from_str("Invalid type num: ");
                append_decimal(&mut text, *type_id as u64);
                text
            },
            Error::InvalidTvType(tv_id) => {
                let mut text = String::from_str("Invalid TV type num: ");
                append_decimal(&mut text, *tv_id as u64);
                text
            },
            Error::InvalidVariant(value) => {
                let mut text = String::from_str("Invalid variant: ");
                append_decimal(&mut text, *value as u64);
                text
            },
            Error::UnknownMessageId(id) => {
                let mut text = String::from_str("Unknown message id: ");
                append_decimal(&mut text, *id as u64);
                text
            },
        }
    }
}

} // verus!
