//! The envelope: the ten-byte header around the payload of a message.

use vstd::prelude::*;
use byteorder::ByteOrder;
use crate::encoder::{append_bytes, Encoder};
use crate::error::{Error, IoErrorKind};
use crate::messages::Message;
use crate::value::LLRPMessage;
use crate::wire::{be_bytes, be_uint, lemma_pow256_values};

verus! {

/// The size of the envelope's header: two bytes of version and type, four
/// of length, four of message id.
pub const LLRP_HEADER_LENGTH: usize = 10;

/// A message as the envelope carries it: the header's fields and the payload.
#[derive(Debug, Clone)]
pub struct BinaryMessage {
    pub ver: u8,
    pub message_type: u16,
    pub id: u32,
    pub value: Vec<u8>,
}

/// The model of a `BinaryMessage`.
pub struct BinaryMessageView {
    pub ver: u8,
    pub message_type: u16,
    pub id: u32,
    pub value: Seq<u8>,
}

impl DeepView for BinaryMessage {
    type V = BinaryMessageView;

    open spec fn deep_view(&self) -> BinaryMessageView {
        BinaryMessageView {
            ver: self.ver,
            message_type: self.message_type,
            id: self.id,
            value: self.value@,
        }
    }
}

/// The fields of an envelope header.
#[derive(Debug, Clone, Copy, PartialEq, Eq, Structural)]
pub struct MessageHeader {
    /// The protocol version, three bits.
    pub ver: u8,
    /// The message type, ten bits.
    pub message_type: u16,
    /// The length of the whole envelope, header included.
    pub length: u32,
    pub id: u32,
}

/// `byteorder::BigEndian::read_u16`: the number that the first two bytes of
/// `buf` spell, most significant first. It panics on a shorter `buf`.
#[verifier::external_body]
fn be_read_u16(buf: &[u8]) -> (n: u16)
    requires
        buf@.len() >= 2,
    ensures
        n == be_uint(buf@.take(2)),
{
    byteorder::BigEndian::read_u16(buf)
}

/// `byteorder::BigEndian::read_u32`: the number that the first four bytes
/// of `buf` spell, most significant first. It panics on a shorter `buf`.
#[verifier::external_body]
fn be_read_u32(buf: &[u8]) -> (n: u32)
    requires
        buf@.len() >= 4,
    ensures
        n == be_uint(buf@.take(4)),
{
    byteorder::BigEndian::read_u32(buf)
}

/// The header at the front of `bytes`. The fields are read in order, and the
/// first that fails decides: the data may end before the length, the length
/// may be below the header's own size, the data may end before the id.
pub open spec fn parse_header(bytes: Seq<u8>) -> Result<MessageHeader, Error> {
    if bytes.len() < 6 {
        Err(Error::Io(IoErrorKind::UnexpectedEof))
    } else if be_uint(bytes.subrange(2, 6)) < LLRP_HEADER_LENGTH {
        Err(Error::Io(IoErrorKind::InvalidData))
    } else if bytes.len() < 10 {
        Err(Error::Io(IoErrorKind::UnexpectedEof))
    } else {
        let prefix = be_uint(bytes.subrange(0, 2));
        Ok(
            MessageHeader {
                ver: ((prefix / 1024) % 8) as u8,
                message_type: (prefix % 1024) as u16,
                length: be_uint(bytes.subrange(2, 6)) as u32,
                id: be_uint(bytes.subrange(6, 10)) as u32,
            },
        )
    }
}

/// The envelope at the front of `bytes` and the bytes behind it.
pub open spec fn parse_message(bytes: Seq<u8>) -> Result<(BinaryMessageView, Seq<u8>), Error> {
    match parse_header(bytes) {
        Err(e) => Err(e),
        Ok(header) => if bytes.len() < header.length {
            Err(Error::Io(IoErrorKind::UnexpectedEof))
        } else {
            Ok(
                (
                    BinaryMessageView {
                        ver: header.ver,
                        message_type: header.message_type,
                        id: header.id,
                        value: bytes.subrange(LLRP_HEADER_LENGTH as int, header.length as int),
                    },
                    bytes.skip(header.length as int),
                ),
            )
        },
    }
}

/// The bytes of the envelope around `message`: version and type in two
/// bytes, the length of everything in four, the id in four, the payload.
/// Version and type are cut to their three and ten bits, the length to 32.
pub open spec fn emit_message(message: BinaryMessageView) -> Seq<u8> {
    be_bytes(((message.ver % 8) * 1024 + message.message_type % 1024) as nat, 2) + be_bytes(
        ((message.value.len() + LLRP_HEADER_LENGTH) % 0x1_0000_0000) as nat,
        4,
    ) + be_bytes(message.id as nat, 4) + message.value
}

/// Reads the header of an envelope.
pub fn read_header(bytes: &[u8]) -> (r: Result<MessageHeader, Error>)
    ensures
        r == parse_header(bytes@),
{
    if bytes.len() < 6 {
        return Err(Error::Io(IoErrorKind::UnexpectedEof));
    }
    proof {
        lemma_pow256_values();
        assert(bytes@.take(2) =~= bytes@.subrange(0, 2));
        assert(bytes@.subrange(2, bytes@.len() as int).take(4) =~= bytes@.subrange(2, 6));
        crate::wire::lemma_be_uint_bound(bytes@.subrange(0, 2));
    }
    let prefix = be_read_u16(bytes);
    let length = be_read_u32(vstd::slice::slice_subrange(bytes, 2, bytes.len()));
    if length < 10 {
        return Err(Error::Io(IoErrorKind::InvalidData));
    }
    if bytes.len() < 10 {
        return Err(Error::Io(IoErrorKind::UnexpectedEof));
    }
    proof {
        assert(bytes@.subrange(6, bytes@.len() as int).take(4) =~= bytes@.subrange(6, 10));
    }
    let id = be_read_u32(vstd::slice::slice_subrange(bytes, 6, bytes.len()));
    Ok(MessageHeader { ver: ((prefix / 1024) % 8) as u8, message_type: prefix % 1024, length, id })
}

/// Reads one envelope from the front of `bytes`; gives it and the bytes behind it.
pub fn read_message(bytes: &[u8]) -> (r: Result<(BinaryMessage, &[u8]), Error>)
    ensures
        match parse_message(bytes@) {
            Ok((m, rest)) => r is Ok && r->Ok_0.0.deep_view() == m && r->Ok_0.1@ == rest,
            Err(e) => r == Err::<(BinaryMessage, &[u8]), Error>(e),
        },
{
    let header = read_header(bytes)?;
    proof {
        lemma_pow256_values();
        crate::wire::lemma_be_uint_bound(bytes@.subrange(2, 6));
    }
    if (bytes.len() as u64) < header.length as u64 {
        return Err(Error::Io(IoErrorKind::UnexpectedEof));
    }
    let end = header.length as usize;
    let value = vstd::slice::slice_to_vec(vstd::slice::slice_subrange(bytes, LLRP_HEADER_LENGTH, end));
    let rest = vstd::slice::slice_subrange(bytes, end, bytes.len());
    Ok((BinaryMessage { ver: header.ver, message_type: header.message_type, id: header.id, value }, rest))
}

/// Appends the envelope around `message` to `buffer`.
pub fn write_message(buffer: &mut Vec<u8>, message: &BinaryMessage)
    ensures
        final(buffer)@ == old(buffer)@ + emit_message(message.deep_view()),
{
    let mut encoder = Encoder::new(Vec::new());
    let prefix: u16 = ((message.ver % 8) as u16) * 1024 + message.message_type % 1024;
    encoder.write_uint(prefix as u64, 2);
    let length: u64 = ((message.value.len() as u64) % 0x1_0000_0000 + 10) % 0x1_0000_0000;
    encoder.write_uint(length, 4);
    encoder.write_uint(message.id as u64, 4);
    encoder.write_bytes(message.value.as_slice());
    append_bytes(buffer, encoder.written());
    assert(final(buffer)@ =~= old(buffer)@ + emit_message(message.deep_view()));
}

impl BinaryMessage {
    /// The envelope of a typed message, under the message id `id` and with
    /// protocol version 1.
    pub fn from_message<T: LLRPMessage>(id: u32, message: T) -> (r: Result<BinaryMessage, Error>)
        ensures
            r is Ok,
            r->Ok_0.deep_view() == (BinaryMessageView {
                ver: 1,
                message_type: T::ID,
                id,
                value: T::emit(message.deep_view()),
            }),
    {
        let mut buffer: Vec<u8> = Vec::new();
        message.encode(&mut buffer);
        assert(buffer@ =~= T::emit(message.deep_view()));
        Ok(BinaryMessage { ver: 1, message_type: message.id(), id, value: buffer })
    }

    /// The payload read as the message `T`, whatever type the envelope names.
    pub fn to_message<T: LLRPMessage>(&self) -> (r: Result<T, Error>)
        ensures
            match T::parse(self.deep_view().value) {
                Ok((v, _)) => r is Ok && r->Ok_0.deep_view() == v,
                Err(e) => r == Err::<T, Error>(e),
            },
    {
        match T::decode(self.value.as_slice()) {
            Err(e) => Err(e),
            Ok((message, _)) => Ok(message),
        }
    }

    /// The envelope of any message, under the message id `id` and with
    /// protocol version 1.
    pub fn from_dynamic_message(id: u32, message: &Message) -> (r: Result<BinaryMessage, Error>)
        ensures
            r is Ok,
            r->Ok_0.deep_view() == (BinaryMessageView {
                ver: 1,
                message_type: Message::type_num(message.deep_view()),
                id,
                value: Message::emit(message.deep_view()),
            }),
    {
        let mut buffer: Vec<u8> = Vec::new();
        message.encode(&mut buffer);
        assert(buffer@ =~= Message::emit(message.deep_view()));
        Ok(BinaryMessage { ver: 1, message_type: message.message_type(), id, value: buffer })
    }

    /// The payload read as the message that the envelope's type names.
    pub fn to_dynamic_message(&self) -> (r: Result<Message, Error>)
        ensures
            match Message::parse(self.message_type as u32, self.deep_view().value) {
                Ok(v) => r is Ok && r->Ok_0.deep_view() == v,
                Err(e) => r == Err::<Message, Error>(e),
            },
    {
        Message::decode(self.message_type as u32, self.value.as_slice())
    }
}

} // verus!
