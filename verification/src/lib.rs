//! LLRP, the Low Level Reader Protocol between RFID readers and their
//! clients: the codec for its binary wire format, the messages and
//! parameters with their codecs, and the compiler that turns the protocol's
//! XML description into the source of such types.
//!
//! Every decoder is specified as a function from what is left to read (the
//! bytes ahead and the bits of a byte that no field has claimed yet) to a
//! value and what is left behind it, or to an error; every encoder as a
//! function on what has been written. The contracts of the executable code
//! say that it computes these functions. On top of them stand the laws of
//! the format: what was written is read back, a length field counts its
//! parameter, a body is used up, an absent option takes nothing, a run of
//! parameters ends at the first other header.
//!
//! - [`decoder`], [`encoder`], [`bits`], [`wire`]: the codec runtime.
//! - [`value`], [`primitives`]: what can travel, and the containers.
//! - [`enumerations`], [`parameters`], [`messages`]: the protocol's types.
//! - [`binary`]: the envelope around a message.
//! - [`laws`]: properties of the format over all inputs.
//! - [`llrp_def`], [`repr`], [`codegen`]: the schema compiler.

pub mod error;
pub mod wire;
pub mod bits;
pub mod decoder;
pub mod encoder;
pub mod value;
pub mod primitives;
pub mod enumerations;
pub mod parameters;
pub mod messages;
pub mod laws;
pub mod bitstream;
pub mod binary;
pub mod slices;
pub mod text;
pub mod llrp_def;
pub mod repr;
pub mod codegen;

pub use crate::binary::{read_message, write_message, BinaryMessage};
pub use crate::bits::BitContainer;
pub use crate::decoder::{Decoder, ParameterType};
pub use crate::encoder::Encoder;
pub use crate::error::Error;
pub use crate::value::{BitArray, Bits, LLRPEnumeration, LLRPMessage, LLRPValue, TlvParameter};
