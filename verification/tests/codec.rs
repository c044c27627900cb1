use llrp::bits::BitContainer;
use llrp::binary::{read_header, read_message, write_message, BinaryMessage};
use llrp::decoder::{Decoder, ParameterType};
use llrp::encoder::Encoder;
use llrp::enumerations::{AirProtocol, StatusCode};
use llrp::error::{Error, IoErrorKind};
use llrp::messages::Message;
use llrp::parameters::{
    AccessReportSpec, C1G2Kill, C1G2Read, CustomParameter, EpcData, EpcDataParameter, GPITriggerValue,
    OpSpec, RfReceiver, UTCTimestamp,
};
use llrp::slices::{
    get_tlv_message_type, parse_tlv_header, split_at_checked, split_with_u16_length, validate_consumed,
};
use llrp::value::{BitArray, Bits, LLRPEnumeration, LLRPValue, TlvParameter};

#[test]
fn read_bytes_advances_and_fails_when_short() {
    let data: &[u8] = &[1, 2, 3];
    let mut decoder = Decoder::new(data);
    assert_eq!(decoder.remaining(), 3);
    assert_eq!(decoder.read_bytes(2).unwrap(), &[1, 2]);
    assert_eq!(decoder.remaining(), 1);
    assert!(!decoder.is_empty());
    assert_eq!(
        decoder.read_bytes(2).unwrap_err(),
        Error::InsufficientData { needed: 2, remaining: 1 }
    );
    assert_eq!(decoder.read_bytes(1).unwrap(), &[3]);
    assert!(decoder.is_empty());
}

#[test]
fn primitives_are_big_endian() {
    let data: &[u8] = &[
        0x12, 0x34, 0xff, 0xfe, 0x80, 0x01, 0x02, 0x03, 0x04, 0xff, 0xff, 0xff, 0xff, 0xff, 0xff,
        0xff, 0xfd, 0x7f,
    ];
    let mut decoder = Decoder::new(data);
    assert_eq!(decoder.read::<u16>().unwrap(), 0x1234);
    assert_eq!(decoder.read::<i16>().unwrap(), -2);
    assert_eq!(decoder.read::<i8>().unwrap(), -128);
    assert_eq!(decoder.read::<u32>().unwrap(), 0x0102_0304);
    assert_eq!(decoder.read::<i64>().unwrap(), -3);
    assert_eq!(decoder.read::<u8>().unwrap(), 0x7f);
    assert_eq!(decoder.read::<u8>().unwrap_err(), Error::InsufficientData { needed: 1, remaining: 0 });
}

#[test]
fn primitives_are_written_big_endian() {
    let mut encoder = Encoder::new(vec![0xaa]);
    encoder.write(&0x1234u16);
    encoder.write(&-2i16);
    encoder.write(&-128i8);
    encoder.write(&0x0102_0304u32);
    encoder.write(&-3i64);
    encoder.write(&0x0102_0304_0506_0708u64);
    encoder.write(&i32::MIN);
    assert_eq!(
        encoder.finish(),
        vec![
            0xaa, 0x12, 0x34, 0xff, 0xfe, 0x80, 0x01, 0x02, 0x03, 0x04, 0xff, 0xff, 0xff, 0xff, 0xff,
            0xff, 0xff, 0xfd, 0x01, 0x02, 0x03, 0x04, 0x05, 0x06, 0x07, 0x08, 0x80, 0x00, 0x00, 0x00,
        ]
    );
}

/// Bits come most significant first and may straddle a byte boundary.
#[test]
fn read_bits_msb_first_across_bytes() {
    let data: &[u8] = &[0b1010_1100, 0b0101_1111, 0x42];
    let mut decoder = Decoder::new(data);
    assert_eq!(decoder.read_bits::<bool>(1).unwrap(), true);
    assert_eq!(decoder.read_bits::<u8>(2).unwrap(), 0b01);
    assert_eq!(decoder.read_bits::<u16>(10).unwrap(), 0b01_1000_1011);
    assert_eq!(decoder.validate_consumed().unwrap_err(), Error::TrailingBytes(1));
    assert_eq!(decoder.read_bits::<u8>(3).unwrap(), 0b111);
    assert_eq!(decoder.read::<u8>().unwrap(), 0x42);
    assert_eq!(decoder.validate_consumed(), Ok(()));
}

#[test]
fn trailing_bits_are_refused() {
    let data: &[u8] = &[0xff];
    let mut decoder = Decoder::new(data);
    assert_eq!(decoder.read_raw_bits(3).unwrap(), 7);
    assert_eq!(decoder.validate_consumed().unwrap_err(), Error::TrailingBits(5));
    assert_eq!(decoder.read_raw_bits(5).unwrap(), 31);
    assert_eq!(decoder.validate_consumed(), Ok(()));
    assert_eq!(
        decoder.read_raw_bits(1).unwrap_err(),
        Error::InsufficientData { needed: 1, remaining: 0 }
    );
}

/// Whole bytes leave the encoder high bits first.
#[test]
fn write_bits_msb_first_across_bytes() {
    let mut encoder = Encoder::new(vec![]);
    encoder.write_bits(&true, 1);
    encoder.write_bits(&0b01u8, 2);
    encoder.write_bits(&0b01_1000_1011u16, 10);
    encoder.write_bits(&0b111u8, 3);
    assert_eq!(encoder.written(), &[0b1010_1100, 0b0101_1111]);
    // twelve bits, then four: two whole bytes in the order of the bits
    encoder.write_bits(&0xabcu16, 12);
    encoder.write_bits(&0xdu8, 4);
    assert_eq!(encoder.finish(), vec![0b1010_1100, 0b0101_1111, 0xab, 0xcd]);
}

/// Only the low bits of a value are written.
#[test]
fn write_bits_masks_the_value() {
    let mut encoder = Encoder::new(vec![]);
    encoder.write_raw_bits(0xffff_fff5, 4);
    encoder.write_raw_bits(0, 4);
    assert_eq!(encoder.finish(), vec![0x50]);
}

#[test]
fn bit_container_reads_and_writes() {
    let mut bits = BitContainer::default();
    let data: &[u8] = &[0b1100_0000, 0x01];
    let (value, rest) = bits.read_bits(data, 2).unwrap();
    assert_eq!(value, 0b11);
    assert_eq!(rest, &[0x01]);
    assert_eq!(bits.valid_bits(), 6);
    assert_eq!(bits.bits(), 0);
    let (value, rest) = bits.read_bits(rest, 14).unwrap();
    assert_eq!(value, 1);
    assert!(rest.is_empty());
    assert_eq!(bits.valid_bits(), 0);
    let failed = bits.read_bits(rest, 1);
    assert_eq!(failed.unwrap_err(), Error::InsufficientData { needed: 1, remaining: 0 });

    let mut out = vec![];
    let mut bits = BitContainer::new();
    bits.write_bits(&mut out, 0b101, 3);
    assert!(out.is_empty());
    assert_eq!(bits.valid_bits(), 3);
    assert_eq!(bits.bits(), 0b101);
    bits.write_bits(&mut out, 0b1_0000, 5);
    assert_eq!(out, vec![0b1011_0000]);
    assert_eq!(bits.valid_bits(), 0);
}

#[test]
fn bits_conversions() {
    assert_eq!(<bool as Bits>::from_bits(3), true);
    assert_eq!(<bool as Bits>::from_bits(2), false);
    assert_eq!(true.to_bits(), 1);
    assert_eq!(false.to_bits(), 0);
    assert_eq!(<u8 as Bits>::from_bits(0x1ff), 0xff);
    assert_eq!(<u16 as Bits>::from_bits(0x1_2345), 0x2345);
    assert_eq!(<u32 as Bits>::from_bits(0x1_2345), 0x1_2345);
    assert_eq!(0x12u8.to_bits(), 0x12);
    assert_eq!(0x1234u16.to_bits(), 0x1234);
}

#[test]
fn peek_tells_tv_from_tlv() {
    // a TV header needs one byte only
    let tv: &[u8] = &[0x8d];
    assert_eq!(Decoder::new(tv).peek_param_type(), Ok(ParameterType::Tv(13)));
    assert_eq!(Decoder::new(tv).get_message_type(), Ok(13));
    // the six reserved bits of a TLV header are ignored
    let tlv: &[u8] = &[0xfd, 0x1f];
    let tlv = &tlv[..];
    assert_eq!(Decoder::new(&[0x7d, 0x1f]).peek_param_type(), Ok(ParameterType::Tlv(0x11f)));
    assert_eq!(Decoder::new(tlv).peek_param_type(), Ok(ParameterType::Tv(0x7d)));
    assert_eq!(
        Decoder::new(&[0x01]).peek_param_type(),
        Err(Error::InsufficientData { needed: 2, remaining: 1 })
    );
    assert_eq!(
        Decoder::new(&[]).peek_param_type(),
        Err(Error::InsufficientData { needed: 2, remaining: 0 })
    );
    assert_eq!(ParameterType::Tv(5).as_u16(), 5);
    assert_eq!(ParameterType::Tlv(500).as_u16(), 500);
}

#[test]
fn check_param_type_consumes_the_header() {
    let data: &[u8] = &[0x81, 0x00, 0xb1, 0x00];
    let mut decoder = Decoder::new(data);
    assert_eq!(decoder.check_param_type(2), Err(Error::InvalidType(1)));
    assert_eq!(decoder.check_param_type(1), Ok(()));
    assert_eq!(decoder.remaining(), 3);
    assert_eq!(decoder.check_param_type(177), Ok(()));
    assert_eq!(decoder.remaining(), 1);
}

#[test]
fn read_tv_checks_the_header() {
    let data: &[u8] = &[0x81, 0x00, 0x2a];
    assert_eq!(Decoder::new(data).read_tv::<u16>(1), Ok(42));
    assert_eq!(Decoder::new(data).read_tv::<u16>(2), Err(Error::InvalidType(1)));
    let tlv: &[u8] = &[0x00, 0x80, 0x00, 0x04];
    assert_eq!(Decoder::new(tlv).read_tv::<u16>(1), Err(Error::InvalidType(128)));
    // an optional TV parameter with another header is absent, and nothing is consumed
    let mut decoder = Decoder::new(data);
    assert_eq!(decoder.read_tv::<Option<u16>>(2), Ok(None));
    assert_eq!(decoder.remaining(), 3);
    assert_eq!(decoder.read_tv::<Option<u16>>(1), Ok(Some(42)));
    assert_eq!(decoder.remaining(), 0);
    assert_eq!(decoder.read_tv::<Option<u16>>(1), Ok(None));
}

#[test]
fn write_tv_puts_the_header_first() {
    let mut encoder = Encoder::new(vec![]);
    encoder.write_tv(&Some(42u16), 1);
    encoder.write_tv(&None::<u16>, 2);
    encoder.write_tv(&7u8, 6);
    encoder.write_param_type(ParameterType::Tlv(287));
    assert_eq!(encoder.finish(), vec![0x81, 0x00, 0x2a, 0x86, 0x07, 0x01, 0x1f]);
}

#[test]
fn tlv_param_frames_the_body() {
    let data: &[u8] = &[0x00, 0xdf, 0x00, 0x06, 0x12, 0x34, 0x99];
    let mut decoder = Decoder::new(data);
    let value = decoder.tlv_param(223, |d: &mut Decoder| d.read::<u16>()).unwrap();
    assert_eq!(value, 0x1234);
    assert_eq!(decoder.rest(), &[0x99]);

    assert_eq!(Decoder::new(data).read::<RfReceiver>(), Ok(RfReceiver { receiver_sensitivity: 0x1234 }));
}

#[test]
fn tlv_param_failures() {
    // another type
    let data: &[u8] = &[0x00, 0xdf, 0x00, 0x06, 0x12, 0x34];
    assert_eq!(Decoder::new(data).read::<AccessReportSpec>(), Err(Error::InvalidType(223)));
    // a TV header where a TLV header is due
    assert_eq!(Decoder::new(&[0x81, 0, 0, 0]).read::<RfReceiver>(), Err(Error::InvalidType(1)));
    // the length is below the size of the header
    let short: &[u8] = &[0x00, 0xdf, 0x00, 0x03, 0x12, 0x34];
    assert_eq!(Decoder::new(short).read::<RfReceiver>(), Err(Error::TlvLengthInvalid(3)));
    // the length reaches beyond the data
    let long: &[u8] = &[0x00, 0xdf, 0x00, 0x07, 0x12, 0x34];
    assert_eq!(Decoder::new(long).read::<RfReceiver>(), Err(Error::TlvLengthInvalid(7)));
    // the data end inside the header
    let cut: &[u8] = &[0x00, 0xdf, 0x00];
    assert_eq!(
        Decoder::new(cut).read::<RfReceiver>(),
        Err(Error::InsufficientData { needed: 2, remaining: 1 })
    );
    // the body is longer than the fields
    let padded: &[u8] = &[0x00, 0xdf, 0x00, 0x07, 0x12, 0x34, 0x00];
    assert_eq!(Decoder::new(padded).read::<RfReceiver>(), Err(Error::TrailingBytes(1)));
    // the body is shorter than the fields
    let starved: &[u8] = &[0x00, 0xdf, 0x00, 0x05, 0x12, 0x34];
    assert_eq!(
        Decoder::new(starved).read::<RfReceiver>(),
        Err(Error::InsufficientData { needed: 2, remaining: 1 })
    );
    // the body ends inside a byte
    let mut decoder = Decoder::new(&[0x00, 0xdf, 0x00, 0x05, 0xff]);
    let bits = decoder.tlv_param(223, |d: &mut Decoder| d.read_raw_bits(3));
    assert_eq!(bits, Err(Error::TrailingBits(5)));
}

/// The length that is patched in counts the header and the body.
#[test]
fn encoder_tlv_param_patches_the_length() {
    let mut encoder = Encoder::new(vec![0xee]);
    encoder.tlv_param(128, |e: &mut Encoder| e.write(&0x0102_0304_0506_0708u64));
    assert_eq!(
        encoder.written(),
        &[0xee, 0x00, 0x80, 0x00, 0x0c, 0x01, 0x02, 0x03, 0x04, 0x05, 0x06, 0x07, 0x08]
    );
    let start = encoder.tlv_begin(239);
    assert_eq!(start, 13);
    encoder.write(&5u8);
    encoder.tlv_end(start);
    assert_eq!(&encoder.written()[13..], &[0x00, 0xef, 0x00, 0x05, 0x05]);

    let mut encoder = Encoder::new(vec![]);
    encoder.write(&UTCTimestamp { microseconds: 1557458516414125 });
    let bytes = encoder.finish();
    assert_eq!(bytes, vec![0x00, 0x80, 0x00, 0x0c, 0x00, 0x05, 0x88, 0x80, 0x11, 0x9f, 0x8e, 0xad]);
    assert_eq!(((bytes[2] as usize) << 8) | bytes[3] as usize, bytes.len());
}

#[test]
fn arrays_carry_their_count() {
    let data: &[u8] = &[0x00, 0x02, 0x00, 0x01, 0x00, 0x02, 0x09];
    let mut decoder = Decoder::new(data);
    assert_eq!(decoder.array(|d: &mut Decoder| d.read::<u16>()), Ok(vec![1, 2]));
    assert_eq!(decoder.remaining(), 1);
    assert_eq!(Decoder::new(&[0x00, 0x00]).array(|d: &mut Decoder| d.read::<u16>()), Ok(vec![]));
    assert_eq!(
        Decoder::new(&[0x00, 0x02, 0x00, 0x01]).array(|d: &mut Decoder| d.read::<u16>()),
        Err(Error::InsufficientData { needed: 2, remaining: 0 })
    );
    let mut encoder = Encoder::new(vec![]);
    encoder.array(&[1u16, 2], |e: &mut Encoder, x: &u16| e.write(x));
    encoder.array(&[], |e: &mut Encoder, x: &u8| e.write(x));
    assert_eq!(encoder.finish(), vec![0x00, 0x02, 0x00, 0x01, 0x00, 0x02, 0x00, 0x00]);
}

#[test]
fn strings_are_length_prefixed_utf8() {
    let data: &[u8] = &[0x00, 0x05, 0x67, 0x72, 0xc3, 0xbc, 0x6e, 0x21];
    let mut decoder = Decoder::new(data);
    assert_eq!(decoder.read::<String>().unwrap(), "grün");
    assert_eq!(decoder.remaining(), 1);
    // a lone continuation byte is no UTF-8
    assert_eq!(
        Decoder::new(&[0x00, 0x01, 0x80]).read::<String>(),
        Err(Error::Io(IoErrorKind::InvalidData))
    );
    assert_eq!(
        Decoder::new(&[0x00, 0x02, 0x41]).read::<String>(),
        Err(Error::InsufficientData { needed: 2, remaining: 1 })
    );
    let mut encoder = Encoder::new(vec![]);
    encoder.write(&String::from("grün"));
    assert_eq!(encoder.finish(), vec![0x00, 0x05, 0x67, 0x72, 0xc3, 0xbc, 0x6e]);
}

/// A bit count that is no multiple of eight loses its last bits.
#[test]
fn bit_arrays_hold_whole_bytes() {
    let data: &[u8] = &[0x00, 0x0c, 0xab, 0xcd];
    let mut decoder = Decoder::new(data);
    assert_eq!(decoder.read::<BitArray>(), Ok(BitArray::from_bytes(vec![0xab])));
    assert_eq!(decoder.remaining(), 1);
    let mut encoder = Encoder::new(vec![]);
    encoder.write(&BitArray::from_bytes(vec![0xab, 0xcd]));
    assert_eq!(encoder.finish(), vec![0x00, 0x10, 0xab, 0xcd]);
}

#[test]
fn epc_data_in_both_forms() {
    let short: &[u8] = &[0x8d, 1, 2, 3, 4, 5, 6, 7, 8, 9, 10, 11, 12, 0xff];
    let mut decoder = Decoder::new(short);
    let epc = decoder.read::<EpcDataParameter>().unwrap();
    assert_eq!(epc, EpcDataParameter::Epc96([1, 2, 3, 4, 5, 6, 7, 8, 9, 10, 11, 12]));
    assert_eq!(epc.as_slice(), &[1, 2, 3, 4, 5, 6, 7, 8, 9, 10, 11, 12]);
    assert_eq!(decoder.remaining(), 1);
    let long: &[u8] = &[0x00, 0xf1, 0x00, 0x08, 0x00, 0x10, 0xca, 0xfe];
    let epc = Decoder::new(long).read::<EpcDataParameter>().unwrap();
    assert_eq!(epc, EpcDataParameter::EpcData(EpcData { epc: vec![0xca, 0xfe] }));
    assert_eq!(epc.as_slice(), &[0xca, 0xfe]);
    let mut encoder = Encoder::new(vec![]);
    encoder.write(&epc);
    assert_eq!(encoder.finish(), long);
    assert!(EpcDataParameter::can_decode_type(13));
    assert!(EpcDataParameter::can_decode_type(241));
    assert!(!EpcDataParameter::can_decode_type(240));
}

/// A flag is the high bit of its byte; the other seven bits are reserved.
#[test]
fn flags_take_the_high_bit() {
    let data: &[u8] = &[0x00, 0xb5, 0x00, 0x0f, 0x00, 0x03, 0x80, 0, 0, 0, 0, 0, 0, 0, 9];
    let value = Decoder::new(data).read::<GPITriggerValue>().unwrap();
    assert_eq!(value, GPITriggerValue { gpi_port_num: 3, gpi_event: true, timeout: 9 });
    let mut low = data.to_vec();
    low[6] = 0x7f;
    let value = Decoder::new(&low).read::<GPITriggerValue>().unwrap();
    assert_eq!(value.gpi_event, false);
    let mut encoder = Encoder::new(vec![]);
    encoder.write(&GPITriggerValue { gpi_port_num: 3, gpi_event: true, timeout: 9 });
    assert_eq!(encoder.finish(), data);
}

/// An optional parameter whose type the next header does not carry is
/// absent, and the decoder stays where it is.
#[test]
fn option_soaks_up_nothing() {
    let data: &[u8] = &[0x00, 0xef, 0x00, 0x05, 0x07];
    let mut decoder = Decoder::new(data);
    assert_eq!(decoder.read::<Option<RfReceiver>>(), Ok(None));
    assert_eq!(decoder.remaining(), 5);
    assert_eq!(decoder.read::<Option<AccessReportSpec>>(), Ok(Some(AccessReportSpec { trigger: 7 })));
    assert_eq!(decoder.remaining(), 0);
    assert_eq!(decoder.read::<Option<AccessReportSpec>>(), Ok(None));
    // a failure inside an accepted parameter is not swallowed
    let broken: &[u8] = &[0x00, 0xef, 0x00, 0x06, 0x07, 0x00];
    assert_eq!(Decoder::new(broken).read::<Option<AccessReportSpec>>(), Err(Error::TrailingBytes(1)));
    let mut encoder = Encoder::new(vec![]);
    encoder.write(&None::<AccessReportSpec>);
    encoder.write(&Some(AccessReportSpec { trigger: 7 }));
    assert_eq!(encoder.finish(), data);
}

/// A run takes the adjacent parameters of its type and stops at the first other header.
#[test]
fn vec_stops_at_another_type() {
    let data: &[u8] = &[
        0x00, 0xef, 0x00, 0x05, 0x01, 0x00, 0xef, 0x00, 0x05, 0x02, 0x00, 0xdf, 0x00, 0x06, 0x00,
        0x09,
    ];
    let mut decoder = Decoder::new(data);
    assert_eq!(
        decoder.read::<Vec<AccessReportSpec>>(),
        Ok(vec![AccessReportSpec { trigger: 1 }, AccessReportSpec { trigger: 2 }])
    );
    assert_eq!(decoder.remaining(), 6);
    assert_eq!(decoder.read::<Vec<AccessReportSpec>>(), Ok(vec![]));
    assert_eq!(decoder.remaining(), 6);
    assert_eq!(decoder.read::<Vec<CustomParameter>>(), Ok(vec![]));
    assert_eq!(decoder.read::<Vec<RfReceiver>>(), Ok(vec![RfReceiver { receiver_sensitivity: 9 }]));
    assert_eq!(decoder.read::<Vec<RfReceiver>>(), Ok(vec![]));
    let broken: &[u8] = &[0x00, 0xef, 0x00, 0x05, 0x01, 0x00, 0xef, 0x00, 0x09, 0x02];
    assert_eq!(
        Decoder::new(broken).read::<Vec<AccessReportSpec>>(),
        Err(Error::TlvLengthInvalid(9))
    );
}

#[test]
fn boxed_parameters_decode_like_plain_ones() {
    let data: &[u8] = &[0x00, 0xef, 0x00, 0x05, 0x07];
    let boxed = Decoder::new(data).read::<Box<AccessReportSpec>>().unwrap();
    assert_eq!(*boxed, AccessReportSpec { trigger: 7 });
    let mut encoder = Encoder::new(vec![]);
    encoder.write(&boxed);
    assert_eq!(encoder.finish(), data);
}

#[test]
fn choice_dispatches_on_the_header() {
    let data: &[u8] = &[0x01, 0x57, 0x00, 0x08, 0x00, 0x01, 0x00, 0x02];
    let op = Decoder::new(data).read::<OpSpec>().unwrap();
    assert_eq!(op, OpSpec::C1G2Kill(C1G2Kill { op_spec_id: 1, kill_password: 2 }));
    assert_eq!(OpSpec::from(C1G2Kill { op_spec_id: 1, kill_password: 2 }), op);
    assert!(OpSpec::can_decode_type(C1G2Kill::ID));
    assert!(OpSpec::can_decode_type(C1G2Read::ID));
    assert!(!OpSpec::can_decode_type(AccessReportSpec::ID));
    let other: &[u8] = &[0x00, 0xef, 0x00, 0x05, 0x07];
    assert_eq!(Decoder::new(other).read::<OpSpec>(), Err(Error::InvalidType(239)));
    let mut encoder = Encoder::new(vec![]);
    encoder.write(&op);
    assert_eq!(encoder.finish(), data);
}

/// Every variant comes back from its number, and other numbers are refused.
#[test]
fn enumerations_are_closed() {
    let all = [
        (StatusCode::M_Success, 0),
        (StatusCode::M_ParameterError, 100),
        (StatusCode::M_FieldError, 101),
        (StatusCode::M_UnexpectedParameter, 102),
        (StatusCode::M_MissingParameter, 103),
        (StatusCode::M_DuplicateParameter, 104),
        (StatusCode::M_OverflowParameter, 105),
        (StatusCode::M_OverflowField, 106),
        (StatusCode::M_UnknownParameter, 107),
        (StatusCode::M_UnknownField, 108),
        (StatusCode::M_UnsupportedMessage, 109),
        (StatusCode::M_UnsupportedVersion, 110),
        (StatusCode::M_UnsupportedParameter, 111),
        (StatusCode::M_UnexpectedMessage, 112),
        (StatusCode::P_ParameterErrorParameter, 200),
        (StatusCode::P_FieldError, 201),
        (StatusCode::P_UnexpectedParameter, 202),
        (StatusCode::P_MissingParameter, 203),
        (StatusCode::P_DuplicateParameter, 204),
        (StatusCode::P_OverflowParameter, 205),
        (StatusCode::P_OverflowField, 206),
        (StatusCode::P_UnknownParameter, 207),
        (StatusCode::P_UnknownField, 208),
        (StatusCode::P_UnsupportedParameter, 209),
        (StatusCode::A_InvalidField, 300),
        (StatusCode::A_OutOfRange, 301),
        (StatusCode::R_DeviceError, 401),
    ];
    for (variant, value) in all {
        assert_eq!(variant.to_value::<u32>(), value);
        assert_eq!(StatusCode::from_value(value), Ok(variant));
    }
    for value in 0..1000u32 {
        let known = all.iter().any(|(_, v)| *v == value);
        match StatusCode::from_value(value) {
            Ok(variant) => {
                assert!(known);
                assert_eq!(variant.to_value::<u32>(), value);
            }
            Err(e) => {
                assert!(!known);
                assert_eq!(e, Error::InvalidVariant(value));
            }
        }
    }
    assert_eq!(AirProtocol::from_value(1), Ok(AirProtocol::EPCGlobalClass1Gen2));
    assert_eq!(StatusCode::R_DeviceError.to_value::<u16>(), 401);
    // a narrower host type keeps the low bits
    assert_eq!(StatusCode::R_DeviceError.to_value::<u8>(), 145);
    assert_eq!(AirProtocol::from_value(3), Err(Error::InvalidVariant(3)));
}

#[test]
fn enumerations_on_the_wire() {
    let data: &[u8] = &[0x01, 0x2d, 0x00, 0x02, 0x01, 0x02, 0x40];
    let mut decoder = Decoder::new(data);
    assert_eq!(decoder.read_enum::<StatusCode, u16>(), Ok(StatusCode::A_OutOfRange));
    assert_eq!(
        decoder.read_enum_array::<AirProtocol, u8>(),
        Ok(vec![AirProtocol::EPCGlobalClass1Gen2, AirProtocol::Reserved])
    );
    assert_eq!(decoder.read_enum_bits::<AirProtocol>(2), Ok(AirProtocol::EPCGlobalClass1Gen2));
    assert_eq!(decoder.read_enum_bits::<AirProtocol>(6), Ok(AirProtocol::UnspecifiedAirProtocol));
    assert_eq!(Decoder::new(&[0x00, 0x01]).read_enum::<StatusCode, u16>(), Err(Error::InvalidVariant(1)));
    assert_eq!(Decoder::new(&[0xc0]).read_enum_bits::<AirProtocol>(2), Err(Error::InvalidVariant(3)));
    assert_eq!(
        Decoder::new(&[0x00, 0x01, 0x09]).read_enum_array::<AirProtocol, u8>(),
        Err(Error::InvalidVariant(9))
    );
    let mut encoder = Encoder::new(vec![]);
    encoder.write_enum::<StatusCode, u16>(&StatusCode::A_OutOfRange);
    encoder.write_enum_array::<AirProtocol, u8>(&[
        AirProtocol::EPCGlobalClass1Gen2,
        AirProtocol::Reserved,
    ]);
    encoder.write_enum_bits(&AirProtocol::EPCGlobalClass1Gen2, 2);
    encoder.write_enum_bits(&AirProtocol::UnspecifiedAirProtocol, 6);
    assert_eq!(encoder.finish(), data);
}

#[test]
fn unknown_message_id() {
    assert_eq!(Message::decode(999, &[]), Err(Error::UnknownMessageId(999)));
    // only the low sixteen bits of the type count
    assert_eq!(Message::decode(0x1_0000 + 62, &[]).unwrap().message_type(), 62);
    assert_eq!(Message::decode(0x1_0000 + 999, &[]), Err(Error::UnknownMessageId(0x1_0000 + 999)));
}

#[test]
fn envelope_header_fields() {
    let bytes: &[u8] = &[0x04, 0x3f, 0x00, 0x00, 0x00, 0x0c, 0x3a, 0xfb, 0x30, 0xa7, 0x01, 0x02, 0x03];
    let header = read_header(bytes).unwrap();
    assert_eq!(header.ver, 1);
    assert_eq!(header.message_type, 63);
    assert_eq!(header.length, 12);
    assert_eq!(header.id, 989540519);
    let (message, rest) = read_message(bytes).unwrap();
    assert_eq!(message.value, vec![0x01, 0x02]);
    assert_eq!(rest, &[0x03]);
    // the three reserved bits are ignored
    let noisy: &[u8] = &[0xe7, 0xff, 0x00, 0x00, 0x00, 0x0a, 0x00, 0x00, 0x00, 0x01];
    let header = read_header(noisy).unwrap();
    assert_eq!(header.ver, 1);
    assert_eq!(header.message_type, 1023);
}

#[test]
fn envelope_failures() {
    assert_eq!(read_header(&[0x04, 0x3f, 0x00]).unwrap_err(), Error::Io(IoErrorKind::UnexpectedEof));
    // the length is below the size of the header
    let short: &[u8] = &[0x04, 0x3f, 0x00, 0x00, 0x00, 0x09, 0x00, 0x00, 0x00, 0x01];
    assert_eq!(read_header(short).unwrap_err(), Error::Io(IoErrorKind::InvalidData));
    assert_eq!(read_header(&short[..6]).unwrap_err(), Error::Io(IoErrorKind::InvalidData));
    let cut: &[u8] = &[0x04, 0x3f, 0x00, 0x00, 0x00, 0x0a, 0x00, 0x00];
    assert_eq!(read_header(cut).unwrap_err(), Error::Io(IoErrorKind::UnexpectedEof));
    // the payload is shorter than the length says
    let starved: &[u8] = &[0x04, 0x3f, 0x00, 0x00, 0x00, 0x0c, 0x00, 0x00, 0x00, 0x01, 0xaa];
    assert_eq!(read_message(starved).unwrap_err(), Error::Io(IoErrorKind::UnexpectedEof));
}

#[test]
fn envelope_is_written_in_full() {
    let message = BinaryMessage { ver: 1, message_type: 63, id: 989540519, value: vec![0xaa, 0xbb] };
    let mut out = vec![0x99];
    write_message(&mut out, &message);
    assert_eq!(out, vec![0x99, 0x04, 0x3f, 0x00, 0x00, 0x00, 0x0c, 0x3a, 0xfb, 0x30, 0xa7, 0xaa, 0xbb]);
    // version and type are cut to their bits
    let wide = BinaryMessage { ver: 0xff, message_type: 0xffff, id: 0, value: vec![] };
    let mut out = vec![];
    write_message(&mut out, &wide);
    assert_eq!(out, vec![0x1f, 0xff, 0x00, 0x00, 0x00, 0x0a, 0x00, 0x00, 0x00, 0x00]);
}

#[test]
fn binary_message_to_typed_message() {
    let raw = BinaryMessage { ver: 1, message_type: 21, id: 5, value: vec![0, 0, 0, 9] };
    let typed: llrp::messages::DeleteRoSpec = raw.to_message().unwrap();
    assert_eq!(typed.ro_spec_id, 9);
    let any = raw.to_dynamic_message().unwrap();
    assert_eq!(any, Message::DeleteRoSpec(llrp::messages::DeleteRoSpec { ro_spec_id: 9 }));
    let failed: Result<llrp::messages::AddRoSpec, Error> = raw.to_message();
    assert_eq!(failed.unwrap_err(), Error::InvalidType(0));
}

#[test]
fn slice_helpers() {
    let data: &[u8] = &[0x00, 0x02, 0xaa, 0xbb, 0xcc];
    let (head, tail) = split_at_checked(data, 2).unwrap();
    assert_eq!(head, &[0x00, 0x02]);
    assert_eq!(tail, &[0xaa, 0xbb, 0xcc]);
    assert_eq!(split_at_checked(data, 5).unwrap().1, &[] as &[u8]);
    assert_eq!(
        split_at_checked(data, 6).unwrap_err(),
        Error::InsufficientData { needed: 6, remaining: 5 }
    );
    let (head, tail) = split_with_u16_length(data).unwrap();
    assert_eq!(head, &[0xaa, 0xbb]);
    assert_eq!(tail, &[0xcc]);
    assert_eq!(
        split_with_u16_length(&[0x00, 0x04, 0xaa]).unwrap_err(),
        Error::InsufficientData { needed: 4, remaining: 1 }
    );
    assert_eq!(validate_consumed(&[]), Ok(()));
    assert_eq!(validate_consumed(&[1, 2]), Err(Error::TrailingBytes(2)));
    assert_eq!(get_tlv_message_type(&[0xfd, 0x1f, 0x00]), Ok(0x11f));
    assert_eq!(
        get_tlv_message_type(&[0x01]),
        Err(Error::InsufficientData { needed: 2, remaining: 1 })
    );
    let param: &[u8] = &[0x00, 0xef, 0x00, 0x05, 0x07, 0x99];
    let (body, rest) = parse_tlv_header(param, 239).unwrap();
    assert_eq!(body, &[0x07]);
    assert_eq!(rest, &[0x99]);
    assert_eq!(parse_tlv_header(param, 240).unwrap_err(), Error::InvalidType(239));
}

#[test]
fn error_messages() {
    assert_eq!(
        Error::InsufficientData { needed: 12, remaining: 3 }.message(),
        "Insufficient data: 12 bytes needed, but only 3 remaining"
    );
    assert_eq!(Error::TrailingBytes(7).message(), "7 trailing bytes");
    assert_eq!(Error::TrailingBits(5).message(), "5 trailing bits");
    assert_eq!(Error::TlvLengthInvalid(3).message(), "Invalid length for TLV parameter: 3");
    assert_eq!(Error::InvalidType(1023).message(), "Invalid type num: 1023");
    assert_eq!(Error::InvalidTvType(0).message(), "Invalid TV type num: 0");
    assert_eq!(Error::InvalidVariant(4294967295).message(), "Invalid variant: 4294967295");
    assert_eq!(Error::UnknownMessageId(100).message(), "Unknown message id: 100");
    assert_eq!(Error::Io(IoErrorKind::InvalidData).message(), "invalid data");
}

/// In relaxed mode the bytes that the fields leave in a body are passed over.
#[test]
fn relaxed_mode_passes_over_padding() {
    let padded: &[u8] = &[0x00, 0xdf, 0x00, 0x08, 0x12, 0x34, 0x00, 0x00, 0x99];
    let mut decoder = Decoder::new(padded);
    let strict = decoder.tlv_param(223, |d: &mut Decoder| d.read::<u16>());
    assert_eq!(strict, Err(Error::TrailingBytes(2)));
    let mut decoder = Decoder::new(padded);
    let relaxed = decoder.tlv_param_relaxed(223, |d: &mut Decoder| d.read::<u16>());
    assert_eq!(relaxed, Ok(0x1234));
    assert_eq!(decoder.rest(), &[0x99]);
    // bits that are left over are refused in either mode
    let mut decoder = Decoder::new(&[0x00, 0xdf, 0x00, 0x05, 0xff]);
    let bits = decoder.tlv_param_relaxed(223, |d: &mut Decoder| d.read_raw_bits(3));
    assert_eq!(bits, Err(Error::TrailingBits(5)));
}

/// Behind a parameter the decoder stands on a byte boundary.
#[test]
fn parameter_ends_on_a_byte_boundary() {
    let data: &[u8] = &[0x00, 0xb5, 0x00, 0x0f, 0x00, 0x03, 0x80, 0, 0, 0, 0, 0, 0, 0, 9, 0xa5];
    let mut decoder = Decoder::new(data);
    decoder.read::<GPITriggerValue>().unwrap();
    assert_eq!(decoder.remaining(), 1);
    // the next bits come from the next byte
    assert_eq!(decoder.read_raw_bits(4), Ok(0xa));
    assert_eq!(decoder.read_raw_bits(4), Ok(0x5));
    assert_eq!(decoder.validate_consumed(), Ok(()));
}

/// Values are read from a slice as from a decoder, and the rest is handed back.
#[test]
fn slice_decoding() {
    let data: &[u8] = &[0x12, 0x34, 0x56];
    assert_eq!(<u16 as llrp::slices::LLRPDecodable>::decode(data), Ok((0x1234, &data[2..])));
    assert_eq!(
        <u32 as llrp::slices::LLRPDecodable>::decode(data),
        Err(Error::InsufficientData { needed: 4, remaining: 3 })
    );
    let param: &[u8] = &[0x00, 0xef, 0x00, 0x05, 0x07, 0x99];
    assert_eq!(
        <AccessReportSpec as llrp::slices::TlvDecodable>::decode_tlv(param),
        Ok((AccessReportSpec { trigger: 7 }, &param[5..]))
    );
    assert_eq!(<AccessReportSpec as llrp::slices::TlvDecodable>::ID, 239);
    assert_eq!(<RfReceiver as llrp::slices::TlvDecodable>::decode_tlv(param), Err(Error::InvalidType(239)));
    let tv: &[u8] = &[0x81, 0x00, 0x2a, 0x99];
    assert_eq!(<Option<u16> as llrp::slices::TvDecodable>::decode_tv(tv, 1), Ok((Some(42), &tv[3..])));
    assert_eq!(<Option<u16> as llrp::slices::TvDecodable>::decode_tv(tv, 2), Ok((None, tv)));
    assert_eq!(<bool as llrp::slices::FromBits>::from_bits(1), true);
    assert_eq!(<u8 as llrp::slices::FromBits>::from_bits(0x2ff), 0xff);
}

/// A read that fails at the first step takes nothing.
#[test]
fn failed_reads_take_nothing() {
    let mut decoder = Decoder::new(&[0x01]);
    assert_eq!(decoder.read::<u16>(), Err(Error::InsufficientData { needed: 2, remaining: 1 }));
    assert_eq!(decoder.remaining(), 1);
    let data: &[u8] = &[0x86, 0xbc, 0x82];
    let mut decoder = Decoder::new(data);
    assert_eq!(decoder.read_tv::<Option<u16>>(1), Ok(None));
    assert_eq!(decoder.rest(), data);
    assert_eq!(decoder.read_tv::<u16>(1), Err(Error::InvalidType(6)));
    assert_eq!(decoder.rest(), data);
    assert_eq!(decoder.read_tv::<Option<u8>>(6), Ok(Some(188)));
    assert_eq!(decoder.rest(), &[0x82]);
    // a parameter that fails inside its body leaves the cursor in front of its header
    let broken: &[u8] = &[0x00, 0xdf, 0x00, 0x07, 0x12, 0x34, 0x00];
    let mut decoder = Decoder::new(broken);
    assert_eq!(decoder.read::<RfReceiver>(), Err(Error::TrailingBytes(1)));
    assert_eq!(decoder.rest(), broken);
    assert_eq!(decoder.read::<Option<RfReceiver>>(), Err(Error::TrailingBytes(1)));
    assert_eq!(decoder.rest(), broken);
}

/// The element reader of an array may read as it likes; the first call that
/// fails ends the run.
#[test]
fn arrays_with_any_element_reader() {
    let data: &[u8] = &[0x00, 0x03, 0xab, 0xc0, 0xff];
    let mut decoder = Decoder::new(data);
    let nibbles = decoder.array(|d: &mut Decoder| d.read_bits::<u8>(4));
    assert_eq!(nibbles, Ok(vec![0xa, 0xb, 0xc]));
    assert_eq!(decoder.read_bits::<u8>(4), Ok(0));
    assert_eq!(decoder.rest(), &[0xff]);
    // the count cannot be read: nothing is taken
    let mut decoder = Decoder::new(&[0x07]);
    let failed: Result<Vec<u16>, Error> = decoder.array(|d: &mut Decoder| d.read::<u16>());
    assert_eq!(failed, Err(Error::InsufficientData { needed: 2, remaining: 1 }));
    assert_eq!(decoder.remaining(), 1);
    // the third call fails
    let mut decoder = Decoder::new(&[0x00, 0x03, 0x01, 0x02]);
    let failed = decoder.array(|d: &mut Decoder| d.read::<u8>());
    assert_eq!(failed, Err(Error::InsufficientData { needed: 1, remaining: 0 }));
    let mut encoder = Encoder::new(vec![]);
    encoder.array(&[0xau8, 0xb, 0xc, 0xd], |e: &mut Encoder, x: &u8| e.write_bits(x, 4));
    assert_eq!(encoder.finish(), vec![0x00, 0x04, 0xab, 0xcd]);
}

/// A run of bit fields that fills whole bytes comes back as it was written.
#[test]
fn bit_field_runs_round_trip() {
    let fields: [(u32, u8); 5] = [(5, 3), (0x1ff, 9), (1, 1), (0x2aaa, 15), (9, 4)];
    let mut encoder = Encoder::new(vec![0x77]);
    for (value, width) in fields {
        encoder.write_raw_bits(value, width);
    }
    let bytes = encoder.finish();
    assert_eq!(bytes.len(), 5);
    let mut decoder = Decoder::new(&bytes[1..]);
    for (value, width) in fields {
        assert_eq!(decoder.read_raw_bits(width), Ok(value));
    }
    assert_eq!(decoder.validate_consumed(), Ok(()));
}
