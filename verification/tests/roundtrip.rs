use llrp::binary::{read_message, write_message, BinaryMessage};
use llrp::messages::{AddAccessSpec, DeleteRoSpec, Message};
use llrp::parameters::{
    AccessCommand, AccessReportSpec, AccessSpec, AccessSpecStopTrigger, C1G2BlockWrite, C1G2TagSpec,
    C1G2TargetTag, FieldError, LLRPStatus, OpSpec, ParameterError,
};
use llrp::enumerations::StatusCode;
use llrp::messages::ErrorMessage;
use llrp::value::{BitArray, LLRPMessage};

/// Decodes the envelope and its message, encodes both again, and gives the bytes.
fn reencode(bytes: &[u8]) -> Vec<u8> {
    let (raw, rest) = read_message(bytes).unwrap();
    assert!(rest.is_empty());
    let message = Message::decode(raw.message_type as u32, &raw.value).unwrap();
    let again = BinaryMessage::from_dynamic_message(raw.id, &message).unwrap();
    assert_eq!(again.message_type, raw.message_type);
    assert_eq!(again.ver, 1);
    let mut out = vec![];
    write_message(&mut out, &again);
    out
}

#[test]
fn reencode_reader_event_notification() {
    let bytes: &[u8] = &[
        0x04, 0x3f, 0x00, 0x00, 0x00, 0x20, 0x3a, 0xfb, 0x30, 0xa7, 0x00, 0xf6, 0x00, 0x16, 0x00,
        0x80, 0x00, 0x0c, 0x00, 0x05, 0x88, 0x80, 0x11, 0x9f, 0x8e, 0xad, 0x01, 0x00, 0x00, 0x06,
        0x00, 0x00,
    ];
    assert_eq!(reencode(bytes), bytes);
}

#[test]
fn reencode_status_with_field_error() {
    let bytes: &[u8] = &[
        0x04, 0x33, 0x00, 0x00, 0x00, 0x3f, 0x00, 0x00, 0x00, 0x09, 0x01, 0x1f, 0x00, 0x35, 0x00,
        0x65, 0x00, 0x25, 0x4c, 0x4c, 0x52, 0x50, 0x20, 0x5b, 0x34, 0x30, 0x39, 0x5d, 0x20, 0x3a,
        0x20, 0x2f, 0x2f, 0x41, 0x63, 0x63, 0x65, 0x73, 0x73, 0x53, 0x70, 0x65, 0x63, 0x49, 0x44,
        0x20, 0x3a, 0x20, 0x69, 0x6e, 0x76, 0x61, 0x6c, 0x69, 0x64, 0x01, 0x20, 0x00, 0x08, 0x00,
        0x01, 0x01, 0x2c,
    ];
    assert_eq!(reencode(bytes), bytes);
}

#[test]
fn reencode_add_ro_spec() {
    let bytes: &[u8] = &[
        0x04, 0x14, 0x00, 0x00, 0x00, 0x5c, 0x00, 0x00, 0x00, 0x0f, 0x00, 0xb1, 0x00, 0x52, 0x00,
        0x00, 0x00, 0x01, 0x00, 0x00, 0x00, 0xb2, 0x00, 0x12, 0x00, 0xb3, 0x00, 0x05, 0x01, 0x00,
        0xb6, 0x00, 0x09, 0x01, 0x00, 0x00, 0x0b, 0xb8, 0x00, 0xb7, 0x00, 0x36, 0x00, 0x01, 0x00,
        0x01, 0x00, 0xb8, 0x00, 0x09, 0x00, 0x00, 0x00, 0x00, 0x00, 0x00, 0xba, 0x00, 0x25, 0x04,
        0xd2, 0x01, 0x00, 0xde, 0x00, 0x1e, 0x00, 0x01, 0x01, 0x4a, 0x00, 0x18, 0x00, 0x01, 0x4f,
        0x00, 0x08, 0x00, 0x00, 0x00, 0x00, 0x01, 0x50, 0x00, 0x0b, 0x40, 0x00, 0x01, 0x00, 0x00,
        0x00, 0x00,
    ];
    assert_eq!(reencode(bytes), bytes);
}

#[test]
fn reencode_ro_access_report_with_tv_parameters() {
    let bytes: &[u8] = &[
        0x04, 0x3d, 0x00, 0x00, 0x00, 0x29, 0x3a, 0xfb, 0x30, 0xb6, 0x00, 0xf0, 0x00, 0x1f, 0x8d,
        0x0b, 0x7f, 0x00, 0x00, 0x00, 0x00, 0x00, 0x00, 0x00, 0x51, 0x02, 0x38, 0x81, 0x00, 0x01,
        0x86, 0xbc, 0x82, 0x00, 0x05, 0x88, 0x80, 0x19, 0x4b, 0xa9, 0xd5,
    ];
    assert_eq!(reencode(bytes), bytes);
}

#[test]
fn reencode_ro_access_report_with_read_result() {
    let bytes: &[u8] = &[
        0x04, 0x3d, 0x00, 0x00, 0x00, 0x52, 0x3a, 0xfb, 0x37, 0x06, 0x00, 0xf0, 0x00, 0x48, 0x8d,
        0x0b, 0x03, 0x00, 0x00, 0x00, 0x00, 0x00, 0x00, 0x00, 0x51, 0x02, 0x38, 0x81, 0x00, 0x01,
        0x86, 0xbc, 0x82, 0x00, 0x05, 0x88, 0x80, 0x19, 0x83, 0xab, 0x7e, 0x01, 0x5d, 0x00, 0x29,
        0x00, 0x00, 0x6f, 0x00, 0x10, 0x9d, 0x22, 0x03, 0x8a, 0x4b, 0x44, 0xa2, 0xe4, 0xd3, 0xa6,
        0x62, 0x34, 0x84, 0xae, 0x99, 0x9c, 0x21, 0x48, 0x71, 0x58, 0x6d, 0x7e, 0xc4, 0xfc, 0xc3,
        0x2a, 0x29, 0x87, 0xfa, 0x6b, 0x52, 0xab,
    ];
    assert_eq!(reencode(bytes), bytes);
}

#[test]
fn reencode_add_access_spec_read() {
    let bytes: &[u8] = &[
        0x04, 0x28, 0x00, 0x00, 0x00, 0x4a, 0x00, 0x00, 0x06, 0x8f, 0x00, 0xcf, 0x00, 0x40, 0x00,
        0x00, 0x01, 0xaf, 0x00, 0x01, 0x01, 0x00, 0x00, 0x00, 0x00, 0x01, 0x00, 0xd0, 0x00, 0x07,
        0x00, 0x00, 0x01, 0x00, 0xd1, 0x00, 0x24, 0x01, 0x52, 0x00, 0x11, 0x01, 0x53, 0x00, 0x0d,
        0x60, 0x00, 0x20, 0x00, 0x08, 0xff, 0x00, 0x08, 0x0b, 0x01, 0x55, 0x00, 0x0f, 0x00, 0x6f,
        0x00, 0x00, 0x00, 0x00, 0xc0, 0x00, 0x00, 0x00, 0x10, 0x00, 0xef, 0x00, 0x05, 0x00,
    ];
    assert_eq!(reencode(bytes), bytes);
}

/// Encoding the block-write access spec gives the bytes of the capture.
#[test]
fn encode_block_write_access_spec() {
    let expected: &[u8] = &[
        0x04, 0x28, 0x00, 0x00, 0x00, 0x4c, 0x00, 0x00, 0x06, 0x62, 0x00, 0xcf, 0x00, 0x42, 0x00,
        0x00, 0x01, 0xaf, 0x00, 0x01, 0x01, 0x00, 0x00, 0x00, 0x00, 0x01, 0x00, 0xd0, 0x00, 0x07,
        0x00, 0x00, 0x01, 0x00, 0xd1, 0x00, 0x26, 0x01, 0x52, 0x00, 0x11, 0x01, 0x53, 0x00, 0x0d,
        0x60, 0x00, 0x20, 0x00, 0x08, 0xff, 0x00, 0x08, 0x0b, 0x01, 0x5b, 0x00, 0x11, 0x00, 0x6f,
        0x00, 0x00, 0x00, 0x00, 0x00, 0x00, 0x03, 0x00, 0x01, 0x00, 0x21, 0x00, 0xef, 0x00, 0x05,
        0x00,
    ];
    let message = AddAccessSpec {
        access_spec: AccessSpec {
            id: 431,
            antenna_id: 1,
            protocol_id: 1,
            current_state: false,
            ro_spec_id: 1,
            stop_trigger: AccessSpecStopTrigger { trigger_type: 0, operation_count: 1 },
            command: AccessCommand {
                tag_spec: C1G2TagSpec {
                    tag_pattern1: C1G2TargetTag {
                        memory_bank_and_match: 0x60,
                        pointer: 0x0020,
                        tag_mask: BitArray::from_bytes(vec![0xff]),
                        tag_data: BitArray::from_bytes(vec![0x0b]),
                    },
                    tag_pattern2: None,
                },
                op_spec: vec![OpSpec::C1G2BlockWrite(C1G2BlockWrite {
                    op_spec_id: 111,
                    access_password: 0,
                    memory_bank: 0,
                    word_ptr: 0x0003,
                    write_data: vec![0x0021],
                })],
                custom: vec![],
            },
            report_spec: Some(AccessReportSpec { trigger: 0 }),
            custom: vec![],
        },
    };
    let raw = BinaryMessage::from_message(1634, message).unwrap();
    assert_eq!(raw.ver, 1);
    assert_eq!(raw.message_type, AddAccessSpec::ID);
    assert_eq!(raw.id, 1634);
    let mut out = vec![];
    write_message(&mut out, &raw);
    assert_eq!(out, expected);
}

/// A value that is encoded and decoded again comes back as it was.
#[test]
fn encode_then_decode_is_identity() {
    let message = DeleteRoSpec { ro_spec_id: 0xdead_beef };
    let mut payload = vec![];
    message.encode(&mut payload);
    assert_eq!(payload, vec![0xde, 0xad, 0xbe, 0xef]);
    let (back, rest) = DeleteRoSpec::decode(&payload).unwrap();
    assert_eq!(back, message);
    assert!(rest.is_empty());
}

/// Nested parameter errors survive the trip, each in its own frame.
#[test]
fn nested_parameter_errors_round_trip() {
    let message = ErrorMessage {
        error: LLRPStatus {
            status_code: StatusCode::M_ParameterError,
            error_description: String::from("bad"),
            field_error: None,
            parameter_error: Some(ParameterError {
                field_error: None,
                parameter_error: Some(Box::new(ParameterError {
                    field_error: Some(FieldError {
                        field_number: 7,
                        error_code: StatusCode::A_OutOfRange,
                    }),
                    parameter_error: None,
                })),
            }),
        },
    };
    let mut payload = vec![];
    message.encode(&mut payload);
    let expected: Vec<u8> = vec![
        0x01, 0x1f, 0x00, 0x1b, // LLRPStatus, 27 bytes
        0x00, 0x64, // M_ParameterError
        0x00, 0x03, b'b', b'a', b'd', // description
        0x01, 0x21, 0x00, 0x10, // ParameterError, 16 bytes
        0x01, 0x21, 0x00, 0x0c, // nested ParameterError, 12 bytes
        0x01, 0x20, 0x00, 0x08, 0x00, 0x07, 0x01, 0x2d, // FieldError 7, A_OutOfRange
    ];
    assert_eq!(payload, expected);
    let (back, rest) = ErrorMessage::decode(&payload).unwrap();
    assert_eq!(back, message);
    assert!(rest.is_empty());
    let any = Message::decode(1000, &payload).unwrap();
    assert_eq!(any, Message::ErrorMessage(message));
}

/// What the fields of a message leave of the payload is handed back.
#[test]
fn message_hands_back_trailing_bytes() {
    let payload: &[u8] = &[0x00, 0x00, 0x00, 0x01, 0xaa, 0xbb];
    let (message, rest) = DeleteRoSpec::decode(payload).unwrap();
    assert_eq!(message.ro_spec_id, 1);
    assert_eq!(rest, &[0xaa, 0xbb]);
}
