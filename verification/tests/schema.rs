use llrp::codegen::{
    container_type, decode_field, define_choice, define_enum, define_field, define_message,
    define_parameter, define_tv_parameter, encode_field, generate, generate_code, supports_choices,
    supports_definitions,
};
use llrp::llrp_def;
use llrp::llrp_def::{LLRPDef, Repeat};
use llrp::repr::{
    field_ident, in_range, inner_field, map_field, parse_definitions, parse_fields, type_of, Container,
    Definition, Encoding, EnumVariant, Field, TvField,
};
use llrp::text::{decimal_string, str_eq};

fn scalar(ident: &str, ty: &str, encoding: Encoding) -> Field {
    Field { ident: ident.to_string(), ty: Container::Raw(ty.to_string()), encoding }
}

fn item(wire: &str, host: &str) -> Box<Field> {
    Box::new(scalar(&format!("__{}_item", wire), host, Encoding::Manual))
}

#[test]
fn text_helpers() {
    assert!(str_eq("u16", "u16"));
    assert!(!str_eq("u16", "u1"));
    assert!(!str_eq("u16", "u17"));
    assert!(str_eq("", ""));
    assert_eq!(decimal_string(0), "0");
    assert_eq!(decimal_string(7), "7");
    assert_eq!(decimal_string(1023), "1023");
    assert_eq!(decimal_string(u64::MAX), "18446744073709551615");
}

#[test]
fn wire_types_map_to_host_types() {
    assert_eq!(type_of("u1"), ("bool".to_string(), Encoding::RawBits { num_bits: 1 }));
    assert_eq!(type_of("u2"), ("u8".to_string(), Encoding::RawBits { num_bits: 2 }));
    assert_eq!(type_of("u7"), ("u8".to_string(), Encoding::RawBits { num_bits: 7 }));
    assert_eq!(type_of("u9"), ("u16".to_string(), Encoding::RawBits { num_bits: 9 }));
    assert_eq!(type_of("u15"), ("u16".to_string(), Encoding::RawBits { num_bits: 15 }));
    assert_eq!(type_of("u8"), ("u8".to_string(), Encoding::Manual));
    assert_eq!(type_of("u64"), ("u64".to_string(), Encoding::Manual));
    assert_eq!(type_of("s8"), ("i8".to_string(), Encoding::Manual));
    assert_eq!(type_of("s64"), ("i64".to_string(), Encoding::Manual));
    assert_eq!(type_of("u96"), ("[u8; 12]".to_string(), Encoding::Manual));
    assert_eq!(type_of("u1v"), ("BitArray".to_string(), Encoding::Manual));
    assert_eq!(type_of("utf8v"), ("String".to_string(), Encoding::Manual));
    assert_eq!(
        type_of("u16v"),
        ("Vec<u16>".to_string(), Encoding::ArrayOfT { inner: item("u16", "u16") })
    );
    assert_eq!(
        type_of("bytesToEnd"),
        ("Vec<u8>".to_string(), Encoding::ArrayOfT { inner: item("u8", "u8") })
    );
    assert_eq!(type_of("u8v").1, type_of("bytesToEnd").1);
    assert_eq!(type_of("ROSpec"), ("ROSpec".to_string(), Encoding::TlvParameter));
}

/// The irregular names have their own identifiers; the others go to snake case.
#[test]
fn field_identifiers() {
    assert_eq!(field_ident("Match"), "match_");
    assert_eq!(field_ident("NumGPIs"), "num_gpis");
    assert_eq!(field_ident("NumGPOs"), "num_gpos");
    assert_eq!(field_ident("AntennaIDs"), "antenna_ids");
    assert_eq!(field_ident("LLRPStatus"), "status");
    assert_eq!(field_ident("AntennaID"), "antenna_id");
    assert_eq!(field_ident("ROSpecID"), "ro_spec_id");
    assert_eq!(field_ident("CurrentState"), "current_state");
}

#[test]
fn inner_fields() {
    assert_eq!(*inner_field("u16"), scalar("__u16_item", "u16", Encoding::Manual));
    assert_eq!(
        *inner_field("u8v"),
        scalar("__u8v_item", "Vec<u8>", Encoding::ArrayOfT { inner: item("u8", "u8") })
    );
    assert_eq!(*inner_field("u2"), scalar("__u2_item", "u8", Encoding::RawBits { num_bits: 2 }));
}

#[test]
fn cardinality_picks_the_container() {
    let none: Vec<(String, TvField)> = vec![];
    let field = map_field("ROSpec", "ROSpec", Repeat::One, &none);
    assert_eq!(field.ident, "ro_spec");
    assert_eq!(field.ty, Container::Raw("ROSpec".to_string()));
    assert_eq!(field.encoding, Encoding::TlvParameter);
    assert_eq!(
        map_field("ROSpec", "ROSpec", Repeat::ZeroOrOne, &none).ty,
        Container::Option("ROSpec".to_string())
    );
    assert_eq!(
        map_field("ROSpec", "ROSpec", Repeat::ZeroToN, &none).ty,
        Container::Vec("ROSpec".to_string())
    );
    assert_eq!(
        map_field("ROSpec", "ROSpec", Repeat::OneToN, &none).ty,
        Container::Vec("ROSpec".to_string())
    );
    // the parameter that may contain itself is held behind a pointer
    assert_eq!(
        map_field("ParameterError", "ParameterError", Repeat::One, &none).ty,
        Container::Box("ParameterError".to_string())
    );
    assert_eq!(
        map_field("ParameterError", "ParameterError", Repeat::ZeroOrOne, &none).ty,
        Container::OptionBox("ParameterError".to_string())
    );
    assert_eq!(
        map_field("ParameterError", "ParameterError", Repeat::ZeroToN, &none).ty,
        Container::Vec("ParameterError".to_string())
    );
}

/// A reference to a registered TV parameter gets the TV encoding; the entry
/// registered last under a name counts.
#[test]
fn tv_parameters_are_looked_up() {
    let known = vec![
        ("AntennaID".to_string(), TvField { id: 1, ty: "AntennaID".to_string(), required: true }),
        ("PeakRSSI".to_string(), TvField { id: 6, ty: "PeakRSSI".to_string(), required: true }),
        ("AntennaID".to_string(), TvField { id: 9, ty: "Other".to_string(), required: false }),
    ];
    let field = map_field("AntennaID", "AntennaID", Repeat::ZeroOrOne, &known);
    assert_eq!(field.encoding, Encoding::TvParameter { tv_id: 9 });
    assert_eq!(field.ty, Container::Option("Other".to_string()));
    let field = map_field("PeakRSSI", "PeakRSSI", Repeat::One, &known);
    assert_eq!(field.encoding, Encoding::TvParameter { tv_id: 6 });
    assert_eq!(field.ty, Container::Raw("PeakRSSI".to_string()));
    let field = map_field("ChannelIndex", "ChannelIndex", Repeat::One, &known);
    assert_eq!(field.encoding, Encoding::TlvParameter);
}

#[test]
fn descriptors_become_fields() {
    let none: Vec<(String, TvField)> = vec![];
    let descriptors = vec![
        llrp_def::Field::Annotation,
        llrp_def::Field::Field {
            type_: "u1".to_string(),
            name: "CurrentState".to_string(),
            format: None,
            enumeration: None,
        },
        llrp_def::Field::Reserved { bit_count: 7 },
        llrp_def::Field::Field {
            type_: "u8".to_string(),
            name: "Status".to_string(),
            format: None,
            enumeration: Some("StatusCode".to_string()),
        },
        llrp_def::Field::Field {
            type_: "u8v".to_string(),
            name: "Protocols".to_string(),
            format: None,
            enumeration: Some("AirProtocols".to_string()),
        },
        llrp_def::Field::Parameter { repeat: Repeat::ZeroToN, type_: "Custom".to_string() },
        llrp_def::Field::Choice { repeat: Repeat::One, type_: "SpecParameter".to_string() },
        llrp_def::Field::Annotation,
    ];
    let fields = parse_fields(&descriptors, &none);
    assert_eq!(fields.len(), 6);
    assert_eq!(fields[0], scalar("current_state", "bool", Encoding::RawBits { num_bits: 1 }));
    assert_eq!(fields[1].ty, Container::Raw("u8".to_string()));
    assert_eq!(fields[1].encoding, Encoding::RawBits { num_bits: 7 });
    assert_eq!(fields[1].ident, "reserved");
    assert_eq!(
        fields[2],
        scalar("status", "StatusCode", Encoding::Enum { inner: item("u8", "u8") })
    );
    assert_eq!(fields[3].ty, Container::Vec("AirProtocols".to_string()));
    assert_eq!(
        fields[3].encoding,
        Encoding::Enum {
            inner: Box::new(scalar(
                "__u8v_item",
                "Vec<u8>",
                Encoding::ArrayOfT { inner: item("u8", "u8") }
            ))
        }
    );
    assert_eq!(fields[4].ty, Container::Vec("Custom".to_string()));
    assert_eq!(fields[5].ident, "spec_parameter");
    assert_eq!(fields[5].ty, Container::Raw("SpecParameter".to_string()));
}

fn sample() -> LLRPDef {
    LLRPDef {
        definitions: vec![
            llrp_def::Definition::Namespace,
            llrp_def::Definition::Message(llrp_def::MessageDefinition {
                name: "RO_ACCESS_REPORT".to_string(),
                type_num: 61,
                required: true,
                fields: vec![llrp_def::Field::Parameter {
                    repeat: Repeat::ZeroToN,
                    type_: "TagReportData".to_string(),
                }],
            }),
            llrp_def::Definition::Parameter(llrp_def::ParameterDefinition {
                name: "TagReportData".to_string(),
                type_num: 240,
                required: false,
                fields: vec![
                    llrp_def::Field::Annotation,
                    llrp_def::Field::Parameter {
                        repeat: Repeat::ZeroOrOne,
                        type_: "AntennaID".to_string(),
                    },
                ],
            }),
            llrp_def::Definition::Parameter(llrp_def::ParameterDefinition {
                name: "AntennaID".to_string(),
                type_num: 1,
                required: true,
                fields: vec![
                    llrp_def::Field::Annotation,
                    llrp_def::Field::Field {
                        type_: "u16".to_string(),
                        name: "AntennaID".to_string(),
                        format: None,
                        enumeration: None,
                    },
                ],
            }),
            llrp_def::Definition::Enum(llrp_def::EnumerationDefinition {
                name: "AirProtocols".to_string(),
                entries: vec![
                    llrp_def::EnumerationVariant { value: 0, name: "Unspecified".to_string() },
                    llrp_def::EnumerationVariant { value: 1, name: "EPCGlobalClass1Gen2".to_string() },
                ],
            }),
            llrp_def::Definition::Choice(llrp_def::ChoiceDefinition {
                name: "EPCParameter".to_string(),
                fields: vec![
                    llrp_def::Field::Parameter { repeat: Repeat::One, type_: "EPCData".to_string() },
                    llrp_def::Field::Parameter {
                        repeat: Repeat::ZeroOrOne,
                        type_: "AntennaID".to_string(),
                    },
                ],
            }),
        ],
    }
}

/// TV parameters come first; the others follow in the order of the
/// source, with their references to TV parameters resolved.
#[test]
fn definitions_are_normalised() {
    let definitions = parse_definitions(sample());
    assert_eq!(definitions.len(), 5);
    assert_eq!(
        definitions[0],
        Definition::TvParameter {
            id: 1,
            ident: "AntennaID".to_string(),
            fields: vec![scalar("antenna_id", "u16", Encoding::Manual)],
        }
    );
    assert_eq!(
        definitions[1],
        Definition::Message {
            id: 61,
            ident: "RoAccessReport".to_string(),
            fields: vec![Field {
                ident: "tag_report_data".to_string(),
                ty: Container::Vec("TagReportData".to_string()),
                encoding: Encoding::TlvParameter,
            }],
        }
    );
    assert_eq!(
        definitions[2],
        Definition::Parameter {
            id: 240,
            ident: "TagReportData".to_string(),
            fields: vec![Field {
                ident: "antenna_id".to_string(),
                ty: Container::Option("AntennaID".to_string()),
                encoding: Encoding::TvParameter { tv_id: 1 },
            }],
        }
    );
    assert_eq!(
        definitions[3],
        Definition::Enum {
            ident: "AirProtocols".to_string(),
            variants: vec![
                EnumVariant { ident: "Unspecified".to_string(), value: 0 },
                EnumVariant { ident: "EPCGlobalClass1Gen2".to_string(), value: 1 },
            ],
        }
    );
    match &definitions[4] {
        Definition::Choice { ident, choices } => {
            assert_eq!(ident, "EPCParameter");
            assert_eq!(choices.len(), 2);
            assert_eq!(choices[0].encoding, Encoding::TlvParameter);
            assert_eq!(choices[1].encoding, Encoding::TvParameter { tv_id: 1 });
        }
        other => panic!("{:?}", other),
    }
}

#[test]
fn containers_are_spelled_out() {
    assert_eq!(container_type(&Container::Raw("u8".to_string())), "u8");
    assert_eq!(container_type(&Container::Box("A".to_string())), "Box<A>");
    assert_eq!(container_type(&Container::Option("A".to_string())), "Option<A>");
    assert_eq!(container_type(&Container::OptionBox("A".to_string())), "Option<Box<A>>");
    assert_eq!(container_type(&Container::Vec("A".to_string())), "Vec<A>");
}

#[test]
fn field_emission_by_encoding() {
    let bits = scalar("session", "u8", Encoding::RawBits { num_bits: 2 });
    assert_eq!(define_field(&bits), "pub session: u8");
    assert_eq!(decode_field(&bits, "decoder"), "decoder.read_bits::<u8>(2u8)");
    assert_eq!(encode_field(&bits, "encoder"), "encoder.write_bits(session, 2u8)");

    let tlv = Field {
        ident: "spec".to_string(),
        ty: Container::Option("ROSpec".to_string()),
        encoding: Encoding::TlvParameter,
    };
    assert_eq!(define_field(&tlv), "pub spec: Option<ROSpec>");
    assert_eq!(decode_field(&tlv, "d"), "d.read::<Option<ROSpec>>()");
    assert_eq!(encode_field(&tlv, "e"), "e.write(spec)");

    let tv = Field {
        ident: "antenna_id".to_string(),
        ty: Container::Option("AntennaID".to_string()),
        encoding: Encoding::TvParameter { tv_id: 1 },
    };
    assert_eq!(decode_field(&tv, "decoder"), "decoder.read_tv::<Option<AntennaID>>(1u8)");
    assert_eq!(encode_field(&tv, "encoder"), "encoder.write_tv(antenna_id, 1u8)");

    let array = scalar("words", "Vec<u16>", Encoding::ArrayOfT { inner: item("u16", "u16") });
    assert_eq!(decode_field(&array, "decoder"), "decoder.array(|decoder| decoder.read::<u16>())");
    assert_eq!(
        encode_field(&array, "encoder"),
        "encoder.array(words, |encoder, __u16_item| encoder.write(__u16_item))"
    );

    let manual = scalar("name", "String", Encoding::Manual);
    assert_eq!(decode_field(&manual, "decoder"), "decoder.read::<String>()");
    assert_eq!(encode_field(&manual, "encoder"), "encoder.write(name)");

    let one = scalar("status", "StatusCode", Encoding::Enum { inner: item("u16", "u16") });
    assert_eq!(
        decode_field(&one, "decoder"),
        "LLRPEnumeration::from_value::<u16>(decoder.read::<u16>()?)"
    );
    assert_eq!(
        encode_field(&one, "encoder"),
        "{ let tmp = status.to_value::<u16>(); let __u16_item = &tmp; encoder.write(__u16_item) }"
    );

    let many = Field {
        ident: "protocols".to_string(),
        ty: Container::Vec("AirProtocols".to_string()),
        encoding: Encoding::Enum { inner: inner_field("u8v") },
    };
    assert_eq!(
        decode_field(&many, "decoder"),
        "LLRPEnumeration::from_vec::<u8>(decoder.array(|decoder| decoder.read::<u8>())?)"
    );
    assert_eq!(
        encode_field(&many, "encoder"),
        "{ let tmp: Vec<u8> = protocols.iter().map(|x| x.to_value::<u8>()).collect(); \
         let __u8v_item = &tmp; encoder.array(__u8v_item, |encoder, __u8_item| encoder.write(__u8_item)) }"
    );
}

#[test]
fn tv_parameter_with_one_field_is_an_alias() {
    let one = vec![scalar("antenna_id", "u16", Encoding::Manual)];
    assert_eq!(define_tv_parameter(1, "AntennaID", &one), "pub type AntennaID = u16;");
    let two = vec![
        scalar("a", "u16", Encoding::Manual),
        scalar("b", "u8", Encoding::RawBits { num_bits: 8 }),
    ];
    assert_eq!(
        define_tv_parameter(17, "Pair", &two),
        "#[derive(Debug, Eq, PartialEq)] pub struct Pair { pub a: u16, pub b: u8, } \
         impl crate::LLRPValue for Pair { fn decode(decoder: &mut Decoder) -> crate::Result<Self> \
         { Ok(Pair { a: decoder.read::<u16>()?, b: decoder.read_bits::<u8>(8u8)?, }) } \
         fn can_decode_type(type_num: u16) -> bool { type_num == 17u8 as u16 } }"
    );
    let none: Vec<Field> = vec![];
    assert!(define_tv_parameter(2, "Empty", &none).starts_with("#[derive(Debug, Eq, PartialEq)] pub struct Empty { }"));
}

#[test]
fn parameter_and_message_records() {
    let fields = vec![scalar("trigger", "u8", Encoding::Manual)];
    assert_eq!(
        define_parameter(239, "AccessReportSpec", &fields),
        "#[derive(Debug, Eq, PartialEq)] pub struct AccessReportSpec { pub trigger: u8, } \
         impl crate::TlvParameter for AccessReportSpec { const ID: u16 = 239u16; } \
         impl crate::LLRPValue for AccessReportSpec { \
         fn decode(decoder: &mut Decoder) -> crate::Result<Self> { decoder.tlv_param(239u16, |decoder| { \
         let trigger = decoder.read::<u8>()?; Ok(AccessReportSpec { trigger, }) }) } \
         fn encode(&self, encoder: &mut Encoder) { encoder.tlv_param(239u16, |encoder| { \
         let trigger = &self.trigger; encoder.write(trigger); }); } \
         fn can_decode_type(type_num: u16) -> bool { type_num == 239u16 } }"
    );
    assert_eq!(
        define_message(21, "DeleteRospec", &vec![scalar("ro_spec_id", "u32", Encoding::Manual)]),
        "#[derive(Debug, Eq, PartialEq)] pub struct DeleteRospec { pub ro_spec_id: u32, } \
         impl crate::LLRPMessage for DeleteRospec { const ID: u16 = 21u16; \
         fn decode(data: &[u8]) -> crate::Result<(Self, &[u8])> { let mut decoder = Decoder::new(data); \
         let ro_spec_id = decoder.read::<u32>()?; let __result = DeleteRospec { ro_spec_id, }; \
         Ok((__result, decoder.bytes)) } \
         fn encode(&self, buffer: &mut Vec<u8>) { let mut encoder = Encoder::new(buffer); \
         let ro_spec_id = &self.ro_spec_id; encoder.write(ro_spec_id); } }"
    );
}

#[test]
fn enumeration_sum_type() {
    let variants = vec![
        EnumVariant { ident: "Off".to_string(), value: 0 },
        EnumVariant { ident: "On".to_string(), value: 300 },
    ];
    assert_eq!(
        define_enum("Switch", &variants),
        "#[derive(Debug, Eq, PartialEq)] pub enum Switch { Off = 0, On = 300, } \
         impl crate::LLRPEnumeration for Switch { \
         fn from_value<T: Into<u32>>(value: T) -> crate::Result<Self> { let result = match value.into() { \
         0 => Self::Off, 300 => Self::On, other => return Err(crate::Error::InvalidVariant(other)), }; \
         Ok(result) } \
         fn to_value<T: Bits>(&self) -> T { T::from_bits(match self { \
         Self::Off => 0 as u32, Self::On => 300 as u32, }) } }"
    );
}

/// TV cases are told apart by their seven-bit type, TLV cases by their ten-bit type.
#[test]
fn choice_tagged_union() {
    let choices = vec![
        Field {
            ident: "epc_data".to_string(),
            ty: Container::Raw("EPCData".to_string()),
            encoding: Encoding::TlvParameter,
        },
        Field {
            ident: "epc_96".to_string(),
            ty: Container::Option("EPC96".to_string()),
            encoding: Encoding::TvParameter { tv_id: 13 },
        },
    ];
    assert!(supports_choices(&choices));
    assert_eq!(
        define_choice("EPCParameter", &choices),
        "#[derive(Debug, Eq, PartialEq)] pub enum EPCParameter { EPCData(EPCData), EPC96(EPC96), } \
         impl crate::LLRPValue for EPCParameter { \
         fn can_decode_type(type_num: u16) -> bool { [EPCData::ID, 13u16, ].contains(&type_num) } \
         fn decode(decoder: &mut Decoder) -> Result<Self> { \
         let type_num = decoder.peek_param_type()?.as_u16(); match type_num { \
         13u16 => Ok(Self::EPC96(decoder.read_tv(13u8)?)), \
         type_num if type_num == EPCData::ID => { Ok(Self::EPCData(decoder.read()?)) }, \
         _ => Err(crate::Error::InvalidType(type_num)), } } \
         fn encode(&self, encoder: &mut Encoder) { match self { \
         Self::EPC96(value) => value.encode_tv(encoder, 13u8), \
         Self::EPCData(value) => value.encode(encoder), } } } \
         impl From<EPCData> for EPCParameter { fn from(value: EPCData) -> EPCParameter { \
         EPCParameter::EPCData(value) } } "
    );
    let unsupported = vec![Field {
        ident: "x".to_string(),
        ty: Container::Vec("X".to_string()),
        encoding: Encoding::TlvParameter,
    }];
    assert!(!supports_choices(&unsupported));
}

#[test]
fn generated_code_by_kind() {
    let definitions = parse_definitions(sample());
    assert!(supports_definitions(&definitions));
    let code = generate(definitions);
    assert_eq!(code.messages.len(), 1);
    assert_eq!(code.parameters.len(), 2);
    assert_eq!(code.enumerations.len(), 1);
    assert_eq!(code.choices.len(), 1);
    assert_eq!(code.parameters[0], "pub type AntennaID = u16;");
    assert!(code.parameters[1].contains("pub struct TagReportData { pub antenna_id: Option<AntennaID>, }"));
    assert!(code.parameters[1].contains("decoder.read_tv::<Option<AntennaID>>(1u8)?"));
    assert!(code.messages[0].contains("pub struct RoAccessReport { pub tag_report_data: Vec<TagReportData>, }"));
    assert_eq!(
        code.message_enum,
        "pub enum Message { RoAccessReport(RoAccessReport), } impl Message { \
         pub fn decode(message_id: u32, payload: &[u8]) -> crate::Result<Message> { \
         match message_id as u16 { 61u16 => Ok(Self::RoAccessReport(RoAccessReport::decode(payload)?.0)), \
         _ => Err(crate::Error::UnknownMessageId(message_id)) } } }"
    );
    let unit = code.render("// runtime\n");
    assert!(unit.starts_with("// runtime\n#[allow("));
    let messages = unit.find("pub mod messages {").unwrap();
    let parameters = unit.find("pub mod parameters {").unwrap();
    let enumerations = unit.find("pub mod enumerations {").unwrap();
    let choices = unit.find("pub mod choices {").unwrap();
    assert!(messages < parameters && parameters < enumerations && enumerations < choices);
    assert!(unit.contains(&code.message_enum));
    assert!(unit.ends_with(" }"));
}

#[test]
fn code_for_definitions() {
    let code = generate_code(parse_definitions(sample()));
    assert_eq!(code.parameters[0], "pub type AntennaID = u16;");
    assert_eq!(code.messages.len(), 1);
}

#[test]
fn arrays_are_told_apart() {
    assert!(scalar("words", "Vec<u16>", Encoding::ArrayOfT { inner: item("u16", "u16") }).is_vec());
    assert!(!scalar("word", "u16", Encoding::Manual).is_vec());
    assert!(!inner_field("u16").is_vec());
    assert!(inner_field("u64v").is_vec());
}

#[test]
fn parameter_types_in_range() {
    assert!(in_range(&sample()));
    let mut def = sample();
    def.definitions.push(llrp_def::Definition::Parameter(llrp_def::ParameterDefinition {
        name: "Far".to_string(),
        type_num: 2048,
        required: false,
        fields: vec![],
    }));
    assert!(!in_range(&def));
}

#[test]
fn repeat_defaults_to_optional() {
    assert_eq!(Repeat::default(), Repeat::ZeroOrOne);
}
