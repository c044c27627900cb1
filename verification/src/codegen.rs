//! The emitter: the source text of a record, an enumeration, a tagged union
//! or the dispatcher for each definition, with the codec calls that drive the
//! runtime.

use vstd::prelude::*;
use vstd::string::StringExecFns;
use crate::repr::{
    encoding_view, field_view, Container, ContainerView, Definition, DefinitionView, Encoding,
    EncodingView, EnumVariant, EnumVariantView, Field, FieldView,
};
use crate::text::{append_decimal, decimal};

verus! {

/// The text of a host type with its container spelled out.
pub open spec fn container_text(ty: ContainerView) -> Seq<char> {
    match ty {
        ContainerView::Raw(ty) => ty,
        ContainerView::Box(ty) => "Box<"@ + ty + ">"@,
        ContainerView::Option(ty) => "Option<"@ + ty + ">"@,
        ContainerView::OptionBox(ty) => "Option<Box<"@ + ty + ">>"@,
        ContainerView::Vec(ty) => "Vec<"@ + ty + ">"@,
    }
}

/// Spells out a host type with its container.
pub fn container_type(ty: &Container) -> (r: String)
    ensures
        r@ == container_text(ty.deep_view()),
{
    match ty {
        Container::Raw(ty) => ty.clone(),
        Container::Box(ty) => {
            let mut out = String::from_str("Box<");
            out.append(ty.as_str());
            out.append(">");
            out
        },
        Container::Option(ty) => {
            let mut out = String::from_str("Option<");
            out.append(ty.as_str());
            out.append(">");
            out
        },
        Container::OptionBox(ty) => {
            let mut out = String::from_str("Option<Box<");
            out.append(ty.as_str());
            out.append(">>");
            out
        },
        Container::Vec(ty) => {
            let mut out = String::from_str("Vec<");
            out.append(ty.as_str());
            out.append(">");
            out
        },
    }
}


/// The declaration of a field in a record.
pub open spec fn define_field_text(field: FieldView) -> Seq<char> {
    "pub "@
        + field.ident
        + ": "@
        + container_text(field.ty)
}

/// Emits the declaration of a field in a record.
pub fn define_field(field: &Field) -> (r: String)
    ensures
        r@ == define_field_text(field.deep_view()),
{
    let mut out = String::from_str("pub ");
    out.append(field.ident.as_str());
    out.append(": ");
    out.append(container_type(&field.ty).as_str());
    out
}


/// The expression that decodes a field from the decoder named `decoder`.
pub open spec fn decode_field_text(field: FieldView, decoder: Seq<char>) -> Seq<char>
    decreases field,
{
    match field.encoding {
        EncodingView::RawBits { num_bits } => decoder
                + ".read_bits::<"@
                + container_text(field.ty)
                + ">("@
                + decimal(num_bits as nat)
                + "u8)"@,
        EncodingView::TlvParameter => decoder
                + ".read::<"@
                + container_text(field.ty)
                + ">()"@,
        EncodingView::TvParameter { tv_id } => decoder
                + ".read_tv::<"@
                + container_text(field.ty)
                + ">("@
                + decimal(tv_id as nat)
                + "u8)"@,
        EncodingView::ArrayOfT { inner } => decoder
                + ".array(|"@
                + decoder
                + "| "@
                + decode_field_text(*inner, decoder)
                + ")"@,
        EncodingView::Enum { inner } => match inner.encoding {
            EncodingView::ArrayOfT { inner: element } => "LLRPEnumeration::from_vec::<"@
                + container_text(element.ty)
                + ">("@
                + decode_field_text(*inner, decoder)
                + "?)"@,
            _ => "LLRPEnumeration::from_value::<"@
                + container_text(inner.ty)
                + ">("@
                + decode_field_text(*inner, decoder)
                + "?)"@,
        },
        EncodingView::Manual => decoder
                + ".read::<"@
                + container_text(field.ty)
                + ">()"@,
    }
}

/// Emits the expression that decodes a field from the decoder named `decoder`.
pub fn decode_field(field: &Field, decoder: &str) -> (r: String)
    ensures
        r@ == decode_field_text(field.deep_view(), decoder@),
    decreases field,
{
    proof {
        reveal_with_fuel(field_view, 3);
        reveal_with_fuel(encoding_view, 3);
    }
    match &field.encoding {
        Encoding::RawBits { num_bits } => {
            let mut out = String::from_str(decoder);
            out.append(".read_bits::<");
            out.append(container_type(&field.ty).as_str());
            out.append(">(");
            append_decimal(&mut out, *num_bits as u64);
            out.append("u8)");
            out
        },
        Encoding::TlvParameter => {
            let mut out = String::from_str(decoder);
            out.append(".read::<");
            out.append(container_type(&field.ty).as_str());
            out.append(">()");
            out
        },
        Encoding::TvParameter { tv_id } => {
            let mut out = String::from_str(decoder);
            out.append(".read_tv::<");
            out.append(container_type(&field.ty).as_str());
            out.append(">(");
            append_decimal(&mut out, *tv_id as u64);
            out.append("u8)");
            out
        },
        Encoding::ArrayOfT { inner } => {
            let mut out = String::from_str(decoder);
            out.append(".array(|");
            out.append(decoder);
            out.append("| ");
            out.append(decode_field(inner, decoder).as_str());
            out.append(")");
            out
        },
        Encoding::Enum { inner } => match &inner.encoding {
            Encoding::ArrayOfT { inner: element } => {
                let mut out = String::from_str("LLRPEnumeration::from_vec::<");
                out.append(container_type(&element.ty).as_str());
                out.append(">(");
                out.append(decode_field(inner, decoder).as_str());
                out.append("?)");
                out
            },
            _ => {
                let mut out = String::from_str("LLRPEnumeration::from_value::<");
                out.append(container_type(&inner.ty).as_str());
                out.append(">(");
                out.append(decode_field(inner, decoder).as_str());
                out.append("?)");
                out
            },
        },
        Encoding::Manual => {
            let mut out = String::from_str(decoder);
            out.append(".read::<");
            out.append(container_type(&field.ty).as_str());
            out.append(">()");
            out
        },
    }
}


/// The statement that encodes a field, which a local of the field's name
/// refers to, with the encoder named `encoder`.
pub open spec fn encode_field_text(field: FieldView, encoder: Seq<char>) -> Seq<char>
    decreases field,
{
    match field.encoding {
        EncodingView::RawBits { num_bits } => encoder
                + ".write_bits("@
                + field.ident
                + ", "@
                + decimal(num_bits as nat)
                + "u8)"@,
        EncodingView::TlvParameter => encoder
                + ".write("@
                + field.ident
                + ")"@,
        EncodingView::TvParameter { tv_id } => encoder
                + ".write_tv("@
                + field.ident
                + ", "@
                + decimal(tv_id as nat)
                + "u8)"@,
        EncodingView::ArrayOfT { inner } => encoder
                + ".array("@
                + field.ident
                + ", |"@
                + encoder
                + ", "@
                + inner.ident
                + "| "@
                + encode_field_text(*inner, encoder)
                + ")"@,
        EncodingView::Enum { inner } => match inner.encoding {
            EncodingView::ArrayOfT { inner: element } => "{ let tmp: Vec<"@
                + container_text(element.ty)
                + "> = "@
                + field.ident
                + ".iter().map(|x| x.to_value::<"@
                + container_text(element.ty)
                + ">()).collect(); let "@
                + inner.ident
                + " = &tmp; "@
                + encode_field_text(*inner, encoder)
                + " }"@,
            _ => "{ let tmp = "@
                + field.ident
                + ".to_value::<"@
                + container_text(inner.ty)
                + ">(); let "@
                + inner.ident
                + " = &tmp; "@
                + encode_field_text(*inner, encoder)
                + " }"@,
        },
        EncodingView::Manual => encoder
                + ".write("@
                + field.ident
                + ")"@,
    }
}

/// Emits the statement that encodes a field with the encoder named `encoder`.
pub fn encode_field(field: &Field, encoder: &str) -> (r: String)
    ensures
        r@ == encode_field_text(field.deep_view(), encoder@),
    decreases field,
{
    proof {
        reveal_with_fuel(field_view, 3);
        reveal_with_fuel(encoding_view, 3);
    }
    match &field.encoding {
        Encoding::RawBits { num_bits } => {
            let mut out = String::from_str(encoder);
            out.append(".write_bits(");
            out.append(field.ident.as_str());
            out.append(", ");
            append_decimal(&mut out, *num_bits as u64);
            out.append("u8)");
            out
        },
        Encoding::TlvParameter => {
            let mut out = String::from_str(encoder);
            out.append(".write(");
            out.append(field.ident.as_str());
            out.append(")");
            out
        },
        Encoding::TvParameter { tv_id } => {
            let mut out = String::from_str(encoder);
            out.append(".write_tv(");
            out.append(field.ident.as_str());
            out.append(", ");
            append_decimal(&mut out, *tv_id as u64);
            out.append("u8)");
            out
        },
        Encoding::ArrayOfT { inner } => {
            let mut out = String::from_str(encoder);
            out.append(".array(");
            out.append(field.ident.as_str());
            out.append(", |");
            out.append(encoder);
            out.append(", ");
            out.append(inner.ident.as_str());
            out.append("| ");
            out.append(encode_field(inner, encoder).as_str());
            out.append(")");
            out
        },
        Encoding::Enum { inner } => match &inner.encoding {
            Encoding::ArrayOfT { inner: element } => {
                let mut out = String::from_str("{ let tmp: Vec<");
                out.append(container_type(&element.ty).as_str());
                out.append("> = ");
                out.append(field.ident.as_str());
                out.append(".iter().map(|x| x.to_value::<");
                out.append(container_type(&element.ty).as_str());
                out.append(">()).collect(); let ");
                out.append(inner.ident.as_str());
                out.append(" = &tmp; ");
                out.append(encode_field(inner, encoder).as_str());
                out.append(" }");
                out
            },
            _ => {
                let mut out = String::from_str("{ let tmp = ");
                out.append(field.ident.as_str());
                out.append(".to_value::<");
                out.append(container_type(&inner.ty).as_str());
                out.append(">(); let ");
                out.append(inner.ident.as_str());
                out.append(" = &tmp; ");
                out.append(encode_field(inner, encoder).as_str());
                out.append(" }");
                out
            },
        },
        Encoding::Manual => {
            let mut out = String::from_str(encoder);
            out.append(".write(");
            out.append(field.ident.as_str());
            out.append(")");
            out
        },
    }
}


/// The declarations of the fields of a record, each with a comma behind it.
pub open spec fn field_defs_text(items: Seq<FieldView>) -> Seq<char>
    decreases items.len(),
{
    if items.len() == 0 {
        Seq::empty()
    } else {
        let field = items.last();
        field_defs_text(items.drop_last()) + define_field_text(field)
    + ", "@
    }
}

fn field_defs(items: &Vec<Field>) -> (r: String)
    ensures
        r@ == field_defs_text(items.deep_view()),
{
    let mut out = String::new();
    let mut i: usize = 0;
    assert(items.deep_view().take(0) =~= Seq::<FieldView>::empty());
    while i < items.len()
        invariant
            i <= items.len(),
            out@ == field_defs_text(items.deep_view().take(i as int)),
        decreases items.len() - i,
    {
        let field = &items[i];
        assert(items.deep_view().take(i + 1).drop_last() =~= items.deep_view().take(i as int));
        assert(items.deep_view().take(i + 1).last() == field.deep_view());
        out.append(define_field(field).as_str());
        out.append(", ");
        i += 1;
    }
    assert(items.deep_view().take(items.len() as int) =~= items.deep_view());
    out
}


/// The names of the fields of a record, each with a comma behind it.
pub open spec fn field_names_text(items: Seq<FieldView>) -> Seq<char>
    decreases items.len(),
{
    if items.len() == 0 {
        Seq::empty()
    } else {
        let field = items.last();
        field_names_text(items.drop_last()) + field.ident
    + ", "@
    }
}

fn field_names(items: &Vec<Field>) -> (r: String)
    ensures
        r@ == field_names_text(items.deep_view()),
{
    let mut out = String::new();
    let mut i: usize = 0;
    assert(items.deep_view().take(0) =~= Seq::<FieldView>::empty());
    while i < items.len()
        invariant
            i <= items.len(),
            out@ == field_names_text(items.deep_view().take(i as int)),
        decreases items.len() - i,
    {
        let field = &items[i];
        assert(items.deep_view().take(i + 1).drop_last() =~= items.deep_view().take(i as int));
        assert(items.deep_view().take(i + 1).last() == field.deep_view());
        out.append(field.ident.as_str());
        out.append(", ");
        i += 1;
    }
    assert(items.deep_view().take(items.len() as int) =~= items.deep_view());
    out
}


/// The statements that decode the fields of a record in order, each into a local of the field's name.
pub open spec fn decode_lets_text(items: Seq<FieldView>, decoder: Seq<char>) -> Seq<char>
    decreases items.len(),
{
    if items.len() == 0 {
        Seq::empty()
    } else {
        let field = items.last();
        decode_lets_text(items.drop_last(), decoder) + "let "@
    + field.ident
    + " = "@
    + decode_field_text(field, decoder)
    + "?; "@
    }
}

fn decode_lets(items: &Vec<Field>, decoder: &str) -> (r: String)
    ensures
        r@ == decode_lets_text(items.deep_view(), decoder@),
{
    let mut out = String::new();
    let mut i: usize = 0;
    assert(items.deep_view().take(0) =~= Seq::<FieldView>::empty());
    while i < items.len()
        invariant
            i <= items.len(),
            out@ == decode_lets_text(items.deep_view().take(i as int), decoder@),
        decreases items.len() - i,
    {
        let field = &items[i];
        assert(items.deep_view().take(i + 1).drop_last() =~= items.deep_view().take(i as int));
        assert(items.deep_view().take(i + 1).last() == field.deep_view());
        out.append("let ");
        out.append(field.ident.as_str());
        out.append(" = ");
        out.append(decode_field(field, decoder).as_str());
        out.append("?; ");
        i += 1;
    }
    assert(items.deep_view().take(items.len() as int) =~= items.deep_view());
    out
}


/// The fields of a record, each decoded in its place.
pub open spec fn decode_inits_text(items: Seq<FieldView>, decoder: Seq<char>) -> Seq<char>
    decreases items.len(),
{
    if items.len() == 0 {
        Seq::empty()
    } else {
        let field = items.last();
        decode_inits_text(items.drop_last(), decoder) + field.ident
    + ": "@
    + decode_field_text(field, decoder)
    + "?, "@
    }
}

fn decode_inits(items: &Vec<Field>, decoder: &str) -> (r: String)
    ensures
        r@ == decode_inits_text(items.deep_view(), decoder@),
{
    let mut out = String::new();
    let mut i: usize = 0;
    assert(items.deep_view().take(0) =~= Seq::<FieldView>::empty());
    while i < items.len()
        invariant
            i <= items.len(),
            out@ == decode_inits_text(items.deep_view().take(i as int), decoder@),
        decreases items.len() - i,
    {
        let field = &items[i];
        assert(items.deep_view().take(i + 1).drop_last() =~= items.deep_view().take(i as int));
        assert(items.deep_view().take(i + 1).last() == field.deep_view());
        out.append(field.ident.as_str());
        out.append(": ");
        out.append(decode_field(field, decoder).as_str());
        out.append("?, ");
        i += 1;
    }
    assert(items.deep_view().take(items.len() as int) =~= items.deep_view());
    out
}


/// The statements that encode the fields of a record in order.
pub open spec fn encode_stmts_text(items: Seq<FieldView>, encoder: Seq<char>) -> Seq<char>
    decreases items.len(),
{
    if items.len() == 0 {
        Seq::empty()
    } else {
        let field = items.last();
        encode_stmts_text(items.drop_last(), encoder) + "let "@
    + field.ident
    + " = &self."@
    + field.ident
    + "; "@
    + encode_field_text(field, encoder)
    + "; "@
    }
}

fn encode_stmts(items: &Vec<Field>, encoder: &str) -> (r: String)
    ensures
        r@ == encode_stmts_text(items.deep_view(), encoder@),
{
    let mut out = String::new();
    let mut i: usize = 0;
    assert(items.deep_view().take(0) =~= Seq::<FieldView>::empty());
    while i < items.len()
        invariant
            i <= items.len(),
            out@ == encode_stmts_text(items.deep_view().take(i as int), encoder@),
        decreases items.len() - i,
    {
        let field = &items[i];
        assert(items.deep_view().take(i + 1).drop_last() =~= items.deep_view().take(i as int));
        assert(items.deep_view().take(i + 1).last() == field.deep_view());
        out.append("let ");
        out.append(field.ident.as_str());
        out.append(" = &self.");
        out.append(field.ident.as_str());
        out.append("; ");
        out.append(encode_field(field, encoder).as_str());
        out.append("; ");
        i += 1;
    }
    assert(items.deep_view().take(items.len() as int) =~= items.deep_view());
    out
}


/// The record of a message with its codec: the fields are decoded and encoded in the order of their declaration, and what the fields leave of the payload is handed back.
pub open spec fn define_message_text(id: u16, ident: Seq<char>, fields: Seq<FieldView>) -> Seq<char> {
    "#[derive(Debug, Eq, PartialEq)] pub struct "@
        + ident
        + " { "@
        + field_defs_text(fields)
        + "} impl crate::LLRPMessage for "@
        + ident
        + " { const ID: u16 = "@
        + decimal(id as nat)
        + "u16; fn decode(data: &[u8]) -> crate::Result<(Self, &[u8])> { let mut decoder = Decoder::new(data); "@
        + decode_lets_text(fields, "decoder"@)
        + "let __result = "@
        + ident
        + " { "@
        + field_names_text(fields)
        + "}; Ok((__result, decoder.bytes)) } fn encode(&self, buffer: &mut Vec<u8>) { let mut encoder = Encoder::new(buffer); "@
        + encode_stmts_text(fields, "encoder"@)
        + "} }"@
}

/// Emits the record of a message with its codec.
pub fn define_message(id: u16, ident: &str, fields: &Vec<Field>) -> (r: String)
    ensures
        r@ == define_message_text(id, ident@, fields.deep_view()),
{
    let mut out = String::from_str("#[derive(Debug, Eq, PartialEq)] pub struct ");
    out.append(ident);
    out.append(" { ");
    out.append(field_defs(fields).as_str());
    out.append("} impl crate::LLRPMessage for ");
    out.append(ident);
    out.append(" { const ID: u16 = ");
    append_decimal(&mut out, id as u64);
    out.append("u16; fn decode(data: &[u8]) -> crate::Result<(Self, &[u8])> { let mut decoder = Decoder::new(data); ");
    out.append(decode_lets(fields, "decoder").as_str());
    out.append("let __result = ");
    out.append(ident);
    out.append(" { ");
    out.append(field_names(fields).as_str());
    out.append("}; Ok((__result, decoder.bytes)) } fn encode(&self, buffer: &mut Vec<u8>) { let mut encoder = Encoder::new(buffer); ");
    out.append(encode_stmts(fields, "encoder").as_str());
    out.append("} }");
    out
}


/// The record of a TLV parameter with its codec: the body is decoded inside the parameter's frame, field by field, and must be used up; the encoder writes the frame around the fields.
pub open spec fn define_parameter_text(id: u16, ident: Seq<char>, fields: Seq<FieldView>) -> Seq<char> {
    "#[derive(Debug, Eq, PartialEq)] pub struct "@
        + ident
        + " { "@
        + field_defs_text(fields)
        + "} impl crate::TlvParameter for "@
        + ident
        + " { const ID: u16 = "@
        + decimal(id as nat)
        + "u16; } impl crate::LLRPValue for "@
        + ident
        + " { fn decode(decoder: &mut Decoder) -> crate::Result<Self> { decoder.tlv_param("@
        + decimal(id as nat)
        + "u16, |decoder| { "@
        + decode_lets_text(fields, "decoder"@)
        + "Ok("@
        + ident
        + " { "@
        + field_names_text(fields)
        + "}) }) } fn encode(&self, encoder: &mut Encoder) { encoder.tlv_param("@
        + decimal(id as nat)
        + "u16, |encoder| { "@
        + encode_stmts_text(fields, "encoder"@)
        + "}); } fn can_decode_type(type_num: u16) -> bool { type_num == "@
        + decimal(id as nat)
        + "u16 } }"@
}

/// Emits the record of a TLV parameter with its codec.
pub fn define_parameter(id: u16, ident: &str, fields: &Vec<Field>) -> (r: String)
    ensures
        r@ == define_parameter_text(id, ident@, fields.deep_view()),
{
    let mut out = String::from_str("#[derive(Debug, Eq, PartialEq)] pub struct ");
    out.append(ident);
    out.append(" { ");
    out.append(field_defs(fields).as_str());
    out.append("} impl crate::TlvParameter for ");
    out.append(ident);
    out.append(" { const ID: u16 = ");
    append_decimal(&mut out, id as u64);
    out.append("u16; } impl crate::LLRPValue for ");
    out.append(ident);
    out.append(" { fn decode(decoder: &mut Decoder) -> crate::Result<Self> { decoder.tlv_param(");
    append_decimal(&mut out, id as u64);
    out.append("u16, |decoder| { ");
    out.append(decode_lets(fields, "decoder").as_str());
    out.append("Ok(");
    out.append(ident);
    out.append(" { ");
    out.append(field_names(fields).as_str());
    out.append("}) }) } fn encode(&self, encoder: &mut Encoder) { encoder.tlv_param(");
    append_decimal(&mut out, id as u64);
    out.append("u16, |encoder| { ");
    out.append(encode_stmts(fields, "encoder").as_str());
    out.append("}); } fn can_decode_type(type_num: u16) -> bool { type_num == ");
    append_decimal(&mut out, id as u64);
    out.append("u16 } }");
    out
}


/// The definition of a TV parameter: an alias for the type of its field
/// where it has exactly one, else a record whose fields are decoded in
/// order. The header is not its part: who reads the parameter reads that.
pub open spec fn define_tv_parameter_text(id: u8, ident: Seq<char>, fields: Seq<FieldView>) -> Seq<char> {
    if fields.len() == 1 {
        "pub type "@
            + ident
            + " = "@
            + container_text(fields[0].ty)
            + ";"@
    } else {
        "#[derive(Debug, Eq, PartialEq)] pub struct "@
            + ident
            + " { "@
            + field_defs_text(fields)
            + "} impl crate::LLRPValue for "@
            + ident
            + " { fn decode(decoder: &mut Decoder) -> crate::Result<Self> { Ok("@
            + ident
            + " { "@
            + decode_inits_text(fields, "decoder"@)
            + "}) } fn can_decode_type(type_num: u16) -> bool { type_num == "@
            + decimal(id as nat)
            + "u8 as u16 } }"@
    }
}

/// Emits the definition of a TV parameter.
pub fn define_tv_parameter(id: u8, ident: &str, fields: &Vec<Field>) -> (r: String)
    ensures
        r@ == define_tv_parameter_text(id, ident@, fields.deep_view()),
{
    if fields.len() == 1 {
        let mut out = String::from_str("pub type ");
        out.append(ident);
        out.append(" = ");
        out.append(container_type(&fields[0].ty).as_str());
        out.append(";");
        out
    } else {
        let mut out = String::from_str("#[derive(Debug, Eq, PartialEq)] pub struct ");
        out.append(ident);
        out.append(" { ");
        out.append(field_defs(fields).as_str());
        out.append("} impl crate::LLRPValue for ");
        out.append(ident);
        out.append(" { fn decode(decoder: &mut Decoder) -> crate::Result<Self> { Ok(");
        out.append(ident);
        out.append(" { ");
        out.append(decode_inits(fields, "decoder").as_str());
        out.append("}) } fn can_decode_type(type_num: u16) -> bool { type_num == ");
        append_decimal(&mut out, id as u64);
        out.append("u8 as u16 } }");
        out
    }
}


/// The variants of an enumeration with their numbers.
pub open spec fn variant_defs_text(items: Seq<EnumVariantView>) -> Seq<char>
    decreases items.len(),
{
    if items.len() == 0 {
        Seq::empty()
    } else {
        let variant = items.last();
        variant_defs_text(items.drop_last()) + variant.ident
    + " = "@
    + decimal(variant.value as nat)
    + ", "@
    }
}

fn variant_defs(items: &Vec<EnumVariant>) -> (r: String)
    ensures
        r@ == variant_defs_text(items.deep_view()),
{
    let mut out = String::new();
    let mut i: usize = 0;
    assert(items.deep_view().take(0) =~= Seq::<EnumVariantView>::empty());
    while i < items.len()
        invariant
            i <= items.len(),
            out@ == variant_defs_text(items.deep_view().take(i as int)),
        decreases items.len() - i,
    {
        let variant = &items[i];
        assert(items.deep_view().take(i + 1).drop_last() =~= items.deep_view().take(i as int));
        assert(items.deep_view().take(i + 1).last() == variant.deep_view());
        out.append(variant.ident.as_str());
        out.append(" = ");
        append_decimal(&mut out, variant.value as u64);
        out.append(", ");
        i += 1;
    }
    assert(items.deep_view().take(items.len() as int) =~= items.deep_view());
    out
}


/// The arms that map a number to its variant.
pub open spec fn variant_decodes_text(items: Seq<EnumVariantView>) -> Seq<char>
    decreases items.len(),
{
    if items.len() == 0 {
        Seq::empty()
    } else {
        let variant = items.last();
        variant_decodes_text(items.drop_last()) + decimal(variant.value as nat)
    + " => Self::"@
    + variant.ident
    + ", "@
    }
}

fn variant_decodes(items: &Vec<EnumVariant>) -> (r: String)
    ensures
        r@ == variant_decodes_text(items.deep_view()),
{
    let mut out = String::new();
    let mut i: usize = 0;
    assert(items.deep_view().take(0) =~= Seq::<EnumVariantView>::empty());
    while i < items.len()
        invariant
            i <= items.len(),
            out@ == variant_decodes_text(items.deep_view().take(i as int)),
        decreases items.len() - i,
    {
        let variant = &items[i];
        assert(items.deep_view().take(i + 1).drop_last() =~= items.deep_view().take(i as int));
        assert(items.deep_view().take(i + 1).last() == variant.deep_view());
        append_decimal(&mut out, variant.value as u64);
        out.append(" => Self::");
        out.append(variant.ident.as_str());
        out.append(", ");
        i += 1;
    }
    assert(items.deep_view().take(items.len() as int) =~= items.deep_view());
    out
}


/// The arms that map a variant to its number.
pub open spec fn variant_encodes_text(items: Seq<EnumVariantView>) -> Seq<char>
    decreases items.len(),
{
    if items.len() == 0 {
        Seq::empty()
    } else {
        let variant = items.last();
        variant_encodes_text(items.drop_last()) + "Self::"@
    + variant.ident
    + " => "@
    + decimal(variant.value as nat)
    + " as u32, "@
    }
}

fn variant_encodes(items: &Vec<EnumVariant>) -> (r: String)
    ensures
        r@ == variant_encodes_text(items.deep_view()),
{
    let mut out = String::new();
    let mut i: usize = 0;
    assert(items.deep_view().take(0) =~= Seq::<EnumVariantView>::empty());
    while i < items.len()
        invariant
            i <= items.len(),
            out@ == variant_encodes_text(items.deep_view().take(i as int)),
        decreases items.len() - i,
    {
        let variant = &items[i];
        assert(items.deep_view().take(i + 1).drop_last() =~= items.deep_view().take(i as int));
        assert(items.deep_view().take(i + 1).last() == variant.deep_view());
        out.append("Self::");
        out.append(variant.ident.as_str());
        out.append(" => ");
        append_decimal(&mut out, variant.value as u64);
        out.append(" as u32, ");
        i += 1;
    }
    assert(items.deep_view().take(items.len() as int) =~= items.deep_view());
    out
}


/// The sum type of an enumeration with the conversions from and to its numbers; a number without a variant is refused.
pub open spec fn define_enum_text(ident: Seq<char>, variants: Seq<EnumVariantView>) -> Seq<char> {
    "#[derive(Debug, Eq, PartialEq)] pub enum "@
        + ident
        + " { "@
        + variant_defs_text(variants)
        + "} impl crate::LLRPEnumeration for "@
        + ident
        + " { fn from_value<T: Into<u32>>(value: T) -> crate::Result<Self> { let result = match value.into() { "@
        + variant_decodes_text(variants)
        + "other => return Err(crate::Error::InvalidVariant(other)), }; Ok(result) } fn to_value<T: Bits>(&self) -> T { T::from_bits(match self { "@
        + variant_encodes_text(variants)
        + "}) } }"@
}

/// Emits the sum type of an enumeration with its conversions.
pub fn define_enum(ident: &str, variants: &Vec<EnumVariant>) -> (r: String)
    ensures
        r@ == define_enum_text(ident@, variants.deep_view()),
{
    let mut out = String::from_str("#[derive(Debug, Eq, PartialEq)] pub enum ");
    out.append(ident);
    out.append(" { ");
    out.append(variant_defs(variants).as_str());
    out.append("} impl crate::LLRPEnumeration for ");
    out.append(ident);
    out.append(" { fn from_value<T: Into<u32>>(value: T) -> crate::Result<Self> { let result = match value.into() { ");
    out.append(variant_decodes(variants).as_str());
    out.append("other => return Err(crate::Error::InvalidVariant(other)), }; Ok(result) } fn to_value<T: Bits>(&self) -> T { T::from_bits(match self { ");
    out.append(variant_encodes(variants).as_str());
    out.append("}) } }");
    out
}


/// The type inside a container.
pub open spec fn base_type(ty: ContainerView) -> Seq<char> {
    match ty {
        ContainerView::Raw(ty) => ty,
        ContainerView::Box(ty) => ty,
        ContainerView::Option(ty) => ty,
        ContainerView::OptionBox(ty) => ty,
        ContainerView::Vec(ty) => ty,
    }
}

/// The TV type of a field, or 0 for a field with another encoding.
pub open spec fn tv_id_of(field: FieldView) -> u8 {
    match field.encoding {
        EncodingView::TvParameter { tv_id } => tv_id,
        _ => 0,
    }
}

/// Whether each case of a choice holds its type as it is or as an option.
pub open spec fn choices_supported(choices: Seq<FieldView>) -> bool {
    forall|i: int|
        0 <= i < choices.len() ==> (#[trigger] choices[i]).ty is Raw || choices[i].ty is Option
}

fn base_type_of(ty: &Container) -> (r: &str)
    ensures
        r@ == base_type(ty.deep_view()),
{
    match ty {
        Container::Raw(ty) => ty.as_str(),
        Container::Box(ty) => ty.as_str(),
        Container::Option(ty) => ty.as_str(),
        Container::OptionBox(ty) => ty.as_str(),
        Container::Vec(ty) => ty.as_str(),
    }
}

fn is_tv(field: &Field) -> (r: bool)
    ensures
        r == (field.deep_view().encoding is TvParameter),
{
    match &field.encoding {
        Encoding::TvParameter { .. } => true,
        _ => false,
    }
}

fn tv_id(field: &Field) -> (r: u8)
    ensures
        r == tv_id_of(field.deep_view()),
{
    match &field.encoding {
        Encoding::TvParameter { tv_id } => *tv_id,
        _ => 0,
    }
}

/// Whether each case of a choice holds its type as it is or as an option.
pub fn supports_choices(choices: &Vec<Field>) -> (r: bool)
    ensures
        r == choices_supported(choices.deep_view()),
{
    let mut i: usize = 0;
    while i < choices.len()
        invariant
            i <= choices.len(),
            forall|j: int|
                0 <= j < i ==> (#[trigger] choices.deep_view()[j]).ty is Raw
                    || choices.deep_view()[j].ty is Option,
        decreases choices.len() - i,
    {
        assert(choices.deep_view()[i as int] == choices[i as int].deep_view());
        match &choices[i].ty {
            Container::Raw(_) => {},
            Container::Option(_) => {},
            _ => {
                return false;
            },
        }
        i += 1;
    }
    true
}


/// The cases of a choice that are TLV parameters.
pub open spec fn tlv_cases_text(items: Seq<FieldView>) -> Seq<char>
    decreases items.len(),
{
    if items.len() == 0 {
        Seq::empty()
    } else {
        let field = items.last();
        if !(field.encoding is TvParameter) {
            tlv_cases_text(items.drop_last()) + base_type(field.ty)
    + "("@
    + base_type(field.ty)
    + "), "@
        } else {
            tlv_cases_text(items.drop_last())
        }
    }
}

fn tlv_cases(items: &Vec<Field>) -> (r: String)
    ensures
        r@ == tlv_cases_text(items.deep_view()),
{
    let mut out = String::new();
    let mut i: usize = 0;
    assert(items.deep_view().take(0) =~= Seq::<FieldView>::empty());
    while i < items.len()
        invariant
            i <= items.len(),
            out@ == tlv_cases_text(items.deep_view().take(i as int)),
        decreases items.len() - i,
    {
        let field = &items[i];
        assert(items.deep_view().take(i + 1).drop_last() =~= items.deep_view().take(i as int));
        assert(items.deep_view().take(i + 1).last() == field.deep_view());
        if !is_tv(field) {
            out.append(base_type_of(&field.ty));
            out.append("(");
            out.append(base_type_of(&field.ty));
            out.append("), ");
        }
        i += 1;
    }
    assert(items.deep_view().take(items.len() as int) =~= items.deep_view());
    out
}


/// The cases of a choice that are TV parameters.
pub open spec fn tv_cases_text(items: Seq<FieldView>) -> Seq<char>
    decreases items.len(),
{
    if items.len() == 0 {
        Seq::empty()
    } else {
        let field = items.last();
        if field.encoding is TvParameter {
            tv_cases_text(items.drop_last()) + base_type(field.ty)
    + "("@
    + base_type(field.ty)
    + "), "@
        } else {
            tv_cases_text(items.drop_last())
        }
    }
}

fn tv_cases(items: &Vec<Field>) -> (r: String)
    ensures
        r@ == tv_cases_text(items.deep_view()),
{
    let mut out = String::new();
    let mut i: usize = 0;
    assert(items.deep_view().take(0) =~= Seq::<FieldView>::empty());
    while i < items.len()
        invariant
            i <= items.len(),
            out@ == tv_cases_text(items.deep_view().take(i as int)),
        decreases items.len() - i,
    {
        let field = &items[i];
        assert(items.deep_view().take(i + 1).drop_last() =~= items.deep_view().take(i as int));
        assert(items.deep_view().take(i + 1).last() == field.deep_view());
        if is_tv(field) {
            out.append(base_type_of(&field.ty));
            out.append("(");
            out.append(base_type_of(&field.ty));
            out.append("), ");
        }
        i += 1;
    }
    assert(items.deep_view().take(items.len() as int) =~= items.deep_view());
    out
}


/// The types of the TLV cases of a choice.
pub open spec fn tlv_case_ids_text(items: Seq<FieldView>) -> Seq<char>
    decreases items.len(),
{
    if items.len() == 0 {
        Seq::empty()
    } else {
        let field = items.last();
        if !(field.encoding is TvParameter) {
            tlv_case_ids_text(items.drop_last()) + base_type(field.ty)
    + "::ID, "@
        } else {
            tlv_case_ids_text(items.drop_last())
        }
    }
}

fn tlv_case_ids(items: &Vec<Field>) -> (r: String)
    ensures
        r@ == tlv_case_ids_text(items.deep_view()),
{
    let mut out = String::new();
    let mut i: usize = 0;
    assert(items.deep_view().take(0) =~= Seq::<FieldView>::empty());
    while i < items.len()
        invariant
            i <= items.len(),
            out@ == tlv_case_ids_text(items.deep_view().take(i as int)),
        decreases items.len() - i,
    {
        let field = &items[i];
        assert(items.deep_view().take(i + 1).drop_last() =~= items.deep_view().take(i as int));
        assert(items.deep_view().take(i + 1).last() == field.deep_view());
        if !is_tv(field) {
            out.append(base_type_of(&field.ty));
            out.append("::ID, ");
        }
        i += 1;
    }
    assert(items.deep_view().take(items.len() as int) =~= items.deep_view());
    out
}


/// The types of the TV cases of a choice.
pub open spec fn tv_case_ids_text(items: Seq<FieldView>) -> Seq<char>
    decreases items.len(),
{
    if items.len() == 0 {
        Seq::empty()
    } else {
        let field = items.last();
        if field.encoding is TvParameter {
            tv_case_ids_text(items.drop_last()) + decimal(tv_id_of(field) as nat)
    + "u16, "@
        } else {
            tv_case_ids_text(items.drop_last())
        }
    }
}

fn tv_case_ids(items: &Vec<Field>) -> (r: String)
    ensures
        r@ == tv_case_ids_text(items.deep_view()),
{
    let mut out = String::new();
    let mut i: usize = 0;
    assert(items.deep_view().take(0) =~= Seq::<FieldView>::empty());
    while i < items.len()
        invariant
            i <= items.len(),
            out@ == tv_case_ids_text(items.deep_view().take(i as int)),
        decreases items.len() - i,
    {
        let field = &items[i];
        assert(items.deep_view().take(i + 1).drop_last() =~= items.deep_view().take(i as int));
        assert(items.deep_view().take(i + 1).last() == field.deep_view());
        if is_tv(field) {
            append_decimal(&mut out, tv_id(field) as u64);
            out.append("u16, ");
        }
        i += 1;
    }
    assert(items.deep_view().take(items.len() as int) =~= items.deep_view());
    out
}


/// The arms that decode the TV cases of a choice, each by its seven-bit type.
pub open spec fn tv_case_decodes_text(items: Seq<FieldView>) -> Seq<char>
    decreases items.len(),
{
    if items.len() == 0 {
        Seq::empty()
    } else {
        let field = items.last();
        if field.encoding is TvParameter {
            tv_case_decodes_text(items.drop_last()) + decimal(tv_id_of(field) as nat)
    + "u16 => Ok(Self::"@
    + base_type(field.ty)
    + "(decoder.read_tv("@
    + decimal(tv_id_of(field) as nat)
    + "u8)?)), "@
        } else {
            tv_case_decodes_text(items.drop_last())
        }
    }
}

fn tv_case_decodes(items: &Vec<Field>) -> (r: String)
    ensures
        r@ == tv_case_decodes_text(items.deep_view()),
{
    let mut out = String::new();
    let mut i: usize = 0;
    assert(items.deep_view().take(0) =~= Seq::<FieldView>::empty());
    while i < items.len()
        invariant
            i <= items.len(),
            out@ == tv_case_decodes_text(items.deep_view().take(i as int)),
        decreases items.len() - i,
    {
        let field = &items[i];
        assert(items.deep_view().take(i + 1).drop_last() =~= items.deep_view().take(i as int));
        assert(items.deep_view().take(i + 1).last() == field.deep_view());
        if is_tv(field) {
            append_decimal(&mut out, tv_id(field) as u64);
            out.append("u16 => Ok(Self::");
            out.append(base_type_of(&field.ty));
            out.append("(decoder.read_tv(");
            append_decimal(&mut out, tv_id(field) as u64);
            out.append("u8)?)), ");
        }
        i += 1;
    }
    assert(items.deep_view().take(items.len() as int) =~= items.deep_view());
    out
}


/// The arms that decode the TLV cases of a choice, each by its ten-bit type.
pub open spec fn tlv_case_decodes_text(items: Seq<FieldView>) -> Seq<char>
    decreases items.len(),
{
    if items.len() == 0 {
        Seq::empty()
    } else {
        let field = items.last();
        if !(field.encoding is TvParameter) {
            tlv_case_decodes_text(items.drop_last()) + "type_num if type_num == "@
    + base_type(field.ty)
    + "::ID => { Ok(Self::"@
    + base_type(field.ty)
    + "(decoder.read()?)) }, "@
        } else {
            tlv_case_decodes_text(items.drop_last())
        }
    }
}

fn tlv_case_decodes(items: &Vec<Field>) -> (r: String)
    ensures
        r@ == tlv_case_decodes_text(items.deep_view()),
{
    let mut out = String::new();
    let mut i: usize = 0;
    assert(items.deep_view().take(0) =~= Seq::<FieldView>::empty());
    while i < items.len()
        invariant
            i <= items.len(),
            out@ == tlv_case_decodes_text(items.deep_view().take(i as int)),
        decreases items.len() - i,
    {
        let field = &items[i];
        assert(items.deep_view().take(i + 1).drop_last() =~= items.deep_view().take(i as int));
        assert(items.deep_view().take(i + 1).last() == field.deep_view());
        if !is_tv(field) {
            out.append("type_num if type_num == ");
            out.append(base_type_of(&field.ty));
            out.append("::ID => { Ok(Self::");
            out.append(base_type_of(&field.ty));
            out.append("(decoder.read()?)) }, ");
        }
        i += 1;
    }
    assert(items.deep_view().take(items.len() as int) =~= items.deep_view());
    out
}


/// The arms that encode the TV cases of a choice.
pub open spec fn tv_case_encodes_text(items: Seq<FieldView>) -> Seq<char>
    decreases items.len(),
{
    if items.len() == 0 {
        Seq::empty()
    } else {
        let field = items.last();
        if field.encoding is TvParameter {
            tv_case_encodes_text(items.drop_last()) + "Self::"@
    + base_type(field.ty)
    + "(value) => value.encode_tv(encoder, "@
    + decimal(tv_id_of(field) as nat)
    + "u8), "@
        } else {
            tv_case_encodes_text(items.drop_last())
        }
    }
}

fn tv_case_encodes(items: &Vec<Field>) -> (r: String)
    ensures
        r@ == tv_case_encodes_text(items.deep_view()),
{
    let mut out = String::new();
    let mut i: usize = 0;
    assert(items.deep_view().take(0) =~= Seq::<FieldView>::empty());
    while i < items.len()
        invariant
            i <= items.len(),
            out@ == tv_case_encodes_text(items.deep_view().take(i as int)),
        decreases items.len() - i,
    {
        let field = &items[i];
        assert(items.deep_view().take(i + 1).drop_last() =~= items.deep_view().take(i as int));
        assert(items.deep_view().take(i + 1).last() == field.deep_view());
        if is_tv(field) {
            out.append("Self::");
            out.append(base_type_of(&field.ty));
            out.append("(value) => value.encode_tv(encoder, ");
            append_decimal(&mut out, tv_id(field) as u64);
            out.append("u8), ");
        }
        i += 1;
    }
    assert(items.deep_view().take(items.len() as int) =~= items.deep_view());
    out
}


/// The arms that encode the TLV cases of a choice.
pub open spec fn tlv_case_encodes_text(items: Seq<FieldView>) -> Seq<char>
    decreases items.len(),
{
    if items.len() == 0 {
        Seq::empty()
    } else {
        let field = items.last();
        if !(field.encoding is TvParameter) {
            tlv_case_encodes_text(items.drop_last()) + "Self::"@
    + base_type(field.ty)
    + "(value) => value.encode(encoder), "@
        } else {
            tlv_case_encodes_text(items.drop_last())
        }
    }
}

fn tlv_case_encodes(items: &Vec<Field>) -> (r: String)
    ensures
        r@ == tlv_case_encodes_text(items.deep_view()),
{
    let mut out = String::new();
    let mut i: usize = 0;
    assert(items.deep_view().take(0) =~= Seq::<FieldView>::empty());
    while i < items.len()
        invariant
            i <= items.len(),
            out@ == tlv_case_encodes_text(items.deep_view().take(i as int)),
        decreases items.len() - i,
    {
        let field = &items[i];
        assert(items.deep_view().take(i + 1).drop_last() =~= items.deep_view().take(i as int));
        assert(items.deep_view().take(i + 1).last() == field.deep_view());
        if !is_tv(field) {
            out.append("Self::");
            out.append(base_type_of(&field.ty));
            out.append("(value) => value.encode(encoder), ");
        }
        i += 1;
    }
    assert(items.deep_view().take(items.len() as int) =~= items.deep_view());
    out
}


/// The conversions that lift each TLV case into the choice `owner`.
pub open spec fn case_conversions_text(items: Seq<FieldView>, owner: Seq<char>) -> Seq<char>
    decreases items.len(),
{
    if items.len() == 0 {
        Seq::empty()
    } else {
        let field = items.last();
        if !(field.encoding is TvParameter) {
            case_conversions_text(items.drop_last(), owner) + "impl From<"@
    + base_type(field.ty)
    + "> for "@
    + owner
    + " { fn from(value: "@
    + base_type(field.ty)
    + ") -> "@
    + owner
    + " { "@
    + owner
    + "::"@
    + base_type(field.ty)
    + "(value) } } "@
        } else {
            case_conversions_text(items.drop_last(), owner)
        }
    }
}

fn case_conversions(items: &Vec<Field>, owner: &str) -> (r: String)
    ensures
        r@ == case_conversions_text(items.deep_view(), owner@),
{
    let mut out = String::new();
    let mut i: usize = 0;
    assert(items.deep_view().take(0) =~= Seq::<FieldView>::empty());
    while i < items.len()
        invariant
            i <= items.len(),
            out@ == case_conversions_text(items.deep_view().take(i as int), owner@),
        decreases items.len() - i,
    {
        let field = &items[i];
        assert(items.deep_view().take(i + 1).drop_last() =~= items.deep_view().take(i as int));
        assert(items.deep_view().take(i + 1).last() == field.deep_view());
        if !is_tv(field) {
            out.append("impl From<");
            out.append(base_type_of(&field.ty));
            out.append("> for ");
            out.append(owner);
            out.append(" { fn from(value: ");
            out.append(base_type_of(&field.ty));
            out.append(") -> ");
            out.append(owner);
            out.append(" { ");
            out.append(owner);
            out.append("::");
            out.append(base_type_of(&field.ty));
            out.append("(value) } } ");
        }
        i += 1;
    }
    assert(items.deep_view().take(items.len() as int) =~= items.deep_view());
    out
}


/// The tagged union of a choice with its codec. A header is accepted if it carries the type of any case; the decoder looks at the header and hands over to the case it names, TV cases by their seven-bit type and TLV cases by their ten-bit type; the encoder hands over to the case at hand.
pub open spec fn define_choice_text(ident: Seq<char>, choices: Seq<FieldView>) -> Seq<char> {
    "#[derive(Debug, Eq, PartialEq)] pub enum "@
        + ident
        + " { "@
        + tlv_cases_text(choices)
        + tv_cases_text(choices)
        + "} impl crate::LLRPValue for "@
        + ident
        + " { fn can_decode_type(type_num: u16) -> bool { ["@
        + tlv_case_ids_text(choices)
        + tv_case_ids_text(choices)
        + "].contains(&type_num) } fn decode(decoder: &mut Decoder) -> Result<Self> { let type_num = decoder.peek_param_type()?.as_u16(); match type_num { "@
        + tv_case_decodes_text(choices)
        + tlv_case_decodes_text(choices)
        + "_ => Err(crate::Error::InvalidType(type_num)), } } fn encode(&self, encoder: &mut Encoder) { match self { "@
        + tv_case_encodes_text(choices)
        + tlv_case_encodes_text(choices)
        + "} } } "@
        + case_conversions_text(choices, ident)
}

/// Emits the tagged union of a choice with its codec.
pub fn define_choice(ident: &str, choices: &Vec<Field>) -> (r: String)
    requires
        choices_supported(choices.deep_view()),
    ensures
        r@ == define_choice_text(ident@, choices.deep_view()),
{
    let mut out = String::from_str("#[derive(Debug, Eq, PartialEq)] pub enum ");
    out.append(ident);
    out.append(" { ");
    out.append(tlv_cases(choices).as_str());
    out.append(tv_cases(choices).as_str());
    out.append("} impl crate::LLRPValue for ");
    out.append(ident);
    out.append(" { fn can_decode_type(type_num: u16) -> bool { [");
    out.append(tlv_case_ids(choices).as_str());
    out.append(tv_case_ids(choices).as_str());
    out.append("].contains(&type_num) } fn decode(decoder: &mut Decoder) -> Result<Self> { let type_num = decoder.peek_param_type()?.as_u16(); match type_num { ");
    out.append(tv_case_decodes(choices).as_str());
    out.append(tlv_case_decodes(choices).as_str());
    out.append("_ => Err(crate::Error::InvalidType(type_num)), } } fn encode(&self, encoder: &mut Encoder) { match self { ");
    out.append(tv_case_encodes(choices).as_str());
    out.append(tlv_case_encodes(choices).as_str());
    out.append("} } } ");
    out.append(case_conversions(choices, ident).as_str());
    out
}


/// The cases of the message dispatcher: one for each message definition.
pub open spec fn message_cases_text(items: Seq<DefinitionView>) -> Seq<char>
    decreases items.len(),
{
    if items.len() == 0 {
        Seq::empty()
    } else {
        let def = items.last();
        if def is Message {
            message_cases_text(items.drop_last()) + def->Message_ident
    + "("@
    + def->Message_ident
    + "), "@
        } else {
            message_cases_text(items.drop_last())
        }
    }
}

fn message_cases(items: &Vec<Definition>) -> (r: String)
    ensures
        r@ == message_cases_text(items.deep_view()),
{
    let mut out = String::new();
    let mut i: usize = 0;
    assert(items.deep_view().take(0) =~= Seq::<DefinitionView>::empty());
    while i < items.len()
        invariant
            i <= items.len(),
            out@ == message_cases_text(items.deep_view().take(i as int)),
        decreases items.len() - i,
    {
        let def = &items[i];
        assert(items.deep_view().take(i + 1).drop_last() =~= items.deep_view().take(i as int));
        assert(items.deep_view().take(i + 1).last() == def.deep_view());
        if is_message(def) {
            out.append(message_ident(def));
            out.append("(");
            out.append(message_ident(def));
            out.append("), ");
        }
        i += 1;
    }
    assert(items.deep_view().take(items.len() as int) =~= items.deep_view());
    out
}


/// The arms of the message dispatcher: each message type leads to the decoder of its message.
pub open spec fn message_arms_text(items: Seq<DefinitionView>) -> Seq<char>
    decreases items.len(),
{
    if items.len() == 0 {
        Seq::empty()
    } else {
        let def = items.last();
        if def is Message {
            message_arms_text(items.drop_last()) + decimal(def->Message_id as nat)
    + "u16 => Ok(Self::"@
    + def->Message_ident
    + "("@
    + def->Message_ident
    + "::decode(payload)?.0)), "@
        } else {
            message_arms_text(items.drop_last())
        }
    }
}

fn message_arms(items: &Vec<Definition>) -> (r: String)
    ensures
        r@ == message_arms_text(items.deep_view()),
{
    let mut out = String::new();
    let mut i: usize = 0;
    assert(items.deep_view().take(0) =~= Seq::<DefinitionView>::empty());
    while i < items.len()
        invariant
            i <= items.len(),
            out@ == message_arms_text(items.deep_view().take(i as int)),
        decreases items.len() - i,
    {
        let def = &items[i];
        assert(items.deep_view().take(i + 1).drop_last() =~= items.deep_view().take(i as int));
        assert(items.deep_view().take(i + 1).last() == def.deep_view());
        if is_message(def) {
            append_decimal(&mut out, message_id(def) as u64);
            out.append("u16 => Ok(Self::");
            out.append(message_ident(def));
            out.append("(");
            out.append(message_ident(def));
            out.append("::decode(payload)?.0)), ");
        }
        i += 1;
    }
    assert(items.deep_view().take(items.len() as int) =~= items.deep_view());
    out
}


fn is_message(def: &Definition) -> (r: bool)
    ensures
        r == (def.deep_view() is Message),
{
    match def {
        Definition::Message { .. } => true,
        _ => false,
    }
}

fn message_ident(def: &Definition) -> (r: &str)
    requires
        def.deep_view() is Message,
    ensures
        r@ == def.deep_view()->Message_ident,
{
    match def {
        Definition::Message { ident, .. } => ident.as_str(),
        _ => "",
    }
}

fn message_id(def: &Definition) -> (r: u16)
    requires
        def.deep_view() is Message,
    ensures
        r == def.deep_view()->Message_id,
{
    match def {
        Definition::Message { id, .. } => *id,
        _ => 0,
    }
}


/// The top-level dispatcher: a sum type over all messages, and a decoder that takes the low sixteen bits of the message type to the message; a type that no message has is refused.
pub open spec fn message_enum_text(definitions: Seq<DefinitionView>) -> Seq<char> {
    "pub enum Message { "@
        + message_cases_text(definitions)
        + "} impl Message { pub fn decode(message_id: u32, payload: &[u8]) -> crate::Result<Message> { match message_id as u16 { "@
        + message_arms_text(definitions)
        + "_ => Err(crate::Error::UnknownMessageId(message_id)) } } }"@
}

/// Emits the top-level dispatcher.
fn message_enum(definitions: &Vec<Definition>) -> (r: String)
    ensures
        r@ == message_enum_text(definitions.deep_view()),
{
    let mut out = String::from_str("pub enum Message { ");
    out.append(message_cases(definitions).as_str());
    out.append("} impl Message { pub fn decode(message_id: u32, payload: &[u8]) -> crate::Result<Message> { match message_id as u16 { ");
    out.append(message_arms(definitions).as_str());
    out.append("_ => Err(crate::Error::UnknownMessageId(message_id)) } } }");
    out
}

/// The emitted source, one text for each definition, by kind, and the
/// dispatcher over the messages.
#[derive(Debug)]
pub struct GeneratedCode {
    pub messages: Vec<String>,
    pub message_enum: String,
    pub parameters: Vec<String>,
    pub enumerations: Vec<String>,
    pub choices: Vec<String>,
}

/// The model of a `GeneratedCode`.
pub struct GeneratedCodeView {
    pub messages: Seq<Seq<char>>,
    pub message_enum: Seq<char>,
    pub parameters: Seq<Seq<char>>,
    pub enumerations: Seq<Seq<char>>,
    pub choices: Seq<Seq<char>>,
}

impl DeepView for GeneratedCode {
    type V = GeneratedCodeView;

    open spec fn deep_view(&self) -> GeneratedCodeView {
        GeneratedCodeView {
            messages: self.messages.deep_view(),
            message_enum: self.message_enum@,
            parameters: self.parameters.deep_view(),
            enumerations: self.enumerations.deep_view(),
            choices: self.choices.deep_view(),
        }
    }
}

/// Whether every choice among the definitions can be emitted.
pub open spec fn definitions_supported(definitions: Seq<DefinitionView>) -> bool {
    forall|i: int|
        0 <= i < definitions.len() ==> (#[trigger] definitions[i] matches DefinitionView::Choice {
            choices,
            ..
        } ==> choices_supported(choices))
}

/// Whether every choice among the definitions can be emitted.
pub fn supports_definitions(definitions: &Vec<Definition>) -> (r: bool)
    ensures
        r == definitions_supported(definitions.deep_view()),
{
    let mut i: usize = 0;
    while i < definitions.len()
        invariant
            i <= definitions.len(),
            forall|j: int|
                0 <= j < i ==> (#[trigger] definitions.deep_view()[j] matches DefinitionView::Choice {
                    choices,
                    ..
                } ==> choices_supported(choices)),
        decreases definitions.len() - i,
    {
        assert(definitions.deep_view()[i as int] == definitions[i as int].deep_view());
        if let Definition::Choice { choices, .. } = &definitions[i] {
            if !supports_choices(choices) {
                return false;
            }
        }
        i += 1;
    }
    true
}

/// The emitted texts of one kind: what `emit` gives for each definition
/// that it has a text for, in order.
pub open spec fn emitted(
    definitions: Seq<DefinitionView>,
    emit: spec_fn(DefinitionView) -> Option<Seq<char>>,
) -> Seq<Seq<char>>
    decreases definitions.len(),
{
    if definitions.len() == 0 {
        Seq::empty()
    } else {
        let front = emitted(definitions.drop_last(), emit);
        match emit(definitions.last()) {
            Some(text) => front.push(text),
            None => front,
        }
    }
}

/// The text of a message definition.
pub open spec fn message_of(def: DefinitionView) -> Option<Seq<char>> {
    match def {
        DefinitionView::Message { id, ident, fields } => Some(define_message_text(id, ident, fields)),
        _ => None,
    }
}

/// The text of a parameter definition, TLV or TV.
pub open spec fn parameter_of(def: DefinitionView) -> Option<Seq<char>> {
    match def {
        DefinitionView::Parameter { id, ident, fields } => Some(
            define_parameter_text(id, ident, fields),
        ),
        DefinitionView::TvParameter { id, ident, fields } => Some(
            define_tv_parameter_text(id, ident, fields),
        ),
        _ => None,
    }
}

/// The text of an enumeration definition.
pub open spec fn enumeration_of(def: DefinitionView) -> Option<Seq<char>> {
    match def {
        DefinitionView::Enum { ident, variants } => Some(define_enum_text(ident, variants)),
        _ => None,
    }
}

/// The text of a choice definition.
pub open spec fn choice_of(def: DefinitionView) -> Option<Seq<char>> {
    match def {
        DefinitionView::Choice { ident, choices } => Some(define_choice_text(ident, choices)),
        _ => None,
    }
}

/// The emitted source for the definitions: one text for each definition, by
/// kind and in the order of the definitions, and the dispatcher.
pub open spec fn generate_spec(definitions: Seq<DefinitionView>) -> GeneratedCodeView {
    GeneratedCodeView {
        messages: emitted(definitions, |d: DefinitionView| message_of(d)),
        message_enum: message_enum_text(definitions),
        parameters: emitted(definitions, |d: DefinitionView| parameter_of(d)),
        enumerations: emitted(definitions, |d: DefinitionView| enumeration_of(d)),
        choices: emitted(definitions, |d: DefinitionView| choice_of(d)),
    }
}

/// Emits the source for the definitions.
pub fn generate(definitions: Vec<Definition>) -> (r: GeneratedCode)
    requires
        definitions_supported(definitions.deep_view()),
    ensures
        r.deep_view() == generate_spec(definitions.deep_view()),
{
    let definitions = &definitions;
    let message_enum = message_enum(definitions);
    let mut messages: Vec<String> = Vec::new();
    let mut parameters: Vec<String> = Vec::new();
    let mut enumerations: Vec<String> = Vec::new();
    let mut choices: Vec<String> = Vec::new();
    let ghost all = definitions.deep_view();
    let ghost msg = |d: DefinitionView| message_of(d);
    let ghost par = |d: DefinitionView| parameter_of(d);
    let ghost enu = |d: DefinitionView| enumeration_of(d);
    let ghost cho = |d: DefinitionView| choice_of(d);
    assert(all.take(0) =~= Seq::<DefinitionView>::empty());
    assert(messages.deep_view() =~= Seq::<Seq<char>>::empty());
    assert(parameters.deep_view() =~= Seq::<Seq<char>>::empty());
    assert(enumerations.deep_view() =~= Seq::<Seq<char>>::empty());
    assert(choices.deep_view() =~= Seq::<Seq<char>>::empty());
    let mut i: usize = 0;
    while i < definitions.len()
        invariant
            i <= definitions.len(),
            all == definitions.deep_view(),
            definitions_supported(all),
            msg == |d: DefinitionView| message_of(d),
            par == |d: DefinitionView| parameter_of(d),
            enu == |d: DefinitionView| enumeration_of(d),
            cho == |d: DefinitionView| choice_of(d),
            messages.deep_view() == emitted(all.take(i as int), msg),
            parameters.deep_view() == emitted(all.take(i as int), par),
            enumerations.deep_view() == emitted(all.take(i as int), enu),
            choices.deep_view() == emitted(all.take(i as int), cho),
        decreases definitions.len() - i,
    {
        let ghost m0 = messages.deep_view();
        let ghost p0 = parameters.deep_view();
        let ghost e0 = enumerations.deep_view();
        let ghost c0 = choices.deep_view();
        assert(all.take(i + 1).drop_last() =~= all.take(i as int));
        assert(all.take(i + 1).last() == definitions[i as int].deep_view());
        assert(all[i as int] == definitions[i as int].deep_view());
        match &definitions[i] {
            Definition::Message { id, ident, fields } => {
                let text = define_message(*id, ident.as_str(), fields);
                messages.push(text);
                assert(messages.deep_view() =~= m0.push(text@));
            },
            Definition::Parameter { id, ident, fields } => {
                let text = define_parameter(*id, ident.as_str(), fields);
                parameters.push(text);
                assert(parameters.deep_view() =~= p0.push(text@));
            },
            Definition::TvParameter { id, ident, fields } => {
                let text = define_tv_parameter(*id, ident.as_str(), fields);
                parameters.push(text);
                assert(parameters.deep_view() =~= p0.push(text@));
            },
            Definition::Enum { ident, variants } => {
                let text = define_enum(ident.as_str(), variants);
                enumerations.push(text);
                assert(enumerations.deep_view() =~= e0.push(text@));
            },
            Definition::Choice { ident, choices: cases } => {
                let text = define_choice(ident.as_str(), cases);
                choices.push(text);
                assert(choices.deep_view() =~= c0.push(text@));
            },
        }
        i += 1;
    }
    assert(all.take(definitions.len() as int) =~= all);
    GeneratedCode { messages, message_enum, parameters, enumerations, choices }
}

/// Emits the source for the definitions.
pub fn generate_code(definitions: Vec<Definition>) -> (r: GeneratedCode)
    requires
        definitions_supported(definitions.deep_view()),
    ensures
        r.deep_view() == generate_spec(definitions.deep_view()),
{
    generate(definitions)
}

/// All the texts of a list, one behind the other.
pub open spec fn concat_text(items: Seq<Seq<char>>) -> Seq<char>
    decreases items.len(),
{
    if items.len() == 0 {
        Seq::empty()
    } else {
        concat_text(items.drop_last()) + items.last()
    }
}

fn concat(items: &Vec<String>) -> (r: String)
    ensures
        r@ == concat_text(items.deep_view()),
{
    let mut out = String::new();
    let mut i: usize = 0;
    assert(items.deep_view().take(0) =~= Seq::<Seq<char>>::empty());
    while i < items.len()
        invariant
            i <= items.len(),
            out@ == concat_text(items.deep_view().take(i as int)),
        decreases items.len() - i,
    {
        assert(items.deep_view().take(i + 1).drop_last() =~= items.deep_view().take(i as int));
        assert(items.deep_view().take(i + 1).last() == items[i as int]@);
        out.append(items[i].as_str());
        i += 1;
    }
    assert(items.deep_view().take(items.len() as int) =~= items.deep_view());
    out
}

/// The emitted compilation unit: the runtime, then one module for each
/// kind of definition; the dispatcher stands behind the messages.
pub open spec fn render_text(code: GeneratedCodeView, runtime: Seq<char>) -> Seq<char> {
    runtime
        + "#[allow(bad_style, unused_imports, unused_mut, unreachable, dead_code, unused_variables)] pub mod messages { use super::{*, parameters::*, enumerations::*, choices::*}; "@
        + concat_text(code.messages)
        + code.message_enum
        + " } #[allow(bad_style, unused_imports, unused_mut, unreachable, dead_code, unused_variables)] pub mod parameters { use super::{*, enumerations::*, choices::*}; "@
        + concat_text(code.parameters)
        + " } #[allow(bad_style, unused_imports, unused_mut, unreachable, dead_code, unused_variables)] pub mod enumerations { use super::{*, parameters::*, choices::*}; "@
        + concat_text(code.enumerations)
        + " } #[allow(bad_style, unused_imports, unused_mut, unreachable, dead_code, unused_variables)] pub mod choices { use super::{*, parameters::*, enumerations::*}; "@
        + concat_text(code.choices)
        + " }"@
}

impl GeneratedCode {
    /// Puts the emitted texts together to one compilation unit that starts
    /// with the source of the runtime.
    pub fn render(&self, runtime: &str) -> (r: String)
        ensures
            r@ == render_text(self.deep_view(), runtime@),
    {
        let mut out = String::from_str(runtime);
        out.append("#[allow(bad_style, unused_imports, unused_mut, unreachable, dead_code, unused_variables)] pub mod messages { use super::{*, parameters::*, enumerations::*, choices::*}; ");
        out.append(concat(&self.messages).as_str());
        out.append(self.message_enum.as_str());
        out.append(" } #[allow(bad_style, unused_imports, unused_mut, unreachable, dead_code, unused_variables)] pub mod parameters { use super::{*, enumerations::*, choices::*}; ");
        out.append(concat(&self.parameters).as_str());
        out.append(" } #[allow(bad_style, unused_imports, unused_mut, unreachable, dead_code, unused_variables)] pub mod enumerations { use super::{*, parameters::*, choices::*}; ");
        out.append(concat(&self.enumerations).as_str());
        out.append(" } #[allow(bad_style, unused_imports, unused_mut, unreachable, dead_code, unused_variables)] pub mod choices { use super::{*, parameters::*, enumerations::*}; ");
        out.append(concat(&self.choices).as_str());
        out.append(" }");
        out
    }
}

} // verus!
