//! The normaliser: from the protocol description to definitions whose
//! fields carry a host type, a container and an encoding.

use vstd::prelude::*;
use crate::llrp_def;
use crate::llrp_def::{LLRPDef, Repeat};
use crate::text::{decimal, decimal_string, str_eq};

verus! {

/// How a field travels on the wire.
#[derive(Debug, PartialEq, Eq)]
pub enum Encoding {
    /// A fixed number of bits.
    RawBits { num_bits: u8 },
    /// A TLV parameter.
    TlvParameter,
    /// A TV parameter with the given type.
    TvParameter { tv_id: u8 },
    /// A count of elements, then the elements.
    ArrayOfT { inner: Box<Field> },
    /// A variant of an enumeration, carried as the inner field is.
    Enum { inner: Box<Field> },
    /// A type that brings its own codec.
    Manual,
}

/// The host type of a field, by the way the field holds it.
#[derive(Debug, Clone, PartialEq, Eq)]
pub enum Container {
    Raw(String),
    Box(String),
    Option(String),
    OptionBox(String),
    Vec(String),
}

/// A field of a definition, ready for emission.
#[derive(Debug, PartialEq, Eq)]
pub struct Field {
    /// The identifier of the field.
    pub ident: String,
    /// The host type of the field.
    pub ty: Container,
    /// How the field travels on the wire.
    pub encoding: Encoding,
}

impl Field {
    /// Whether the field is an array with a count in front.
    pub fn is_vec(&self) -> (r: bool)
        ensures
            r == (self.deep_view().encoding is ArrayOfT),
    {
        match self.encoding {
            Encoding::ArrayOfT { .. } => true,
            _ => false,
        }
    }
}

/// A parameter with TV framing, as other definitions refer to it.
#[derive(Debug, Clone, PartialEq, Eq)]
pub struct TvField {
    pub id: u8,
    pub ty: String,
    pub required: bool,
}

/// A variant of an enumeration.
#[derive(Debug, Clone, PartialEq, Eq)]
pub struct EnumVariant {
    /// The identifier of the variant.
    pub ident: String,
    /// The number of the variant.
    pub value: u16,
}

/// A definition, ready for emission.
#[allow(inconsistent_fields)]
#[derive(Debug, PartialEq, Eq)]
pub enum Definition {
    Message { id: u16, ident: String, fields: Vec<Field> },
    Parameter { id: u16, ident: String, fields: Vec<Field> },
    TvParameter { id: u8, ident: String, fields: Vec<Field> },
    Enum { ident: String, variants: Vec<EnumVariant> },
    Choice { ident: String, choices: Vec<Field> },
}

/// The model of an `Encoding`.
pub enum EncodingView {
    RawBits { num_bits: u8 },
    TlvParameter,
    TvParameter { tv_id: u8 },
    ArrayOfT { inner: Box<FieldView> },
    Enum { inner: Box<FieldView> },
    Manual,
}

/// The model of a `Container`.
pub enum ContainerView {
    Raw(Seq<char>),
    Box(Seq<char>),
    Option(Seq<char>),
    OptionBox(Seq<char>),
    Vec(Seq<char>),
}

/// The model of a `Field`.
pub struct FieldView {
    pub ident: Seq<char>,
    pub ty: ContainerView,
    pub encoding: EncodingView,
}

/// The model of a `TvField`.
pub struct TvFieldView {
    pub id: u8,
    pub ty: Seq<char>,
    pub required: bool,
}

/// The model of an `EnumVariant`.
pub struct EnumVariantView {
    pub ident: Seq<char>,
    pub value: u16,
}

/// The model of a `Definition`.
#[allow(inconsistent_fields)]
pub enum DefinitionView {
    Message { id: u16, ident: Seq<char>, fields: Seq<FieldView> },
    Parameter { id: u16, ident: Seq<char>, fields: Seq<FieldView> },
    TvParameter { id: u8, ident: Seq<char>, fields: Seq<FieldView> },
    Enum { ident: Seq<char>, variants: Seq<EnumVariantView> },
    Choice { ident: Seq<char>, choices: Seq<FieldView> },
}

/// The model of a field.
pub open spec fn field_view(f: Field) -> FieldView
    decreases f,
{
    FieldView { ident: f.ident@, ty: f.ty.deep_view(), encoding: encoding_view(f.encoding) }
}

/// The model of an encoding.
pub open spec fn encoding_view(e: Encoding) -> EncodingView
    decreases e,
{
    match e {
        Encoding::RawBits { num_bits } => EncodingView::RawBits { num_bits },
        Encoding::TlvParameter => EncodingView::TlvParameter,
        Encoding::TvParameter { tv_id } => EncodingView::TvParameter { tv_id },
        Encoding::ArrayOfT { inner } => EncodingView::ArrayOfT { inner: Box::new(field_view(*inner)) },
        Encoding::Enum { inner } => EncodingView::Enum { inner: Box::new(field_view(*inner)) },
        Encoding::Manual => EncodingView::Manual,
    }
}

impl DeepView for Encoding {
    type V = EncodingView;

    open spec fn deep_view(&self) -> EncodingView {
        encoding_view(*self)
    }
}

impl DeepView for Container {
    type V = ContainerView;

    open spec fn deep_view(&self) -> ContainerView {
        match self {
            Container::Raw(ty) => ContainerView::Raw(ty@),
            Container::Box(ty) => ContainerView::Box(ty@),
            Container::Option(ty) => ContainerView::Option(ty@),
            Container::OptionBox(ty) => ContainerView::OptionBox(ty@),
            Container::Vec(ty) => ContainerView::Vec(ty@),
        }
    }
}

impl DeepView for Field {
    type V = FieldView;

    open spec fn deep_view(&self) -> FieldView {
        field_view(*self)
    }
}

impl DeepView for TvField {
    type V = TvFieldView;

    open spec fn deep_view(&self) -> TvFieldView {
        TvFieldView { id: self.id, ty: self.ty@, required: self.required }
    }
}

impl DeepView for EnumVariant {
    type V = EnumVariantView;

    open spec fn deep_view(&self) -> EnumVariantView {
        EnumVariantView { ident: self.ident@, value: self.value }
    }
}

impl DeepView for Definition {
    type V = DefinitionView;

    open spec fn deep_view(&self) -> DefinitionView {
        match self {
            Definition::Message { id, ident, fields } => DefinitionView::Message {
                id: *id,
                ident: ident@,
                fields: fields.deep_view(),
            },
            Definition::Parameter { id, ident, fields } => DefinitionView::Parameter {
                id: *id,
                ident: ident@,
                fields: fields.deep_view(),
            },
            Definition::TvParameter { id, ident, fields } => DefinitionView::TvParameter {
                id: *id,
                ident: ident@,
                fields: fields.deep_view(),
            },
            Definition::Enum { ident, variants } => DefinitionView::Enum {
                ident: ident@,
                variants: variants.deep_view(),
            },
            Definition::Choice { ident, choices } => DefinitionView::Choice {
                ident: ident@,
                choices: choices.deep_view(),
            },
        }
    }
}

/// What `heck::SnakeCase::to_snake_case` makes of a text.
pub uninterp spec fn snake_case(text: Seq<char>) -> Seq<char>;

/// What `heck::CamelCase::to_camel_case` makes of a text.
pub uninterp spec fn camel_case(text: Seq<char>) -> Seq<char>;

/// `heck::SnakeCase::to_snake_case` on a `str`: the words of the text in
/// lower case, joined by underscores.
#[verifier::external_body]
fn to_snake_case(text: &str) -> (r: String)
    ensures
        r@ == snake_case(text@),
{
    heck::SnakeCase::to_snake_case(text)
}

/// `heck::CamelCase::to_camel_case` on a `str`: the words of the text, each
/// with a capital first letter, joined without a separator.
#[verifier::external_body]
fn to_camel_case(text: &str) -> (r: String)
    ensures
        r@ == camel_case(text@),
{
    heck::CamelCase::to_camel_case(text)
}

/// The host type and the encoding of a wire type that is no array. A name
/// that is none of the wire types names a parameter.
pub open spec fn scalar_type(name: Seq<char>) -> (Seq<char>, EncodingView) {
    if name == "u1"@ {
        ("bool"@, EncodingView::RawBits { num_bits: 1 })
    } else if name == "u2"@ {
        ("u8"@, EncodingView::RawBits { num_bits: 2 })
    } else if name == "u3"@ {
        ("u8"@, EncodingView::RawBits { num_bits: 3 })
    } else if name == "u4"@ {
        ("u8"@, EncodingView::RawBits { num_bits: 4 })
    } else if name == "u5"@ {
        ("u8"@, EncodingView::RawBits { num_bits: 5 })
    } else if name == "u6"@ {
        ("u8"@, EncodingView::RawBits { num_bits: 6 })
    } else if name == "u7"@ {
        ("u8"@, EncodingView::RawBits { num_bits: 7 })
    } else if name == "u9"@ {
        ("u16"@, EncodingView::RawBits { num_bits: 9 })
    } else if name == "u10"@ {
        ("u16"@, EncodingView::RawBits { num_bits: 10 })
    } else if name == "u11"@ {
        ("u16"@, EncodingView::RawBits { num_bits: 11 })
    } else if name == "u12"@ {
        ("u16"@, EncodingView::RawBits { num_bits: 12 })
    } else if name == "u13"@ {
        ("u16"@, EncodingView::RawBits { num_bits: 13 })
    } else if name == "u14"@ {
        ("u16"@, EncodingView::RawBits { num_bits: 14 })
    } else if name == "u15"@ {
        ("u16"@, EncodingView::RawBits { num_bits: 15 })
    } else if name == "u8"@ {
        ("u8"@, EncodingView::Manual)
    } else if name == "u16"@ {
        ("u16"@, EncodingView::Manual)
    } else if name == "u32"@ {
        ("u32"@, EncodingView::Manual)
    } else if name == "u64"@ {
        ("u64"@, EncodingView::Manual)
    } else if name == "u96"@ {
        ("[u8; 12]"@, EncodingView::Manual)
    } else if name == "s8"@ {
        ("i8"@, EncodingView::Manual)
    } else if name == "s16"@ {
        ("i16"@, EncodingView::Manual)
    } else if name == "s32"@ {
        ("i32"@, EncodingView::Manual)
    } else if name == "s64"@ {
        ("i64"@, EncodingView::Manual)
    } else if name == "u1v"@ {
        ("BitArray"@, EncodingView::Manual)
    } else if name == "utf8v"@ {
        ("String"@, EncodingView::Manual)
    } else {
        (name, EncodingView::TlvParameter)
    }
}

/// The field that stands for one element of an array of `wire_type`.
pub open spec fn array_item(wire_type: Seq<char>) -> FieldView {
    FieldView {
        ident: "__"@ + wire_type + "_item"@,
        ty: ContainerView::Raw(scalar_type(wire_type).0),
        encoding: scalar_type(wire_type).1,
    }
}

/// The host type and the encoding of a wire type.
pub open spec fn type_of_spec(name: Seq<char>) -> (Seq<char>, EncodingView) {
    if name == "u8v"@ || name == "bytesToEnd"@ {
        ("Vec<u8>"@, EncodingView::ArrayOfT { inner: Box::new(array_item("u8"@)) })
    } else if name == "u16v"@ {
        ("Vec<u16>"@, EncodingView::ArrayOfT { inner: Box::new(array_item("u16"@)) })
    } else if name == "u32v"@ {
        ("Vec<u32>"@, EncodingView::ArrayOfT { inner: Box::new(array_item("u32"@)) })
    } else if name == "u64v"@ {
        ("Vec<u64>"@, EncodingView::ArrayOfT { inner: Box::new(array_item("u64"@)) })
    } else {
        scalar_type(name)
    }
}

/// The field that carries the number of an enumeration's variant.
pub open spec fn inner_field_spec(wire_type: Seq<char>) -> FieldView {
    FieldView {
        ident: "__"@ + wire_type + "_item"@,
        ty: ContainerView::Raw(type_of_spec(wire_type).0),
        encoding: type_of_spec(wire_type).1,
    }
}

/// The identifier of the field that the source calls `name`: a hand-chosen
/// one for the names that come out badly, the name in snake case for the
/// others.
pub open spec fn field_ident_spec(name: Seq<char>) -> Seq<char> {
    if name == "Match"@ {
        "match_"@
    } else if name == "NumGPIs"@ {
        "num_gpis"@
    } else if name == "NumGPOs"@ {
        "num_gpos"@
    } else if name == "AntennaIDs"@ {
        "antenna_ids"@
    } else if name == "LLRPStatus"@ {
        "status"@
    } else {
        snake_case(name)
    }
}

/// The entry registered last under `name`.
pub open spec fn tv_lookup(entries: Seq<(Seq<char>, TvFieldView)>, name: Seq<char>) -> Option<
    TvFieldView,
>
    decreases entries.len(),
{
    if entries.len() == 0 {
        None
    } else if entries.last().0 == name {
        Some(entries.last().1)
    } else {
        tv_lookup(entries.drop_last(), name)
    }
}

/// Whether a parameter of this name may contain itself.
pub open spec fn is_recursive(wire_type: Seq<char>) -> bool {
    wire_type == "ParameterError"@
}

/// The way a field holds its type, by how often it occurs and whether the
/// type may contain itself.
pub open spec fn container_of(repeat: Repeat, recursive: bool, ty: Seq<char>) -> ContainerView {
    match repeat {
        Repeat::One => if recursive {
            ContainerView::Box(ty)
        } else {
            ContainerView::Raw(ty)
        },
        Repeat::ZeroOrOne => if recursive {
            ContainerView::OptionBox(ty)
        } else {
            ContainerView::Option(ty)
        },
        Repeat::ZeroToN => ContainerView::Vec(ty),
        Repeat::OneToN => ContainerView::Vec(ty),
    }
}

/// The field for a reference to `wire_type` under the name `name`.
pub open spec fn map_field_spec(
    name: Seq<char>,
    wire_type: Seq<char>,
    repeat: Repeat,
    tv_params: Seq<(Seq<char>, TvFieldView)>,
) -> FieldView {
    let (base_type, encoding) = match tv_lookup(tv_params, wire_type) {
        Some(tv) => (tv.ty, EncodingView::TvParameter { tv_id: tv.id }),
        None => type_of_spec(wire_type),
    };
    FieldView {
        ident: field_ident_spec(name),
        ty: container_of(repeat, is_recursive(wire_type), base_type),
        encoding,
    }
}

/// The field for one descriptor, or nothing for an annotation.
pub open spec fn resolve_field(
    field: llrp_def::FieldView,
    tv_params: Seq<(Seq<char>, TvFieldView)>,
) -> Option<FieldView> {
    match field {
        llrp_def::FieldView::Annotation => None,
        llrp_def::FieldView::Choice { repeat, type_ } => Some(
            map_field_spec(type_, type_, repeat, tv_params),
        ),
        llrp_def::FieldView::Parameter { repeat, type_ } => Some(
            map_field_spec(type_, type_, repeat, tv_params),
        ),
        llrp_def::FieldView::Field { type_, name, format, enumeration } => match enumeration {
            Some(enumeration) => {
                let inner = inner_field_spec(type_);
                Some(
                    FieldView {
                        ident: field_ident_spec(name),
                        ty: if inner.encoding is ArrayOfT {
                            ContainerView::Vec(enumeration)
                        } else {
                            ContainerView::Raw(enumeration)
                        },
                        encoding: EncodingView::Enum { inner: Box::new(inner) },
                    },
                )
            },
            None => Some(map_field_spec(name, type_, Repeat::One, tv_params)),
        },
        llrp_def::FieldView::Reserved { bit_count } => Some(
            map_field_spec(
                "__reserved"@,
                "u"@ + decimal(bit_count as nat),
                Repeat::One,
                tv_params,
            ),
        ),
    }
}

/// The fields for a list of descriptors, in order, without the annotations.
pub open spec fn parse_fields_spec(
    fields: Seq<llrp_def::FieldView>,
    tv_params: Seq<(Seq<char>, TvFieldView)>,
) -> Seq<FieldView>
    decreases fields.len(),
{
    if fields.len() == 0 {
        Seq::empty()
    } else {
        let front = parse_fields_spec(fields.drop_last(), tv_params);
        match resolve_field(fields.last(), tv_params) {
            Some(f) => front.push(f),
            None => front,
        }
    }
}

/// The descriptors of a TV parameter: those of its definition, without an
/// annotation in the first place.
pub open spec fn tv_fields(fields: Seq<llrp_def::FieldView>) -> Seq<llrp_def::FieldView> {
    if fields.len() > 0 && fields[0] is Annotation {
        fields.skip(1)
    } else {
        fields
    }
}

/// The TV parameters among the definitions, in order: every parameter with a
/// type of at most 127.
pub open spec fn tv_definitions(defs: Seq<llrp_def::DefinitionView>) -> Seq<DefinitionView>
    decreases defs.len(),
{
    if defs.len() == 0 {
        Seq::empty()
    } else {
        let front = tv_definitions(defs.drop_last());
        match defs.last() {
            llrp_def::DefinitionView::Parameter(p) => if p.type_num <= 127 {
                front.push(
                    DefinitionView::TvParameter {
                        id: p.type_num as u8,
                        ident: p.name,
                        fields: parse_fields_spec(tv_fields(p.fields), Seq::empty()),
                    },
                )
            } else {
                front
            },
            _ => front,
        }
    }
}

/// The TV parameters among the definitions as other definitions refer to
/// them, each under its name.
pub open spec fn tv_entries(defs: Seq<llrp_def::DefinitionView>) -> Seq<(Seq<char>, TvFieldView)>
    decreases defs.len(),
{
    if defs.len() == 0 {
        Seq::empty()
    } else {
        let front = tv_entries(defs.drop_last());
        match defs.last() {
            llrp_def::DefinitionView::Parameter(p) => if p.type_num <= 127 {
                front.push(
                    (p.name, TvFieldView { id: p.type_num as u8, ty: p.name, required: p.required }),
                )
            } else {
                front
            },
            _ => front,
        }
    }
}

/// The variants of an enumeration.
pub open spec fn enum_variants(entries: Seq<llrp_def::EnumerationVariantView>) -> Seq<
    EnumVariantView,
> {
    Seq::new(
        entries.len(),
        |i: int| EnumVariantView { ident: entries[i].name, value: entries[i].value },
    )
}

/// What one definition becomes once the TV parameters are known, or nothing
/// for a TV parameter or a namespace.
pub open spec fn resolve_definition(
    def: llrp_def::DefinitionView,
    tv_params: Seq<(Seq<char>, TvFieldView)>,
) -> Option<DefinitionView> {
    match def {
        llrp_def::DefinitionView::Message(m) => Some(
            DefinitionView::Message {
                id: m.type_num,
                ident: camel_case(m.name),
                fields: parse_fields_spec(m.fields, tv_params),
            },
        ),
        llrp_def::DefinitionView::Parameter(p) => if p.type_num <= 127 {
            None
        } else {
            Some(
                DefinitionView::Parameter {
                    id: p.type_num,
                    ident: p.name,
                    fields: parse_fields_spec(p.fields, tv_params),
                },
            )
        },
        llrp_def::DefinitionView::Enum(e) => Some(
            DefinitionView::Enum { ident: e.name, variants: enum_variants(e.entries) },
        ),
        llrp_def::DefinitionView::Choice(c) => Some(
            DefinitionView::Choice { ident: c.name, choices: parse_fields_spec(c.fields, tv_params) },
        ),
        llrp_def::DefinitionView::Namespace => None,
    }
}

/// The definitions other than TV parameters, in order.
pub open spec fn other_definitions(
    defs: Seq<llrp_def::DefinitionView>,
    tv_params: Seq<(Seq<char>, TvFieldView)>,
) -> Seq<DefinitionView>
    decreases defs.len(),
{
    if defs.len() == 0 {
        Seq::empty()
    } else {
        let front = other_definitions(defs.drop_last(), tv_params);
        match resolve_definition(defs.last(), tv_params) {
            Some(d) => front.push(d),
            None => front,
        }
    }
}

/// The definitions ready for emission: first the TV parameters, then the
/// others with their references to TV parameters resolved.
pub open spec fn parse_definitions_spec(defs: Seq<llrp_def::DefinitionView>) -> Seq<DefinitionView> {
    tv_definitions(defs) + other_definitions(defs, tv_entries(defs))
}

/// Whether every parameter has a type below 2048.
pub open spec fn types_in_range(defs: Seq<llrp_def::DefinitionView>) -> bool {
    forall|i: int|
        0 <= i < defs.len() ==> (#[trigger] defs[i] matches llrp_def::DefinitionView::Parameter(p)
            ==> p.type_num < 2048)
}

/// Whether every parameter has a type below 2048.
pub fn in_range(def: &LLRPDef) -> (r: bool)
    ensures
        r == types_in_range(def.deep_view()),
{
    let defs = &def.definitions;
    let mut i: usize = 0;
    while i < defs.len()
        invariant
            i <= defs.len(),
            def.deep_view() == defs.deep_view(),
            defs.deep_view().len() == defs.len(),
            forall|j: int|
                0 <= j < i ==> (#[trigger] defs.deep_view()[j] matches llrp_def::DefinitionView::Parameter(
                    p,
                ) ==> p.type_num < 2048),
        decreases defs.len() - i,
    {
        assert(defs.deep_view()[i as int] == defs[i as int].deep_view());
        if let llrp_def::Definition::Parameter(p) = &defs[i] {
            if p.type_num >= 2048 {
                proof {
                    let found = defs.deep_view()[i as int];
                    assert(found == defs[i as int].deep_view());
                    assert(found == llrp_def::DefinitionView::Parameter(p.deep_view()));
                    assert(!(found matches llrp_def::DefinitionView::Parameter(q)
                        ==> q.type_num < 2048));
                }
                return false;
            }
        }
        i += 1;
    }
    true
}

fn scalar_type_of(wire_type: &str) -> (r: (String, Encoding))
    ensures
        r.0@ == scalar_type(wire_type@).0,
        r.1.deep_view() == scalar_type(wire_type@).1,
{
    if str_eq(wire_type, "u1") {
        (String::from_str("bool"), Encoding::RawBits { num_bits: 1 })
    } else if str_eq(wire_type, "u2") {
        (String::from_str("u8"), Encoding::RawBits { num_bits: 2 })
    } else if str_eq(wire_type, "u3") {
        (String::from_str("u8"), Encoding::RawBits { num_bits: 3 })
    } else if str_eq(wire_type, "u4") {
        (String::from_str("u8"), Encoding::RawBits { num_bits: 4 })
    } else if str_eq(wire_type, "u5") {
        (String::from_str("u8"), Encoding::RawBits { num_bits: 5 })
    } else if str_eq(wire_type, "u6") {
        (String::from_str("u8"), Encoding::RawBits { num_bits: 6 })
    } else if str_eq(wire_type, "u7") {
        (String::from_str("u8"), Encoding::RawBits { num_bits: 7 })
    } else if str_eq(wire_type, "u9") {
        (String::from_str("u16"), Encoding::RawBits { num_bits: 9 })
    } else if str_eq(wire_type, "u10") {
        (String::from_str("u16"), Encoding::RawBits { num_bits: 10 })
    } else if str_eq(wire_type, "u11") {
        (String::from_str("u16"), Encoding::RawBits { num_bits: 11 })
    } else if str_eq(wire_type, "u12") {
        (String::from_str("u16"), Encoding::RawBits { num_bits: 12 })
    } else if str_eq(wire_type, "u13") {
        (String::from_str("u16"), Encoding::RawBits { num_bits: 13 })
    } else if str_eq(wire_type, "u14") {
        (String::from_str("u16"), Encoding::RawBits { num_bits: 14 })
    } else if str_eq(wire_type, "u15") {
        (String::from_str("u16"), Encoding::RawBits { num_bits: 15 })
    } else if str_eq(wire_type, "u8") {
        (String::from_str("u8"), Encoding::Manual)
    } else if str_eq(wire_type, "u16") {
        (String::from_str("u16"), Encoding::Manual)
    } else if str_eq(wire_type, "u32") {
        (String::from_str("u32"), Encoding::Manual)
    } else if str_eq(wire_type, "u64") {
        (String::from_str("u64"), Encoding::Manual)
    } else if str_eq(wire_type, "u96") {
        (String::from_str("[u8; 12]"), Encoding::Manual)
    } else if str_eq(wire_type, "s8") {
        (String::from_str("i8"), Encoding::Manual)
    } else if str_eq(wire_type, "s16") {
        (String::from_str("i16"), Encoding::Manual)
    } else if str_eq(wire_type, "s32") {
        (String::from_str("i32"), Encoding::Manual)
    } else if str_eq(wire_type, "s64") {
        (String::from_str("i64"), Encoding::Manual)
    } else if str_eq(wire_type, "u1v") {
        (String::from_str("BitArray"), Encoding::Manual)
    } else if str_eq(wire_type, "utf8v") {
        (String::from_str("String"), Encoding::Manual)
    } else {
        (String::from_str(wire_type), Encoding::TlvParameter)
    }
}

fn item_ident(wire_type: &str) -> (r: String)
    ensures
        r@ == "__"@ + wire_type@ + "_item"@,
{
    let mut ident = String::from_str("__");
    ident.append(wire_type);
    ident.append("_item");
    ident
}

fn array_item_field(wire_type: &str) -> (r: Box<Field>)
    ensures
        r.deep_view() == array_item(wire_type@),
{
    let (ty, encoding) = scalar_type_of(wire_type);
    Box::new(Field { ident: item_ident(wire_type), ty: Container::Raw(ty), encoding })
}

/// The host type and the encoding of the wire type `wire_type`.
pub fn type_of(wire_type: &str) -> (r: (String, Encoding))
    ensures
        r.0@ == type_of_spec(wire_type@).0,
        r.1.deep_view() == type_of_spec(wire_type@).1,
{
    if str_eq(wire_type, "u8v") || str_eq(wire_type, "bytesToEnd") {
        (String::from_str("Vec<u8>"), Encoding::ArrayOfT { inner: array_item_field("u8") })
    } else if str_eq(wire_type, "u16v") {
        (String::from_str("Vec<u16>"), Encoding::ArrayOfT { inner: array_item_field("u16") })
    } else if str_eq(wire_type, "u32v") {
        (String::from_str("Vec<u32>"), Encoding::ArrayOfT { inner: array_item_field("u32") })
    } else if str_eq(wire_type, "u64v") {
        (String::from_str("Vec<u64>"), Encoding::ArrayOfT { inner: array_item_field("u64") })
    } else {
        scalar_type_of(wire_type)
    }
}

/// The identifier of the field that the source calls `name`.
pub fn field_ident(name: &str) -> (r: String)
    ensures
        r@ == field_ident_spec(name@),
{
    if str_eq(name, "Match") {
        String::from_str("match_")
    } else if str_eq(name, "NumGPIs") {
        String::from_str("num_gpis")
    } else if str_eq(name, "NumGPOs") {
        String::from_str("num_gpos")
    } else if str_eq(name, "AntennaIDs") {
        String::from_str("antenna_ids")
    } else if str_eq(name, "LLRPStatus") {
        String::from_str("status")
    } else {
        to_snake_case(name)
    }
}

/// The field that carries the number of an enumeration's variant.
pub fn inner_field(wire_type: &str) -> (r: Box<Field>)
    ensures
        r.deep_view() == inner_field_spec(wire_type@),
{
    let (ty, encoding) = type_of(wire_type);
    Box::new(Field { ident: item_ident(wire_type), ty: Container::Raw(ty), encoding })
}

fn find_tv<'a>(tv_params: &'a Vec<(String, TvField)>, name: &str) -> (r: Option<&'a TvField>)
    ensures
        match tv_lookup(tv_params.deep_view(), name@) {
            Some(tv) => r is Some && r->Some_0.deep_view() == tv,
            None => r is None,
        },
{
    let mut i: usize = tv_params.len();
    assert(tv_params.deep_view().take(i as int) =~= tv_params.deep_view());
    while i > 0
        invariant
            i <= tv_params.len(),
            tv_lookup(tv_params.deep_view(), name@) == tv_lookup(
                tv_params.deep_view().take(i as int),
                name@,
            ),
        decreases i,
    {
        let ghost prefix = tv_params.deep_view().take(i as int);
        assert(prefix.drop_last() =~= tv_params.deep_view().take(i - 1));
        assert(prefix.last() == tv_params[i - 1].deep_view());
        if str_eq(tv_params[i - 1].0.as_str(), name) {
            return Some(&tv_params[i - 1].1);
        }
        i -= 1;
    }
    None
}

/// The field for a reference to `wire_type` under the name `name`, where
/// `repeat` says how often it occurs.
pub fn map_field(name: &str, wire_type: &str, repeat: Repeat, tv_params: &Vec<(String, TvField)>) -> (r:
    Field)
    ensures
        r.deep_view() == map_field_spec(name@, wire_type@, repeat, tv_params.deep_view()),
{
    let ident = field_ident(name);
    let (base_type, encoding) = match find_tv(tv_params, wire_type) {
        Some(tv_field) => (tv_field.ty.clone(), Encoding::TvParameter { tv_id: tv_field.id }),
        None => type_of(wire_type),
    };
    let recursive = str_eq(wire_type, "ParameterError");
    let ty = match repeat {
        Repeat::One => if recursive {
            Container::Box(base_type)
        } else {
            Container::Raw(base_type)
        },
        Repeat::ZeroOrOne => if recursive {
            Container::OptionBox(base_type)
        } else {
            Container::Option(base_type)
        },
        Repeat::ZeroToN => Container::Vec(base_type),
        Repeat::OneToN => Container::Vec(base_type),
    };
    Field { ident, ty, encoding }
}

fn resolve(field: &llrp_def::Field, tv_params: &Vec<(String, TvField)>) -> (r: Option<Field>)
    ensures
        r.deep_view() == resolve_field(field.deep_view(), tv_params.deep_view()),
{
    match field {
        llrp_def::Field::Annotation => None,
        llrp_def::Field::Choice { repeat, type_ } => Some(
            map_field(type_.as_str(), type_.as_str(), *repeat, tv_params),
        ),
        llrp_def::Field::Parameter { repeat, type_ } => Some(
            map_field(type_.as_str(), type_.as_str(), *repeat, tv_params),
        ),
        llrp_def::Field::Field { type_, name, format, enumeration } => match enumeration {
            Some(enumeration) => {
                let inner = inner_field(type_.as_str());
                let ty = match &inner.encoding {
                    Encoding::ArrayOfT { .. } => Container::Vec(enumeration.clone()),
                    _ => Container::Raw(enumeration.clone()),
                };
                Some(Field { ident: field_ident(name.as_str()), ty, encoding: Encoding::Enum { inner } })
            },
            None => Some(map_field(name.as_str(), type_.as_str(), Repeat::One, tv_params)),
        },
        llrp_def::Field::Reserved { bit_count } => {
            let mut wire_type = String::from_str("u");
            wire_type.append(decimal_string(*bit_count as u64).as_str());
            Some(map_field("__reserved", wire_type.as_str(), Repeat::One, tv_params))
        },
    }
}

/// The fields for the descriptors `fields`, from index `from` on.
fn parse_fields_from(fields: &Vec<llrp_def::Field>, from: usize, tv_params: &Vec<(String, TvField)>) -> (r:
    Vec<Field>)
    requires
        from <= fields.len(),
    ensures
        r.deep_view() == parse_fields_spec(
            fields.deep_view().skip(from as int),
            tv_params.deep_view(),
        ),
{
    let mut output: Vec<Field> = Vec::new();
    let mut i: usize = from;
    let ghost all = fields.deep_view().skip(from as int);
    assert(all.take(0) =~= Seq::<llrp_def::FieldView>::empty());
    assert(output.deep_view() =~= Seq::<FieldView>::empty());
    while i < fields.len()
        invariant
            from <= i <= fields.len(),
            all == fields.deep_view().skip(from as int),
            output.deep_view() == parse_fields_spec(all.take(i - from), tv_params.deep_view()),
        decreases fields.len() - i,
    {
        let ghost done = output.deep_view();
        assert(all.take(i - from + 1).drop_last() =~= all.take(i - from));
        assert(all.take(i - from + 1).last() == fields[i as int].deep_view());
        match resolve(&fields[i], tv_params) {
            Some(field) => {
                output.push(field);
                assert(output.deep_view() =~= done.push(field.deep_view()));
            },
            None => {},
        }
        i += 1;
    }
    assert(all.take(fields.len() - from) =~= all);
    output
}

/// The fields for a list of descriptors, in order, without the annotations.
pub fn parse_fields(fields: &Vec<llrp_def::Field>, tv_params: &Vec<(String, TvField)>) -> (r: Vec<
    Field,
>)
    ensures
        r.deep_view() == parse_fields_spec(fields.deep_view(), tv_params.deep_view()),
{
    assert(fields.deep_view().skip(0) =~= fields.deep_view());
    parse_fields_from(fields, 0, tv_params)
}

fn variants_of(entries: &Vec<llrp_def::EnumerationVariant>) -> (r: Vec<EnumVariant>)
    ensures
        r.deep_view() == enum_variants(entries.deep_view()),
{
    let mut output: Vec<EnumVariant> = Vec::new();
    let mut i: usize = 0;
    while i < entries.len()
        invariant
            i <= entries.len(),
            output.len() == i,
            forall|j: int|
                0 <= j < i ==> #[trigger] output[j].deep_view() == (EnumVariantView {
                    ident: entries[j].name@,
                    value: entries[j].value,
                }),
        decreases entries.len() - i,
    {
        output.push(EnumVariant { ident: entries[i].name.clone(), value: entries[i].value });
        i += 1;
    }
    assert(output.deep_view() =~= enum_variants(entries.deep_view()));
    output
}

/// Turns the protocol description into definitions ready for emission:
/// first the TV parameters, in order, then the other definitions, in order,
/// with their references to TV parameters resolved.
pub fn parse_definitions(def: LLRPDef) -> (r: Vec<Definition>)
    requires
        types_in_range(def.deep_view()),
    ensures
        r.deep_view() == parse_definitions_spec(def.deep_view()),
{
    let defs = &def.definitions;
    let ghost all = defs.deep_view();
    let mut definitions: Vec<Definition> = Vec::new();
    let mut tv_params: Vec<(String, TvField)> = Vec::new();
    let empty: Vec<(String, TvField)> = Vec::new();
    assert(empty.deep_view() =~= Seq::<(Seq<char>, TvFieldView)>::empty());
    assert(definitions.deep_view() =~= Seq::<DefinitionView>::empty());
    assert(tv_params.deep_view() =~= Seq::<(Seq<char>, TvFieldView)>::empty());
    assert(all.take(0) =~= Seq::<llrp_def::DefinitionView>::empty());
    let mut i: usize = 0;
    while i < defs.len()
        invariant
            i <= defs.len(),
            all == defs.deep_view(),
            empty.deep_view() == Seq::<(Seq<char>, TvFieldView)>::empty(),
            definitions.deep_view() == tv_definitions(all.take(i as int)),
            tv_params.deep_view() == tv_entries(all.take(i as int)),
        decreases defs.len() - i,
    {
        let ghost done = definitions.deep_view();
        let ghost known = tv_params.deep_view();
        assert(all.take(i + 1).drop_last() =~= all.take(i as int));
        assert(all.take(i + 1).last() == defs[i as int].deep_view());
        if let llrp_def::Definition::Parameter(param) = &defs[i] {
            if param.type_num <= 127 {
                let skip: usize = if param.fields.len() > 0 {
                    match &param.fields[0] {
                        llrp_def::Field::Annotation => 1,
                        _ => 0,
                    }
                } else {
                    0
                };
                assert(param.fields.deep_view().skip(0) =~= param.fields.deep_view());
                let fields = parse_fields_from(&param.fields, skip, &empty);
                let entry = (
                    param.name.clone(),
                    TvField { id: param.type_num as u8, ty: param.name.clone(), required: param.required },
                );
                tv_params.push(entry);
                assert(tv_params.deep_view() =~= known.push(entry.deep_view()));
                let tv = Definition::TvParameter {
                    id: param.type_num as u8,
                    ident: param.name.clone(),
                    fields,
                };
                definitions.push(tv);
                assert(definitions.deep_view() =~= done.push(tv.deep_view()));
            }
        }
        i += 1;
    }
    assert(all.take(defs.len() as int) =~= all);
    let ghost tv_part = definitions.deep_view();
    let ghost others = Seq::<DefinitionView>::empty();
    let mut j: usize = 0;
    assert(tv_part + others =~= tv_part);
    while j < defs.len()
        invariant
            j <= defs.len(),
            all == defs.deep_view(),
            tv_part == tv_definitions(all),
            tv_params.deep_view() == tv_entries(all),
            others == other_definitions(all.take(j as int), tv_params.deep_view()),
            definitions.deep_view() == tv_part + others,
        decreases defs.len() - j,
    {
        let ghost done = definitions.deep_view();
        assert(all.take(j + 1).drop_last() =~= all.take(j as int));
        assert(all.take(j + 1).last() == defs[j as int].deep_view());
        let next: Option<Definition> = match &defs[j] {
            llrp_def::Definition::Message(m) => Some(
                Definition::Message {
                    id: m.type_num,
                    ident: to_camel_case(m.name.as_str()),
                    fields: parse_fields(&m.fields, &tv_params),
                },
            ),
            llrp_def::Definition::Parameter(p) => if p.type_num <= 127 {
                None
            } else {
                Some(
                    Definition::Parameter {
                        id: p.type_num,
                        ident: p.name.clone(),
                        fields: parse_fields(&p.fields, &tv_params),
                    },
                )
            },
            llrp_def::Definition::Enum(e) => Some(
                Definition::Enum { ident: e.name.clone(), variants: variants_of(&e.entries) },
            ),
            llrp_def::Definition::Choice(c) => Some(
                Definition::Choice { ident: c.name.clone(), choices: parse_fields(&c.fields, &tv_params) },
            ),
            llrp_def::Definition::Namespace => None,
        };
        match next {
            Some(d) => {
                definitions.push(d);
                proof {
                    assert(definitions.deep_view() =~= done.push(d.deep_view()));
                    others = others.push(d.deep_view());
                    assert(done.push(d.deep_view()) =~= tv_part + others);
                }
            },
            None => {},
        }
        j += 1;
    }
    assert(all.take(defs.len() as int) =~= all);
    definitions
}

} // verus!
