//! The protocol description as its source gives it: definitions of
//! messages, parameters, enumerations and choices, each with its descriptors.

use vstd::prelude::*;

verus! {

/// How often a parameter or choice occurs where it is referred to.
#[derive(Copy, Clone, Debug, PartialEq, Eq, Structural)]
pub enum Repeat {
    /// Exactly once: `1`.
    One,
    /// At most once: `0-1`.
    ZeroOrOne,
    /// At least once: `1-N`.
    OneToN,
    /// Any number of times: `0-N`.
    ZeroToN,
}

impl Default for Repeat {
    fn default() -> (r: Repeat)
        ensures
            r == Repeat::ZeroOrOne,
    {
        Repeat::ZeroOrOne
    }
}

/// One descriptor inside a definition.
#[derive(Debug)]
pub enum Field {
    /// Documentation; discarded.
    Annotation,
    /// A reference to a choice, by its name.
    Choice { repeat: Repeat, type_: String },
    /// A value of a wire type, possibly as a variant of an enumeration.
    Field { type_: String, name: String, format: Option<String>, enumeration: Option<String> },
    /// A reference to a parameter, by its name.
    Parameter { repeat: Repeat, type_: String },
    /// Bits that carry nothing.
    Reserved { bit_count: usize },
}

/// The model of a `Field`.
pub enum FieldView {
    Annotation,
    Choice { repeat: Repeat, type_: Seq<char> },
    Field { type_: Seq<char>, name: Seq<char>, format: Option<Seq<char>>, enumeration: Option<Seq<char>> },
    Parameter { repeat: Repeat, type_: Seq<char> },
    Reserved { bit_count: usize },
}

impl DeepView for Field {
    type V = FieldView;

    open spec fn deep_view(&self) -> FieldView {
        match self {
            Field::Annotation => FieldView::Annotation,
            Field::Choice { repeat, type_ } => FieldView::Choice { repeat: *repeat, type_: type_@ },
            Field::Field { type_, name, format, enumeration } => FieldView::Field {
                type_: type_@,
                name: name@,
                format: format.deep_view(),
                enumeration: enumeration.deep_view(),
            },
            Field::Parameter { repeat, type_ } => FieldView::Parameter {
                repeat: *repeat,
                type_: type_@,
            },
            Field::Reserved { bit_count } => FieldView::Reserved { bit_count: *bit_count },
        }
    }
}

/// The definition of a message.
#[derive(Debug)]
pub struct MessageDefinition {
    pub name: String,
    pub type_num: u16,
    pub required: bool,
    pub fields: Vec<Field>,
}

/// The model of a `MessageDefinition`.
pub struct MessageDefinitionView {
    pub name: Seq<char>,
    pub type_num: u16,
    pub required: bool,
    pub fields: Seq<FieldView>,
}

impl DeepView for MessageDefinition {
    type V = MessageDefinitionView;

    open spec fn deep_view(&self) -> MessageDefinitionView {
        MessageDefinitionView {
            name: self.name@,
            type_num: self.type_num,
            required: self.required,
            fields: self.fields.deep_view(),
        }
    }
}

/// The definition of a parameter.
#[derive(Debug)]
pub struct ParameterDefinition {
    pub name: String,
    pub type_num: u16,
    pub required: bool,
    pub fields: Vec<Field>,
}

/// The model of a `ParameterDefinition`.
pub struct ParameterDefinitionView {
    pub name: Seq<char>,
    pub type_num: u16,
    pub required: bool,
    pub fields: Seq<FieldView>,
}

impl DeepView for ParameterDefinition {
    type V = ParameterDefinitionView;

    open spec fn deep_view(&self) -> ParameterDefinitionView {
        ParameterDefinitionView {
            name: self.name@,
            type_num: self.type_num,
            required: self.required,
            fields: self.fields.deep_view(),
        }
    }
}

/// One entry of an enumeration.
#[derive(Debug)]
pub struct EnumerationVariant {
    pub value: u16,
    pub name: String,
}

/// The model of an `EnumerationVariant`.
pub struct EnumerationVariantView {
    pub value: u16,
    pub name: Seq<char>,
}

impl DeepView for EnumerationVariant {
    type V = EnumerationVariantView;

    open spec fn deep_view(&self) -> EnumerationVariantView {
        EnumerationVariantView { value: self.value, name: self.name@ }
    }
}

/// The definition of an enumeration.
#[derive(Debug)]
pub struct EnumerationDefinition {
    pub name: String,
    pub entries: Vec<EnumerationVariant>,
}

/// The model of an `EnumerationDefinition`.
pub struct EnumerationDefinitionView {
    pub name: Seq<char>,
    pub entries: Seq<EnumerationVariantView>,
}

impl DeepView for EnumerationDefinition {
    type V = EnumerationDefinitionView;

    open spec fn deep_view(&self) -> EnumerationDefinitionView {
        EnumerationDefinitionView { name: self.name@, entries: self.entries.deep_view() }
    }
}

/// The definition of a choice.
#[derive(Debug)]
pub struct ChoiceDefinition {
    pub name: String,
    pub fields: Vec<Field>,
}

/// The model of a `ChoiceDefinition`.
pub struct ChoiceDefinitionView {
    pub name: Seq<char>,
    pub fields: Seq<FieldView>,
}

impl DeepView for ChoiceDefinition {
    type V = ChoiceDefinitionView;

    open spec fn deep_view(&self) -> ChoiceDefinitionView {
        ChoiceDefinitionView { name: self.name@, fields: self.fields.deep_view() }
    }
}

/// One definition of the protocol description.
#[derive(Debug)]
pub enum Definition {
    Message(MessageDefinition),
    Parameter(ParameterDefinition),
    Enum(EnumerationDefinition),
    Choice(ChoiceDefinition),
    /// A namespace; carries nothing that is used.
    Namespace,
}

/// The model of a `Definition`.
pub enum DefinitionView {
    Message(MessageDefinitionView),
    Parameter(ParameterDefinitionView),
    Enum(EnumerationDefinitionView),
    Choice(ChoiceDefinitionView),
    Namespace,
}

impl DeepView for Definition {
    type V = DefinitionView;

    open spec fn deep_view(&self) -> DefinitionView {
        match self {
            Definition::Message(d) => DefinitionView::Message(d.deep_view()),
            Definition::Parameter(d) => DefinitionView::Parameter(d.deep_view()),
            Definition::Enum(d) => DefinitionView::Enum(d.deep_view()),
            Definition::Choice(d) => DefinitionView::Choice(d.deep_view()),
            Definition::Namespace => DefinitionView::Namespace,
        }
    }
}

/// The protocol description: its definitions, in the order of the source.
#[derive(Debug)]
pub struct LLRPDef {
    pub definitions: Vec<Definition>,
}

impl DeepView for LLRPDef {
    type V = Seq<DefinitionView>;

    open spec fn deep_view(&self) -> Seq<DefinitionView> {
        self.definitions.deep_view()
    }
}

} // verus!
