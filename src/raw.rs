//! Raw descriptor trees as the outside parser hands them over, in plain values.
use vstd::prelude::*;

verus! {

/// The value of an unrecognized field of a descriptor node.
#[derive(Debug, PartialEq)]
pub enum UnknownValue {
    Varint(u64),
    Fixed32(u32),
    Fixed64(u64),
    LengthDelimited(Vec<u8>),
}

pub ghost enum UnknownValueView {
    Varint(u64),
    Fixed32(u32),
    Fixed64(u64),
    LengthDelimited(Seq<u8>),
}

impl View for UnknownValue {
    type V = UnknownValueView;

    open spec fn view(&self) -> UnknownValueView {
        match self {
            UnknownValue::Varint(v) => UnknownValueView::Varint(*v),
            UnknownValue::Fixed32(v) => UnknownValueView::Fixed32(*v),
            UnknownValue::Fixed64(v) => UnknownValueView::Fixed64(*v),
            UnknownValue::LengthDelimited(b) => UnknownValueView::LengthDelimited(b@),
        }
    }
}

/// An unrecognized field of a descriptor node's options: its number and value.
#[derive(Debug, PartialEq)]
pub struct UnknownField {
    pub number: u32,
    pub value: UnknownValue,
}

pub ghost struct UnknownFieldView {
    pub number: u32,
    pub value: UnknownValueView,
}

impl View for UnknownField {
    type V = UnknownFieldView;

    open spec fn view(&self) -> UnknownFieldView {
        UnknownFieldView { number: self.number, value: self.value@ }
    }
}

/// The views of a sequence of unrecognized fields.
pub open spec fn unknown_views(v: Seq<UnknownField>) -> Seq<UnknownFieldView> {
    v.map_values(|u: UnknownField| u@)
}

impl UnknownField {
    pub fn copy(&self) -> (r: UnknownField)
        ensures
            r@ == self@,
    {
        let value = match &self.value {
            UnknownValue::Varint(v) => UnknownValue::Varint(*v),
            UnknownValue::Fixed32(v) => UnknownValue::Fixed32(*v),
            UnknownValue::Fixed64(v) => UnknownValue::Fixed64(*v),
            UnknownValue::LengthDelimited(b) => UnknownValue::LengthDelimited(b.clone()),
        };
        UnknownField { number: self.number, value }
    }
}

/// Copies a list of unrecognized fields.
pub fn copy_unknown_fields(v: &Vec<UnknownField>) -> (r: Vec<UnknownField>)
    ensures
        unknown_views(r@) == unknown_views(v@),
{
    let mut r: Vec<UnknownField> = Vec::new();
    let mut i: usize = 0;
    while i < v.len()
        invariant
            i <= v@.len(),
            unknown_views(r@) == unknown_views(v@.take(i as int)),
        decreases v@.len() - i,
    {
        let ghost before = r@;
        r.push(v[i].copy());
        proof {
            assert(v@.take(i + 1) =~= v@.take(i as int).push(v@[i as int]));
            assert(unknown_views(r@) =~= unknown_views(before).push(v@[i as int]@));
            assert(unknown_views(v@.take(i + 1)) =~= unknown_views(v@.take(i as int)).push(
                v@[i as int]@,
            ));
        }
        i = i + 1;
    }
    assert(v@.take(v@.len() as int) =~= v@);
    r
}

/// Label of a declared field.
#[derive(Clone, Copy, PartialEq, Eq, Structural, Debug)]
pub enum FieldLabel {
    Optional,
    Required,
    Repeated,
}

/// Declared type of a field.
#[derive(Clone, Copy, PartialEq, Eq, Structural, Debug)]
pub enum FieldType {
    Double,
    Float,
    Int64,
    UInt64,
    Int32,
    Fixed64,
    Fixed32,
    Bool,
    String,
    Group,
    Message,
    Bytes,
    UInt32,
    Enum,
    SFixed32,
    SFixed64,
    SInt32,
    SInt64,
}

/// A declared field of a message.
#[derive(Debug, PartialEq)]
pub struct RawField {
    pub name: String,
    pub number: i32,
    pub label: FieldLabel,
    pub field_type: FieldType,
    /// Fully-qualified name of the field's message or enum type; empty for scalars.
    pub referenced_type: String,
    pub options: Vec<UnknownField>,
}

/// A message declaration.
#[derive(Debug, PartialEq)]
pub struct RawMessage {
    pub name: String,
    pub fields: Vec<RawField>,
    pub options: Vec<UnknownField>,
}

/// A member of an enum declaration.
#[derive(Debug, PartialEq)]
pub struct RawEnumValue {
    pub name: String,
    pub number: i32,
}

/// An enum declaration.
#[derive(Debug, PartialEq)]
pub struct RawEnum {
    pub name: String,
    pub values: Vec<RawEnumValue>,
}

/// A method of a service declaration; its message types are fully-qualified names.
#[derive(Debug, PartialEq)]
pub struct RawMethod {
    pub name: String,
    pub input_type: String,
    pub output_type: String,
    pub options: Vec<UnknownField>,
}

/// A service declaration.
#[derive(Debug, PartialEq)]
pub struct RawService {
    pub name: String,
    pub methods: Vec<RawMethod>,
    pub options: Vec<UnknownField>,
}

/// One parsed document: its name, package and top-level declarations.
#[derive(Debug, PartialEq)]
pub struct RawFile {
    pub name: String,
    pub package: String,
    pub enums: Vec<RawEnum>,
    pub messages: Vec<RawMessage>,
    pub services: Vec<RawService>,
}

} // verus!
