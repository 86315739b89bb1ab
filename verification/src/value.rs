//! Typed values: the trees that an interface type describes.

use vstd::prelude::*;
use crate::document::Number;
use crate::types::{Label, LabelModel};

verus! {

/// A field of a record value, or the chosen alternative of a variant value.
#[derive(Debug, PartialEq, Eq)]
pub struct FieldValue {
    pub id: Label,
    pub value: TypedValue,
}

/// A `FieldValue` as a mathematical value.
pub struct FieldValueModel {
    pub id: LabelModel,
    pub value: ValueModel,
}

/// A typed value. `Number` is an integer whose width nothing has fixed yet; `Nat` and `Int` hold
/// decimal digits, of any length.
#[derive(Debug, PartialEq, Eq)]
pub enum TypedValue {
    Null,
    Bool(bool),
    Number(String),
    Nat(String),
    Int(String),
    Nat8(u8),
    Nat16(u16),
    Nat32(u32),
    Nat64(u64),
    Int8(i8),
    Int16(i16),
    Int32(i32),
    Int64(i64),
    Float32(Number),
    Float64(Number),
    Text(String),
    Reserved,
    Principal(String),
    Service(String),
    Func(String, String),
    Absent,
    Opt(Box<TypedValue>),
    Vector(Vec<TypedValue>),
    Record(Vec<FieldValue>),
    Variant(Box<FieldValue>),
}

/// A `TypedValue` as a mathematical value.
pub enum ValueModel {
    Null,
    Bool(bool),
    Number(Seq<char>),
    Nat(Seq<char>),
    Int(Seq<char>),
    Nat8(u8),
    Nat16(u16),
    Nat32(u32),
    Nat64(u64),
    Int8(i8),
    Int16(i16),
    Int32(i32),
    Int64(i64),
    Float32(Number),
    Float64(Number),
    Text(Seq<char>),
    Reserved,
    Principal(Seq<char>),
    Service(Seq<char>),
    Func(Seq<char>, Seq<char>),
    Absent,
    Opt(Box<ValueModel>),
    Vector(Seq<ValueModel>),
    Record(Seq<FieldValueModel>),
    Variant(Box<FieldValueModel>),
}

/// The mathematical value of a typed value.
pub open spec fn value_view(value: TypedValue) -> ValueModel
    decreases value,
{
    match value {
        TypedValue::Null => ValueModel::Null,
        TypedValue::Bool(b) => ValueModel::Bool(b),
        TypedValue::Number(s) => ValueModel::Number(s@),
        TypedValue::Nat(s) => ValueModel::Nat(s@),
        TypedValue::Int(s) => ValueModel::Int(s@),
        TypedValue::Nat8(n) => ValueModel::Nat8(n),
        TypedValue::Nat16(n) => ValueModel::Nat16(n),
        TypedValue::Nat32(n) => ValueModel::Nat32(n),
        TypedValue::Nat64(n) => ValueModel::Nat64(n),
        TypedValue::Int8(n) => ValueModel::Int8(n),
        TypedValue::Int16(n) => ValueModel::Int16(n),
        TypedValue::Int32(n) => ValueModel::Int32(n),
        TypedValue::Int64(n) => ValueModel::Int64(n),
        TypedValue::Float32(n) => ValueModel::Float32(n),
        TypedValue::Float64(n) => ValueModel::Float64(n),
        TypedValue::Text(s) => ValueModel::Text(s@),
        TypedValue::Reserved => ValueModel::Reserved,
        TypedValue::Principal(s) => ValueModel::Principal(s@),
        TypedValue::Service(s) => ValueModel::Service(s@),
        TypedValue::Func(principal, method) => ValueModel::Func(principal@, method@),
        TypedValue::Absent => ValueModel::Absent,
        TypedValue::Opt(inner) => ValueModel::Opt(Box::new(value_view(*inner))),
        TypedValue::Vector(items) => ValueModel::Vector(values_view(items@)),
        TypedValue::Record(fields) => ValueModel::Record(field_values_view(fields@)),
        TypedValue::Variant(field) => ValueModel::Variant(
            Box::new(FieldValueModel { id: field.id@, value: value_view(field.value) }),
        ),
    }
}

/// The mathematical values of the items of a vector.
pub open spec fn values_view(items: Seq<TypedValue>) -> Seq<ValueModel>
    decreases items,
{
    if items.len() == 0 {
        Seq::empty()
    } else {
        values_view(items.drop_last()).push(value_view(items.last()))
    }
}

/// The mathematical values of the fields of a record value.
pub open spec fn field_values_view(fields: Seq<FieldValue>) -> Seq<FieldValueModel>
    decreases fields,
{
    if fields.len() == 0 {
        Seq::empty()
    } else {
        field_values_view(fields.drop_last()).push(
            FieldValueModel { id: fields.last().id@, value: value_view(fields.last().value) },
        )
    }
}

impl View for TypedValue {
    type V = ValueModel;

    open spec fn view(&self) -> ValueModel {
        value_view(*self)
    }
}

impl View for FieldValue {
    type V = FieldValueModel;

    open spec fn view(&self) -> FieldValueModel {
        FieldValueModel { id: self.id@, value: self.value@ }
    }
}

/// The view of a list of values is the list of their views.
pub proof fn lemma_values_view(items: Seq<TypedValue>)
    ensures
        values_view(items).len() == items.len(),
        forall|i: int| 0 <= i < items.len() ==> (#[trigger] values_view(items)[i]) == items[i]@,
    decreases items.len(),
{
    if items.len() > 0 {
        lemma_values_view(items.drop_last());
    }
}

/// The view of a list with one more value is the view of the list with one more view.
pub proof fn lemma_values_view_push(items: Seq<TypedValue>, last: TypedValue)
    ensures
        values_view(items.push(last)) == values_view(items).push(last@),
{
    assert(items.push(last).drop_last() =~= items);
}

/// The view of a list of field values is the list of their views.
pub proof fn lemma_field_values_view(fields: Seq<FieldValue>)
    ensures
        field_values_view(fields).len() == fields.len(),
        forall|i: int|
            0 <= i < fields.len() ==> (#[trigger] field_values_view(fields)[i]) == fields[i]@,
    decreases fields.len(),
{
    if fields.len() > 0 {
        lemma_field_values_view(fields.drop_last());
    }
}

/// The view of fields with one more field is the view of the fields with one more view.
pub proof fn lemma_field_values_view_push(fields: Seq<FieldValue>, last: FieldValue)
    ensures
        field_values_view(fields.push(last)) == field_values_view(fields).push(last@),
{
    assert(fields.push(last).drop_last() =~= fields);
}

} // verus!
