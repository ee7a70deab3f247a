//! The encoder's output: values identified by position, without names.

use vstd::prelude::*;

verus! {

/// One encoded value.
///
/// Floating-point values are carried as their IEEE 754 bit pattern. An `Array` has a
/// length that the message type fixes, so a byte encoder writes its elements alone; a
/// `Sequence` is written with its length in front.
#[derive(Debug, PartialEq, Eq)]
pub enum Value {
    Bool(bool),
    Int8(i8),
    Int16(i16),
    Int32(i32),
    Int64(i64),
    UInt8(u8),
    UInt16(u16),
    UInt32(u32),
    UInt64(u64),
    Float32(u32),
    Float64(u64),
    Text(String),
    Array(Vec<Value>),
    Sequence(Vec<Value>),
    /// The fields of a nested message, in declared order.
    Struct(Vec<Value>),
}

/// An encoded message: one value per declared member, in declared order.
#[derive(Debug, PartialEq, Eq)]
pub struct Record {
    pub fields: Vec<Value>,
}

/// The view of a [`Value`].
pub enum ValueModel {
    Bool(bool),
    Int8(i8),
    Int16(i16),
    Int32(i32),
    Int64(i64),
    UInt8(u8),
    UInt16(u16),
    UInt32(u32),
    UInt64(u64),
    Float32(u32),
    Float64(u64),
    Text(Seq<char>),
    Array(Seq<ValueModel>),
    Sequence(Seq<ValueModel>),
    Struct(Seq<ValueModel>),
}

/// What an encoded value holds, as a mathematical value.
pub open spec fn value_model(value: &Value) -> ValueModel
    decreases value,
{
    match value {
        Value::Bool(x) => ValueModel::Bool(*x),
        Value::Int8(x) => ValueModel::Int8(*x),
        Value::Int16(x) => ValueModel::Int16(*x),
        Value::Int32(x) => ValueModel::Int32(*x),
        Value::Int64(x) => ValueModel::Int64(*x),
        Value::UInt8(x) => ValueModel::UInt8(*x),
        Value::UInt16(x) => ValueModel::UInt16(*x),
        Value::UInt32(x) => ValueModel::UInt32(*x),
        Value::UInt64(x) => ValueModel::UInt64(*x),
        Value::Float32(x) => ValueModel::Float32(*x),
        Value::Float64(x) => ValueModel::Float64(*x),
        Value::Text(text) => ValueModel::Text(text@),
        Value::Array(items) => ValueModel::Array(values_model(items)),
        Value::Sequence(items) => ValueModel::Sequence(values_model(items)),
        Value::Struct(fields) => ValueModel::Struct(values_model(fields)),
    }
}

/// The models of a list of values, in order.
pub open spec fn values_model(values: &Vec<Value>) -> Seq<ValueModel>
    decreases values,
{
    Seq::new(
        values@.len(),
        |i: int|
            if 0 <= i < values@.len() {
                value_model(&values@[i])
            } else {
                ValueModel::Bool(false)
            },
    )
}

impl View for Value {
    type V = ValueModel;

    open spec fn view(&self) -> ValueModel {
        value_model(self)
    }
}

impl View for Record {
    type V = Seq<ValueModel>;

    open spec fn view(&self) -> Seq<ValueModel> {
        values_model(&self.fields)
    }
}

} // verus!
