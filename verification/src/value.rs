//! The values that flow along connections and sit in inputs as constants.

use vstd::prelude::*;
use crate::data_type::MyDataType;
use crate::document::{document_of, Document};

verus! {

/// A single-precision number, held by the 32 bits of its IEEE 754 encoding.
/// The library stores and moves such numbers; it never computes with them.
#[derive(Clone, Copy, Debug, PartialEq, Eq, Structural, Hash)]
pub struct Scalar {
    pub bits: u32,
}

/// A vector of two numbers.
#[derive(Clone, Copy, Debug, PartialEq, Eq, Structural, Hash)]
pub struct Vec2 {
    pub x: Scalar,
    pub y: Scalar,
}

/// A value: what an output produces and what an input holds as its constant.
/// There is one shape of value for each class of port, but nothing ties the
/// value stored in an input to the class that the input declares.
#[derive(Clone, Debug, PartialEq)]
#[allow(inconsistent_fields)]
pub enum MyValueType {
    Vec2 { value: Vec2 },
    Scalar { value: Scalar },
    Widget { value: serde_json::Value },
    Text { value: String },
}

/// What a value holds.
pub enum ValueView {
    Vec2(Vec2),
    Scalar(Scalar),
    Widget(Document),
    Text(Seq<char>),
}

impl ValueView {
    /// The class of port that this shape of value belongs to.
    pub open spec fn data_type(self) -> MyDataType {
        match self {
            ValueView::Vec2(_) => MyDataType::Vec2,
            ValueView::Scalar(_) => MyDataType::Scalar,
            ValueView::Widget(_) => MyDataType::Widget,
            ValueView::Text(_) => MyDataType::Text,
        }
    }
}

/// A value was asked for in one shape and has another.
#[derive(Clone, Copy, Debug, PartialEq, Eq, Structural, Hash)]
pub struct TypeMismatch {
    /// The shape that the value has.
    pub actual: MyDataType,
    /// The shape that was asked for.
    pub expected: MyDataType,
}

impl View for MyValueType {
    type V = ValueView;

    open spec fn view(&self) -> ValueView {
        match *self {
            MyValueType::Vec2 { value } => ValueView::Vec2(value),
            MyValueType::Scalar { value } => ValueView::Scalar(value),
            MyValueType::Widget { value } => ValueView::Widget(document_of(value)),
            MyValueType::Text { value } => ValueView::Text(value@),
        }
    }
}

impl Default for MyValueType {
    /// The neutral value that seeds a new input: the scalar zero.
    fn default() -> (r: Self)
        ensures
            r@ == ValueView::Scalar(Scalar { bits: 0 }),
    {
        MyValueType::Scalar { value: Scalar { bits: 0 } }
    }
}

impl MyValueType {
    /// The class of port that this shape of value belongs to.
    pub fn data_type(&self) -> (t: MyDataType)
        ensures
            t == self@.data_type(),
    {
        match self {
            MyValueType::Vec2 { .. } => MyDataType::Vec2,
            MyValueType::Scalar { .. } => MyDataType::Scalar,
            MyValueType::Widget { .. } => MyDataType::Widget,
            MyValueType::Text { .. } => MyDataType::Text,
        }
    }

    /// A copy that holds what this value holds.
    pub fn duplicate(&self) -> (r: Self)
        ensures
            r@ == self@,
    {
        match self {
            MyValueType::Vec2 { value } => MyValueType::Vec2 { value: *value },
            MyValueType::Scalar { value } => MyValueType::Scalar { value: *value },
            MyValueType::Widget { value } => MyValueType::Widget { value: value.clone() },
            MyValueType::Text { value } => MyValueType::Text { value: value.clone() },
        }
    }

    /// The vector inside a vector value. Any other shape is refused, with the
    /// shape found: nothing is converted.
    pub fn try_to_vec2(self) -> (r: Result<Vec2, TypeMismatch>)
        ensures
            r == (match self@ {
                ValueView::Vec2(value) => Ok::<Vec2, TypeMismatch>(value),
                _ => Err(TypeMismatch { actual: self@.data_type(), expected: MyDataType::Vec2 }),
            }),
    {
        match self {
            MyValueType::Vec2 { value } => Ok(value),
            other => Err(TypeMismatch { actual: other.data_type(), expected: MyDataType::Vec2 }),
        }
    }

    /// The number inside a scalar value. Any other shape is refused, with the
    /// shape found: nothing is converted.
    pub fn try_to_scalar(self) -> (r: Result<Scalar, TypeMismatch>)
        ensures
            r == (match self@ {
                ValueView::Scalar(value) => Ok::<Scalar, TypeMismatch>(value),
                _ => Err(TypeMismatch { actual: self@.data_type(), expected: MyDataType::Scalar }),
            }),
    {
        match self {
            MyValueType::Scalar { value } => Ok(value),
            other => Err(TypeMismatch { actual: other.data_type(), expected: MyDataType::Scalar }),
        }
    }
}

} // verus!
