//! Condition values as queries return them.

use vstd::prelude::*;
use crate::float::Float64;
use crate::rcdb::models::ValueType;
use crate::timestamp::{Civil, Timestamp};

verus! {

/// A condition value as a mathematical value.
pub enum Datum {
    /// A value kept as text, with the type it was declared under.
    Text { value_type: ValueType, text: Option<Seq<char>> },
    Int(i64),
    /// A double-precision number by its bit pattern.
    Float(u64),
    Bool(bool),
    Time(Civil),
}

/// One condition value of a run.
#[derive(Debug, Clone)]
pub enum Value {
    /// A value kept as text, with the type it was declared under.
    Text { value_type: ValueType, text: Option<String> },
    Int(i64),
    Float(Float64),
    Bool(bool),
    Time(Timestamp),
}

impl View for Value {
    type V = Datum;

    open spec fn view(&self) -> Datum {
        match *self {
            Value::Text { value_type, text } => Datum::Text {
                value_type,
                text: match text {
                    Some(t) => Some(t@),
                    None => None,
                },
            },
            Value::Int(v) => Datum::Int(v),
            Value::Float(v) => Datum::Float(v@),
            Value::Bool(v) => Datum::Bool(v),
            Value::Time(v) => Datum::Time(v@),
        }
    }
}

impl Datum {
    /// The type of the value.
    pub open spec fn value_type(self) -> ValueType {
        match self {
            Datum::Text { value_type, .. } => value_type,
            Datum::Int(_) => ValueType::Int,
            Datum::Float(_) => ValueType::Float,
            Datum::Bool(_) => ValueType::Bool,
            Datum::Time(_) => ValueType::Time,
        }
    }
}

impl Value {
    /// A value kept as text.
    pub fn text(value_type: ValueType, text: Option<String>) -> (v: Value)
        ensures
            v@ == (Datum::Text {
                value_type,
                text: match text {
                    Some(t) => Some(t@),
                    None => None,
                },
            }),
    {
        Value::Text { value_type, text }
    }

    pub fn integer(value: i64) -> (v: Value)
        ensures
            v@ == Datum::Int(value),
    {
        Value::Int(value)
    }

    pub fn float(value: Float64) -> (v: Value)
        ensures
            v@ == Datum::Float(value@),
    {
        Value::Float(value)
    }

    pub fn bool(value: bool) -> (v: Value)
        ensures
            v@ == Datum::Bool(value),
    {
        Value::Bool(value)
    }

    pub fn time(value: Timestamp) -> (v: Value)
        ensures
            v@ == Datum::Time(value@),
    {
        Value::Time(value)
    }

    pub fn value_type(&self) -> (t: ValueType)
        ensures
            t == self@.value_type(),
    {
        match self {
            Value::Text { value_type, .. } => *value_type,
            Value::Int(_) => ValueType::Int,
            Value::Float(_) => ValueType::Float,
            Value::Bool(_) => ValueType::Bool,
            Value::Time(_) => ValueType::Time,
        }
    }

    pub fn as_string(&self) -> (r: Option<&str>)
        ensures
            match self@ {
                Datum::Text { text: Some(t), .. } => r matches Some(s) && s@ == t,
                _ => r is None,
            },
    {
        match self {
            Value::Text { text: Some(t), .. } => Some(t.as_str()),
            _ => None,
        }
    }

    pub fn as_int(&self) -> (r: Option<i64>)
        ensures
            r == match self@ {
                Datum::Int(v) => Some(v),
                _ => None,
            },
    {
        match self {
            Value::Int(v) => Some(*v),
            _ => None,
        }
    }

    pub fn as_float(&self) -> (r: Option<Float64>)
        ensures
            match self@ {
                Datum::Float(bits) => r matches Some(x) && x@ == bits,
                _ => r is None,
            },
    {
        match self {
            Value::Float(v) => Some(*v),
            _ => None,
        }
    }

    pub fn as_bool(&self) -> (r: Option<bool>)
        ensures
            r == match self@ {
                Datum::Bool(v) => Some(v),
                _ => None,
            },
    {
        match self {
            Value::Bool(v) => Some(*v),
            _ => None,
        }
    }

    pub fn as_time(&self) -> (r: Option<Timestamp>)
        ensures
            match self@ {
                Datum::Time(c) => r matches Some(t) && t@ == c,
                _ => r is None,
            },
    {
        match self {
            Value::Time(v) => Some(*v),
            _ => None,
        }
    }
}

} // verus!
