//! Runtime values. A value is `Nil`, an exact integer number, a boolean, or a
//! string; values are created fresh by evaluation and never mutated in place.

use vstd::prelude::*;
use crate::text::int_text;

verus! {

/// The dynamic type of a runtime value, used by type errors.
#[derive(Clone, Copy, Debug, PartialEq, Eq, Structural)]
pub enum LoxType {
    Nil,
    Number,
    Bool,
    String,
}

impl LoxType {
    /// The name of the type as it appears in diagnostics.
    pub fn name(&self) -> (s: String)
        ensures
            s@ == type_text(*self),
    {
        match self {
            LoxType::Nil => String::from_str("nil"),
            LoxType::Number => String::from_str("number"),
            LoxType::Bool => String::from_str("bool"),
            LoxType::String => String::from_str("string"),
        }
    }
}

/// The diagnostic name of a type.
pub open spec fn type_text(t: LoxType) -> Seq<char> {
    match t {
        LoxType::Nil => "nil"@,
        LoxType::Number => "number"@,
        LoxType::Bool => "bool"@,
        LoxType::String => "string"@,
    }
}

/// A runtime value.
#[derive(Clone, Debug, PartialEq)]
pub enum LoxValue {
    Nil,
    Number(i64),
    Bool(bool),
    String(std::string::String),
}

/// Mathematical model of a runtime value.
#[verifier::ext_equal]
pub enum ValueModel {
    Nil,
    Num(int),
    Bool(bool),
    Str(Seq<char>),
}

impl View for LoxValue {
    type V = ValueModel;

    open spec fn view(&self) -> ValueModel {
        match self {
            LoxValue::Nil => ValueModel::Nil,
            LoxValue::Number(i) => ValueModel::Num(*i as int),
            LoxValue::Bool(b) => ValueModel::Bool(*b),
            LoxValue::String(s) => ValueModel::Str(s@),
        }
    }
}

/// The dynamic type of a value model.
pub open spec fn type_of(v: ValueModel) -> LoxType {
    match v {
        ValueModel::Nil => LoxType::Nil,
        ValueModel::Num(_) => LoxType::Number,
        ValueModel::Bool(_) => LoxType::Bool,
        ValueModel::Str(_) => LoxType::String,
    }
}

/// Equality of two value models: same type and same payload.
pub open spec fn value_eq(a: ValueModel, b: ValueModel) -> bool {
    match (a, b) {
        (ValueModel::Nil, ValueModel::Nil) => true,
        (ValueModel::Num(x), ValueModel::Num(y)) => x == y,
        (ValueModel::Bool(x), ValueModel::Bool(y)) => x == y,
        (ValueModel::Str(x), ValueModel::Str(y)) => x == y,
        _ => false,
    }
}

/// The textual rendering of a value, as `print` writes it.
pub open spec fn value_text(v: ValueModel) -> Seq<char> {
    match v {
        ValueModel::Nil => "nil"@,
        ValueModel::Num(i) => int_text(i),
        ValueModel::Bool(b) => if b {
            "true"@
        } else {
            "false"@
        },
        ValueModel::Str(s) => s,
    }
}

impl LoxValue {
    /// The dynamic type of this value.
    pub fn lox_type(&self) -> (t: LoxType)
        ensures
            t == type_of(self@),
    {
        match self {
            LoxValue::Nil => LoxType::Nil,
            LoxValue::Number(_) => LoxType::Number,
            LoxValue::Bool(_) => LoxType::Bool,
            LoxValue::String(_) => LoxType::String,
        }
    }

    /// Whether this value is `Nil`.
    pub fn is_nil(&self) -> (r: bool)
        ensures
            r == (self@ is Nil),
    {
        match self {
            LoxValue::Nil => true,
            _ => false,
        }
    }

    /// Whether this value and `other` have the same dynamic type.
    pub fn is_same_type_as(&self, other: &LoxValue) -> (r: bool)
        ensures
            r == (type_of(self@) == type_of(other@)),
    {
        self.lox_type() == other.lox_type()
    }

    /// An explicit deep copy; the copy has the same model as the original.
    pub fn duplicate(&self) -> (r: LoxValue)
        ensures
            r@ == self@,
    {
        match self {
            LoxValue::Nil => LoxValue::Nil,
            LoxValue::Number(i) => LoxValue::Number(*i),
            LoxValue::Bool(b) => LoxValue::Bool(*b),
            LoxValue::String(s) => LoxValue::String(s.clone()),
        }
    }

    /// Decides `value_eq` on two values.
    pub fn equals(&self, other: &LoxValue) -> (r: bool)
        ensures
            r == value_eq(self@, other@),
    {
        match (self, other) {
            (LoxValue::Nil, LoxValue::Nil) => true,
            (LoxValue::Number(x), LoxValue::Number(y)) => x == y,
            (LoxValue::Bool(x), LoxValue::Bool(y)) => x == y,
            (LoxValue::String(x), LoxValue::String(y)) => *x == *y,
            _ => false,
        }
    }

    /// Renders this value as `print` writes it.
    pub fn to_text(&self) -> (s: String)
        ensures
            s@ == value_text(self@),
    {
        match self {
            LoxValue::Nil => String::from_str("nil"),
            LoxValue::Number(i) => crate::text::i64_to_string(*i),
            LoxValue::Bool(b) => {
                if *b {
                    String::from_str("true")
                } else {
                    String::from_str("false")
                }
            },
            LoxValue::String(s) => s.clone(),
        }
    }
}

} // verus!
