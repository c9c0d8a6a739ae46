//! Metadata describing the language's built-in types: type definitions,
//! instances carrying a definition beside a value, and the surface meant for
//! user-defined classes and functions. Evaluation does not use this surface;
//! user-defined classes and functions are a future extension point.

use vstd::prelude::*;
use crate::value::LoxValue;
use crate::ast::{Identifier, Block};
use crate::environment::Environment;

verus! {

/// The definition of a type: its name, its named fields, and its methods.
#[derive(Debug)]
pub struct LoxTypeDef {
    pub name: String,
    pub fields: Vec<(String, LoxTypeDef)>,
    pub functions: Vec<LoxFunctionDef>,
}

/// The definition of a function: its name and its parameter names.
#[derive(Debug)]
pub struct LoxFunctionDef {
    pub name: String,
    pub params: Vec<String>,
}

/// Anything that carries a type definition.
pub trait LoxAny {
    /// The name of this value's type definition.
    fn def_name(&self) -> String;
}

/// A marker for values the runtime can hold.
pub trait LoxObject {

}

/// A named type: classes and functions both have one.
pub trait LoxType {
    /// The name of the type as this definition carries it.
    fn kind_name(&self) -> String;
}

/// Something that can run a function definition against arguments.
pub trait FunctionInvoker {
    /// Runs `def` and hands back its result.
    fn invoke(&self, def: &LoxFunctionDef) -> LoxValue;
}

/// A value tagged with its type definition.
#[derive(Debug)]
pub struct LoxTypeInstance {
    pub def: LoxTypeDef,
    pub value: LoxValue,
}

impl LoxAny for LoxTypeInstance {
    fn def_name(&self) -> String {
        self.def.name.clone()
    }
}

impl LoxObject for LoxTypeInstance {

}

impl LoxObject for LoxValue {

}

/// The marker for the class of classes.
#[derive(Debug)]
pub struct Class;

/// A class: a named collection of fields and methods.
#[derive(Debug)]
pub struct LoxClass {
    pub name: String,
    pub fields: Vec<(String, LoxTypeDef)>,
    pub functions: Vec<LoxFunctionDef>,
}

impl LoxClass {
    /// A class named `Class` with the given fields and no methods.
    pub fn new(fields: Vec<(String, LoxTypeDef)>) -> (r: LoxClass)
        ensures
            r.name@ == "Class"@,
            r.fields == fields,
            r.functions@.len() == 0,
    {
        LoxClass { name: String::from_str("Class"), fields, functions: Vec::new() }
    }
}

impl LoxType for LoxClass {
    fn kind_name(&self) -> String {
        self.name.clone()
    }
}

/// An instance of a class: its own scope, its value, and its definition.
pub struct LoxInstance {
    pub environment: Environment,
    pub value: LoxValue,
    pub class: LoxTypeDef,
}

impl LoxInstance {
    /// A fresh instance of `class` holding `value`, with its own empty
    /// scope.
    pub fn new(value: LoxValue, class: LoxTypeDef) -> (r: LoxInstance)
        ensures
            r.value@ == value@,
            r.class == class,
            r.environment@.len() == 1,
    {
        LoxInstance { environment: Environment::new(), value, class }
    }
}

/// A user-defined function: unused by evaluation, kept as the surface a
/// later extension would fill in.
#[derive(Debug)]
pub struct LoxFunction {
    pub name: String,
    pub associated_type: LoxClass,
    pub params: Vec<(Identifier, LoxClass)>,
    pub block: Block,
}

impl LoxType for LoxFunction {
    fn kind_name(&self) -> String {
        self.name.clone()
    }
}

impl LoxFunction {
    /// The parameter names of this function, in order.
    pub fn param_idents(&self) -> (r: Vec<Identifier>)
        ensures
            r@.len() == self.params@.len(),
            forall|j: int|
                0 <= j < r@.len() ==> #[trigger] r@[j].0@ == self.params@[j].0.0@,
    {
        let mut out: Vec<Identifier> = Vec::new();
        let mut i: usize = 0;
        while i < self.params.len()
            invariant
                i <= self.params@.len(),
                out@.len() == i,
                forall|j: int|
                    0 <= j < i ==> #[trigger] out@[j].0@ == self.params@[j].0.0@,
            decreases self.params@.len() - i,
        {
            out.push(Identifier(self.params[i].0.0.duplicate()));
            i = i + 1;
        }
        out
    }
}

/// The type definition of the booleans.
#[derive(Debug)]
pub struct LoxBool {
    pub def: LoxTypeDef,
    pub value: bool,
}

impl LoxBool {
    /// A boolean instance.
    pub fn new(value: bool) -> (r: LoxBool)
        ensures
            r.value == value,
            r.def.name@ == "Bool"@,
    {
        LoxBool { def: LoxBool::def(), value }
    }

    /// The class describing the booleans: one field, the type's name.
    pub fn class() -> (r: LoxClass)
        ensures
            r.name@ == "Class"@,
            r.fields@.len() == 1,
            r.fields@[0].0@ == "name"@,
            r.fields@[0].1.name@ == "Bool"@,
    {
        let mut fields: Vec<(String, LoxTypeDef)> = Vec::new();
        fields.push((String::from_str("name"), LoxBool::def()));
        LoxClass::new(fields)
    }

    /// The bare type definition of the booleans.
    pub fn def() -> (r: LoxTypeDef)
        ensures
            r.name@ == "Bool"@,
            r.fields@.len() == 0,
            r.functions@.len() == 0,
    {
        LoxTypeDef { name: String::from_str("Bool"), fields: Vec::new(), functions: Vec::new() }
    }
}

/// The type definition of the strings.
#[derive(Debug)]
pub struct LoxString {
    pub def: LoxTypeDef,
    pub value: String,
}

impl LoxString {
    /// A string instance.
    pub fn new(value: String) -> (r: LoxString)
        ensures
            r.value@ == value@,
            r.def.name@ == "String"@,
    {
        LoxString { def: LoxString::def(), value }
    }

    /// The class describing the strings: one field, the type's name.
    pub fn class() -> (r: LoxClass)
        ensures
            r.name@ == "Class"@,
            r.fields@.len() == 1,
            r.fields@[0].0@ == "name"@,
            r.fields@[0].1.name@ == "String"@,
    {
        let mut fields: Vec<(String, LoxTypeDef)> = Vec::new();
        fields.push((String::from_str("name"), LoxString::def()));
        LoxClass::new(fields)
    }

    /// The bare type definition of the strings.
    pub fn def() -> (r: LoxTypeDef)
        ensures
            r.name@ == "String"@,
            r.fields@.len() == 0,
            r.functions@.len() == 0,
    {
        LoxTypeDef { name: String::from_str("String"), fields: Vec::new(), functions: Vec::new() }
    }
}

} // verus!
