//! Language values and the handles into the heap that they are made of.

use vstd::prelude::*;

use crate::heap::Property;

verus! {

/// Handle of a string in the heap.
#[derive(Debug, Clone, Copy, PartialEq, Eq, Structural)]
pub struct JsString {
    pub index: usize,
}

/// Handle of a symbol.
#[derive(Debug, Clone, Copy, PartialEq, Eq, Structural)]
pub struct Symbol {
    pub index: usize,
}

/// Handle of a number that is not a safe integer.
#[derive(Debug, Clone, Copy, PartialEq, Eq, Structural)]
pub struct HeapNumber {
    pub index: usize,
}

/// Handle of a BigInt.
#[derive(Debug, Clone, Copy, PartialEq, Eq, Structural)]
pub struct BigInt {
    pub index: usize,
}

/// Handle of an ordinary object in the heap.
#[derive(Debug, Clone, Copy, PartialEq, Eq, Structural)]
pub struct OrdinaryObject {
    pub index: usize,
}

/// Handle of an array in the heap.
#[derive(Debug, Clone, Copy, PartialEq, Eq, Structural)]
pub struct Array {
    pub index: usize,
}

/// Handle of a function.
#[derive(Debug, Clone, Copy, PartialEq, Eq, Structural)]
pub struct Function {
    pub index: usize,
}

/// Handle of a regular expression object in the heap.
#[derive(Debug, Clone, Copy, PartialEq, Eq, Structural)]
pub struct RegExp {
    pub index: usize,
}

/// Embedder objects let an embedder create objects carrying native data. Each
/// is backed by an ordinary object, created lazily for property storage, while
/// the embedder owns the native data.
#[derive(Debug, Clone, Copy, PartialEq, Eq, PartialOrd, Ord, Hash, Structural)]
pub struct EmbedderObject {
    pub index: usize,
}

/// Handle of a `WeakRef` in the heap.
#[derive(Debug, Clone, Copy, PartialEq, Eq, Structural)]
pub struct WeakRef {
    pub index: usize,
}

/// Handle of an object of any other kind.
#[derive(Debug, Clone, Copy, PartialEq, Eq, Structural)]
pub struct ExoticObject {
    pub index: usize,
}

/// An object of any kind.
#[derive(Debug, Clone, Copy, PartialEq, Eq, Structural)]
pub enum Object {
    Ordinary(OrdinaryObject),
    Array(Array),
    Function(Function),
    RegExp(RegExp),
    EmbedderObject(EmbedderObject),
    WeakRef(WeakRef),
    Exotic(ExoticObject),
}

/// A language value.
#[derive(Debug, Clone, Copy, PartialEq, Eq, Structural)]
pub enum Value {
    Undefined,
    Null,
    Boolean(bool),
    String(JsString),
    Symbol(Symbol),
    /// A number that is a safe integer.
    Integer(i64),
    /// Any other number.
    Number(HeapNumber),
    BigInt(BigInt),
    Object(Object),
}

/// A value that can be held weakly.
#[derive(Debug, Clone, Copy, PartialEq, Eq, Structural)]
pub enum WeakKey {
    Symbol(Symbol),
    Ordinary(OrdinaryObject),
    Array(Array),
    Function(Function),
    RegExp(RegExp),
    EmbedderObject(EmbedderObject),
    WeakRef(WeakRef),
    Exotic(ExoticObject),
}

/// The kind of a native exception.
#[derive(Debug, Clone, Copy, PartialEq, Eq, Structural)]
pub enum ExceptionType {
    SyntaxError,
    TypeError,
}

/// A throw completion.
#[derive(Debug)]
pub enum JsError {
    /// A native exception raised by the engine.
    Exception { kind: ExceptionType, message: String },
    /// A value thrown by running code.
    Thrown(Value),
}

/// A normal or a throw completion.
pub type JsResult<T> = Result<T, JsError>;

/// The Property Descriptor specification type.
#[derive(Debug, Clone, Copy, PartialEq, Eq, Structural)]
pub struct PropertyDescriptor {
    pub value: Option<Value>,
    pub writable: Option<bool>,
    pub get: Option<Function>,
    pub set: Option<Function>,
    pub enumerable: Option<bool>,
    pub configurable: Option<bool>,
}

/// Whether a completion throws the native exception `kind` with `message`.
pub open spec fn throws<T>(r: JsResult<T>, kind: ExceptionType, message: Seq<char>) -> bool {
    match r {
        Err(JsError::Exception { kind: k, message: m }) => k == kind && m@ == message,
        _ => false,
    }
}

impl PropertyDescriptor {
    /// The data property that the descriptor describes. Absent fields have
    /// their default values.
    pub fn into_data_property(self, key: String) -> (r: Property)
        ensures
            r.key == key,
            r.value == (match self.value {
                Some(value) => value,
                None => Value::Undefined,
            }),
            r.writable == (self.writable == Some(true)),
            r.enumerable == (self.enumerable == Some(true)),
            r.configurable == (self.configurable == Some(true)),
    {
        Property {
            key,
            value: match self.value {
                Some(value) => value,
                None => Value::Undefined,
            },
            writable: match self.writable {
                Some(writable) => writable,
                None => false,
            },
            enumerable: match self.enumerable {
                Some(enumerable) => enumerable,
                None => false,
            },
            configurable: match self.configurable {
                Some(configurable) => configurable,
                None => false,
            },
        }
    }
}

impl Object {
    /// The object that `value` is, if it is one.
    pub fn from_value(value: Value) -> (r: Option<Object>)
        ensures
            r == (match value {
                Value::Object(o) => Some(o),
                _ => None,
            }),
    {
        match value {
            Value::Object(o) => Some(o),
            _ => None,
        }
    }
}

/// ### 7.2.3 IsCallable ( argument )
///
/// The function that `value` is, if it can be called.
pub fn is_callable(value: Value) -> (r: Option<Function>)
    ensures
        r == (match value {
            Value::Object(Object::Function(f)) => Some(f),
            _ => None,
        }),
{
    match value {
        Value::Object(Object::Function(f)) => Some(f),
        _ => None,
    }
}

} // verus!
