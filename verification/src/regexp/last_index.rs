//! Storage of the "lastIndex" property.

use vstd::prelude::*;

use crate::values::{PropertyDescriptor, Value};

verus! {

/// ## Optimistic storage for the RegExp "lastIndex" property
///
/// The property can take any language value, but under any reasonable use it
/// is an index into a string, which then means it is a 32-bit unsigned integer
/// since strings of 4 GiB length or larger are rare.
///
/// As such, the optimistic storage is a 32-bit unsigned integer with the
/// `u32::MAX` value used as a sentinel to signify that the backing object
/// should be asked for the actual value. If the backing object doesn't exist,
/// then the property value is `undefined`.
///
/// ### Writability of the "lastIndex" property
///
/// The writable bit is not stored here. If the backing object does not exist,
/// then it is `true`; if it does, the backing object must be asked.
#[derive(Debug, Clone, Copy, PartialEq, Eq, Structural)]
pub struct RegExpLastIndex {
    pub raw: u32,
}

/// The storage of an index: itself where it fits below the sentinel.
pub open spec fn last_index_of(value: int) -> RegExpLastIndex {
    if 0 <= value < u32::MAX {
        RegExpLastIndex { raw: value as u32 }
    } else {
        RegExpLastIndex { raw: u32::MAX }
    }
}

impl RegExpLastIndex {
    /// The index that is stored, if one is.
    pub open spec fn spec_get_value(self) -> Option<u32> {
        if self.raw == u32::MAX {
            None
        } else {
            Some(self.raw)
        }
    }

    /// The storage of index 0.
    pub fn zero() -> (r: Self)
        ensures
            r == last_index_of(0),
            r.raw == 0,
    {
        RegExpLastIndex { raw: 0 }
    }

    /// Create a RegExpLastIndex from a language value.
    pub fn from_value(value: Value) -> (r: Self)
        ensures
            r == (match value {
                Value::Integer(i) => last_index_of(i as int),
                _ => RegExpLastIndex { raw: u32::MAX },
            }),
    {
        match value {
            Value::Integer(i) => {
                if 0 <= i && i < u32::MAX as i64 {
                    RegExpLastIndex { raw: i as u32 }
                } else {
                    RegExpLastIndex { raw: u32::MAX }
                }
            },
            _ => RegExpLastIndex { raw: u32::MAX },
        }
    }

    /// Check if the RegExpLastIndex is an accurate language value.
    ///
    /// If the backing object does not exist, `undefined` is also accurately
    /// represented by an invalid RegExpLastIndex.
    pub fn is_valid(self) -> (r: bool)
        ensures
            r == (self.spec_get_value() is Some),
    {
        self.raw != u32::MAX
    }

    /// Get the current lastIndex property index value.
    ///
    /// If the current value is not a 32-bit unsigned integer, then None is
    /// returned.
    pub fn get_value(self) -> (r: Option<u32>)
        ensures
            r == self.spec_get_value(),
    {
        if self.raw == u32::MAX {
            None
        } else {
            Some(self.raw)
        }
    }

    /// The value that the property has while no backing object exists.
    pub open spec fn property_value(self) -> Value {
        match self.spec_get_value() {
            Some(i) => Value::Integer(i as i64),
            None => Value::Undefined,
        }
    }

    /// The value that the property has while no backing object exists.
    pub fn into_property_value(self) -> (r: Value)
        ensures
            r == self.property_value(),
    {
        match self.get_value() {
            Some(i) => Value::Integer(i as i64),
            None => Value::Undefined,
        }
    }

    /// Get the lastIndex property descriptor value.
    ///
    /// This property descriptor is only valid if the backing object does not
    /// exist. If it does exist, then both the value and the writable bit of
    /// this descriptor may differ from the real values.
    pub fn into_property_descriptor(self) -> (r: PropertyDescriptor)
        ensures
            r == (PropertyDescriptor {
                value: Some(self.property_value()),
                writable: Some(true),
                get: None,
                set: None,
                enumerable: Some(false),
                configurable: Some(false),
            }),
    {
        PropertyDescriptor {
            value: Some(self.into_property_value()),
            writable: Some(true),
            get: None,
            set: None,
            enumerable: Some(false),
            configurable: Some(false),
        }
    }
}

impl Default for RegExpLastIndex {
    /// No index is stored.
    fn default() -> (r: Self)
        ensures
            r == (RegExpLastIndex { raw: u32::MAX }),
    {
        RegExpLastIndex { raw: u32::MAX }
    }
}

impl From<usize> for RegExpLastIndex {
    fn from(value: usize) -> (r: Self) {
        if value < u32::MAX as usize {
            RegExpLastIndex { raw: value as u32 }
        } else {
            RegExpLastIndex { raw: u32::MAX }
        }
    }
}

impl vstd::std_specs::convert::FromSpecImpl<usize> for RegExpLastIndex {
    open spec fn obeys_from_spec() -> bool {
        true
    }

    open spec fn from_spec(value: usize) -> Self {
        last_index_of(value as int)
    }
}

/// A stored index reads back as itself exactly where it lies below the
/// sentinel; everything else reads back as nothing.
pub proof fn lemma_last_index_round_trip(value: int)
    ensures
        last_index_of(value).spec_get_value() == (if 0 <= value < u32::MAX {
            Some(value as u32)
        } else {
            None
        }),
{
}

/// Storing what a valid storage says the property is gives the same storage.
pub proof fn lemma_last_index_of_property_value(stored: RegExpLastIndex)
    ensures
        (match stored.property_value() {
            Value::Integer(i) => last_index_of(i as int),
            _ => RegExpLastIndex { raw: u32::MAX },
        }) == stored,
{
}

/// An index below 2^32 - 1 is stored as itself, and any other number as the
/// sentinel.
pub proof fn lemma_stored_index(value: int)
    ensures
        0 <= value < 0xFFFF_FFFF ==> last_index_of(value).raw == value,
        !(0 <= value < 0xFFFF_FFFF) ==> last_index_of(value).raw == 0xFFFF_FFFF,
{
}

/// The sentinel stands for no index and for an undefined property. Anything else
/// stands for itself.
pub proof fn lemma_stored_index_reads_back(stored: RegExpLastIndex)
    ensures
        stored.raw == 0xFFFF_FFFF ==> stored.spec_get_value() is None && stored.property_value()
            == Value::Undefined,
        stored.raw != 0xFFFF_FFFF ==> stored.spec_get_value() == Some(stored.raw)
            && stored.property_value() == Value::Integer(stored.raw as i64),
{
}

} // verus!
