//! The flags that say which object types an object-specific entry holds.
use vstd::prelude::*;

verus! {

/// The entry holds the type of the object it speaks of.
pub const ACE_OBJECT_TYPE_PRESENT: u32 = 0x0000_0001;

/// The entry holds the type of the child objects that inherit it.
pub const ACE_INHERITED_OBJECT_TYPE_PRESENT: u32 = 0x0000_0002;

/// The number that stands for the presence of the two object types.
pub open spec fn presence_bits(object_type: bool, inherited_object_type: bool) -> u32 {
    if object_type {
        if inherited_object_type {
            3
        } else {
            1
        }
    } else {
        if inherited_object_type {
            2
        } else {
            0
        }
    }
}

/// A set of the two flags: a number below 4.
#[derive(Clone, Copy, Debug, PartialEq, Eq, Structural)]
pub struct AceFlags {
    pub bits: u32,
}

impl AceFlags {
    pub open spec fn view(&self) -> u32 {
        self.bits
    }

    /// Whether the lowest bit is set.
    pub open spec fn has_object_type(&self) -> bool {
        self.bits % 2 == 1
    }

    /// Whether the second lowest bit is set.
    pub open spec fn has_inherited_object_type(&self) -> bool {
        self.bits / 2 % 2 == 1
    }

    pub fn empty() -> (r: AceFlags)
        ensures
            r@ == 0,
    {
        AceFlags { bits: 0 }
    }

    /// The set with the given bits, if no other bit than the two flags is
    /// set.
    pub fn from_bits(bits: u32) -> (r: Option<AceFlags>)
        ensures
            bits < 4 ==> r == Some(AceFlags { bits }),
            bits >= 4 ==> r is None,
    {
        if bits < 4 {
            Some(AceFlags { bits })
        } else {
            None
        }
    }

    /// The set that says which of the two object types are there.
    pub fn of_presence(object_type: bool, inherited_object_type: bool) -> (r: AceFlags)
        ensures
            r@ == presence_bits(object_type, inherited_object_type),
    {
        let low: u32 = if object_type {
            1
        } else {
            0
        };
        let high: u32 = if inherited_object_type {
            2
        } else {
            0
        };
        AceFlags { bits: low + high }
    }

    pub fn bits(&self) -> (r: u32)
        ensures
            r == self@,
    {
        self.bits
    }

    pub fn object_type_present(&self) -> (r: bool)
        ensures
            r == self.has_object_type(),
    {
        self.bits % 2 == 1
    }

    pub fn inherited_object_type_present(&self) -> (r: bool)
        ensures
            r == self.has_inherited_object_type(),
    {
        self.bits / 2 % 2 == 1
    }

    /// Bytes that a set of flags takes in an entry.
    pub fn raw_size(&self) -> (r: u16)
        ensures
            r == 4,
    {
        4
    }
}

} // verus!
