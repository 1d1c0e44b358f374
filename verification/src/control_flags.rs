//! The control flags of a security descriptor.
use crate::acl::AclType;
use crate::text::{code_if, push_code_if, string_of};
use vstd::prelude::*;

verus! {

pub const NONE: u16 = 0x0000;

pub const OWNER_DEFAULTED: u16 = 0x0001;

pub const GROUP_DEFAULTED: u16 = 0x0002;

/// Without this flag the descriptor has no DACL.
pub const DISCRETIONARY_ACL_PRESENT: u16 = 0x0004;

pub const DISCRETIONARY_ACL_DEFAULTED: u16 = 0x0008;

/// Without this flag the descriptor has no SACL.
pub const SYSTEM_ACL_PRESENT: u16 = 0x0010;

pub const SYSTEM_ACL_DEFAULTED: u16 = 0x0020;

pub const DISCRETIONARY_ACL_UNTRUSTED: u16 = 0x0040;

pub const SERVER_SECURITY: u16 = 0x0080;

pub const DISCRETIONARY_ACL_AUTO_INHERIT_REQUIRED: u16 = 0x0100;

pub const SYSTEM_ACL_AUTO_INHERIT_REQUIRED: u16 = 0x0200;

pub const DISCRETIONARY_ACL_AUTO_INHERITED: u16 = 0x0400;

pub const SYSTEM_ACL_AUTO_INHERITED: u16 = 0x0800;

/// The DACL takes nothing over from the parent object.
pub const DISCRETIONARY_ACL_PROTECTED: u16 = 0x1000;

/// The SACL takes nothing over from the parent object.
pub const SYSTEM_ACL_PROTECTED: u16 = 0x2000;

pub const RM_CONTROL_VALID: u16 = 0x4000;

/// The parts of the descriptor follow its header in one buffer, and the
/// header gives their offsets.
pub const SELF_RELATIVE: u16 = 0x8000;

/// A set of control flags. Every bit has a meaning, so every 16-bit value is
/// a set.
#[derive(Clone, Copy, Debug, PartialEq, Eq, Structural)]
pub struct ControlFlags {
    pub bits: u16,
}

impl ControlFlags {
    pub open spec fn view(&self) -> u16 {
        self.bits
    }

    pub open spec fn has(&self, flag: u16) -> bool {
        self@ & flag == flag
    }

    pub fn empty() -> (r: ControlFlags)
        ensures
            r@ == 0,
    {
        ControlFlags { bits: 0 }
    }

    pub fn from_bits(bits: u16) -> (r: ControlFlags)
        ensures
            r@ == bits,
    {
        ControlFlags { bits }
    }

    pub fn bits(&self) -> (r: u16)
        ensures
            r == self@,
    {
        self.bits
    }

    pub fn contains(&self, flag: u16) -> (r: bool)
        ensures
            r == self.has(flag),
    {
        self.bits & flag == flag
    }

    pub fn union(&self, other: ControlFlags) -> (r: ControlFlags)
        ensures
            r@ == self@ | other@,
    {
        ControlFlags { bits: self.bits | other.bits }
    }

    /// The flags of the ACL of the given kind as SDDL writes them: `P`, `AR`
    /// and `AI`, in this order, each where its flag is set.
    pub open spec fn acl_flags_text(&self, acl_type: AclType) -> Seq<char> {
        match acl_type {
            AclType::SACL => code_if_one(self.has(SYSTEM_ACL_PROTECTED), 'P') + code_if(
                self.has(SYSTEM_ACL_AUTO_INHERIT_REQUIRED),
                'A',
                'R',
            ) + code_if(self.has(SYSTEM_ACL_AUTO_INHERITED), 'A', 'I'),
            AclType::DACL => code_if_one(self.has(DISCRETIONARY_ACL_PROTECTED), 'P') + code_if(
                self.has(DISCRETIONARY_ACL_AUTO_INHERIT_REQUIRED),
                'A',
                'R',
            ) + code_if(self.has(DISCRETIONARY_ACL_AUTO_INHERITED), 'A', 'I'),
        }
    }

    /// What `sddl_string` returns: `NO_ACCESS_CONTROL` for the empty set, and
    /// the flags of the ACL of the given kind otherwise.
    pub open spec fn sddl_text(&self, acl_type: AclType) -> Seq<char> {
        if self@ == 0 {
            null_acl_text()
        } else {
            self.acl_flags_text(acl_type)
        }
    }

    /// Appends the flags of the ACL of the given kind.
    pub fn push_acl_flags(&self, out: &mut Vec<char>, acl_type: AclType)
        ensures
            final(out)@ == old(out)@ + self.acl_flags_text(acl_type),
    {
        match acl_type {
            AclType::SACL => {
                if self.contains(SYSTEM_ACL_PROTECTED) {
                    out.push('P');
                }
                push_code_if(out, self.contains(SYSTEM_ACL_AUTO_INHERIT_REQUIRED), 'A', 'R');
                push_code_if(out, self.contains(SYSTEM_ACL_AUTO_INHERITED), 'A', 'I');
            },
            AclType::DACL => {
                if self.contains(DISCRETIONARY_ACL_PROTECTED) {
                    out.push('P');
                }
                push_code_if(out, self.contains(DISCRETIONARY_ACL_AUTO_INHERIT_REQUIRED), 'A', 'R');
                push_code_if(out, self.contains(DISCRETIONARY_ACL_AUTO_INHERITED), 'A', 'I');
            },
        }
        assert(out@ =~= old(out)@ + self.acl_flags_text(acl_type));
    }

    pub fn sddl_string(&self, acl_type: AclType) -> (r: String)
        ensures
            r@ == self.sddl_text(acl_type),
    {
        let mut out: Vec<char> = Vec::new();
        if self.bits == 0 {
            push_null_acl(&mut out);
        } else {
            self.push_acl_flags(&mut out, acl_type);
        }
        string_of(out.as_slice())
    }
}

pub open spec fn code_if_one(present: bool, a: char) -> Seq<char> {
    if present {
        seq![a]
    } else {
        Seq::empty()
    }
}

/// The word `NO_ACCESS_CONTROL`.
pub open spec fn null_acl_text() -> Seq<char> {
    seq![
        'N',
        'O',
        '_',
        'A',
        'C',
        'C',
        'E',
        'S',
        'S',
        '_',
        'C',
        'O',
        'N',
        'T',
        'R',
        'O',
        'L',
    ]
}

pub fn push_null_acl(out: &mut Vec<char>)
    ensures
        final(out)@ == old(out)@ + null_acl_text(),
{
    out.push('N');
    out.push('O');
    out.push('_');
    out.push('A');
    out.push('C');
    out.push('C');
    out.push('E');
    out.push('S');
    out.push('S');
    out.push('_');
    out.push('C');
    out.push('O');
    out.push('N');
    out.push('T');
    out.push('R');
    out.push('O');
    out.push('L');
    assert(out@ =~= old(out)@ + null_acl_text());
}

} // verus!
