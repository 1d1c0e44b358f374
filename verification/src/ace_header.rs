//! The head of an access control entry: its kind, its flags, its size and the
//! rights it speaks of.
use crate::access_mask::AccessMask;
use crate::text::{code_if, push_code_after, push_code_if, string_of};
use vstd::prelude::*;

verus! {

/// Bytes of an entry before its first variable part: kind, flags, size and
/// rights.
pub const ACE_HEADER_SIZE: u16 = 8;

/// The least multiple of 4 that is not below `n`.
pub open spec fn round_up_4(n: int) -> int {
    n + (4 - n % 4) % 4
}

/// The head of an entry. The kind of the entry is held by the entry itself.
#[derive(Clone, Copy, Debug, PartialEq, Eq, Structural)]
pub struct AceHeader {
    /// Flags on inheritance and auditing.
    pub ace_flags: AceHeaderFlags,
    /// Size of the whole entry in bytes, a multiple of 4.
    pub ace_size: u16,
    /// The rights that the entry speaks of.
    pub mask: AccessMask,
}

impl AceHeader {
    /// The head of an entry whose parts after the head take
    /// `ace_size_without_header` bytes. The size of the entry is that of the
    /// head and of those parts, rounded up to a multiple of 4.
    pub fn new(ace_flags: AceHeaderFlags, ace_size_without_header: u16, mask: AccessMask) -> (r:
        AceHeader)
        requires
            ACE_HEADER_SIZE + round_up_4(ace_size_without_header as int) <= u16::MAX,
        ensures
            r.ace_flags == ace_flags,
            r.mask == mask,
            r.ace_size == ACE_HEADER_SIZE + round_up_4(ace_size_without_header as int),
            r.ace_size % 4 == 0,
    {
        let expected_padding: u16 = (4 - ace_size_without_header % 4) % 4;
        let ace_size: u16 = ACE_HEADER_SIZE + ace_size_without_header + expected_padding;
        AceHeader { ace_flags, ace_size, mask }
    }

    pub fn ace_flags(&self) -> (r: &AceHeaderFlags)
        ensures
            *r == self.ace_flags,
    {
        &self.ace_flags
    }

    pub fn ace_size(&self) -> (r: &u16)
        ensures
            *r == self.ace_size,
    {
        &self.ace_size
    }

    pub fn mask(&self) -> (r: &AccessMask)
        ensures
            *r == self.mask,
    {
        &self.mask
    }

    /// Bytes of padding that an entry with `ace_size_without_header` bytes
    /// after its head ends with.
    pub fn expected_padding(ace_size_without_header: u16) -> (r: u16)
        ensures
            r == round_up_4(ace_size_without_header as int) - ace_size_without_header,
            r < 4,
    {
        (4 - ace_size_without_header % 4) % 4
    }
}

/// The kinds of access control entries, by the names of their type tags.
#[derive(Clone, Copy, Debug, PartialEq, Eq, Structural)]
#[allow(non_camel_case_types)]
pub enum AceType {
    /// Tag 0x00: access allowed.
    ACCESS_ALLOWED_ACE_TYPE,
    /// Tag 0x01: access denied.
    ACCESS_DENIED_ACE_TYPE,
    /// Tag 0x02: system audit.
    SYSTEM_AUDIT_ACE_TYPE,
    /// Tag 0x03: reserved.
    SYSTEM_ALARM_ACE_TYPE,
    /// Tag 0x04: reserved.
    ACCESS_ALLOWED_COMPOUND_ACE_TYPE,
    /// Tag 0x05: access allowed, object-specific.
    ACCESS_ALLOWED_OBJECT_ACE_TYPE,
    /// Tag 0x06: access denied, object-specific.
    ACCESS_DENIED_OBJECT_ACE_TYPE,
    /// Tag 0x07: system audit, object-specific.
    SYSTEM_AUDIT_OBJECT_ACE_TYPE,
    /// Tag 0x08: reserved.
    SYSTEM_ALARM_OBJECT_ACE_TYPE,
    /// Tag 0x09: access allowed, with application data.
    ACCESS_ALLOWED_CALLBACK_ACE_TYPE,
    /// Tag 0x0a: access denied, with application data.
    ACCESS_DENIED_CALLBACK_ACE_TYPE,
    /// Tag 0x0b: access allowed, object-specific, with application data.
    ACCESS_ALLOWED_CALLBACK_OBJECT_ACE_TYPE,
    /// Tag 0x0c: access denied, object-specific, with application data.
    ACCESS_DENIED_CALLBACK_OBJECT_ACE_TYPE,
    /// Tag 0x0d: system audit, with application data.
    SYSTEM_AUDIT_CALLBACK_ACE_TYPE,
    /// Tag 0x0e: reserved.
    SYSTEM_ALARM_CALLBACK_ACE_TYPE,
    /// Tag 0x0f: system audit, object-specific, with application data.
    SYSTEM_AUDIT_CALLBACK_OBJECT_ACE_TYPE,
    /// Tag 0x10: reserved.
    SYSTEM_ALARM_CALLBACK_OBJECT_ACE_TYPE,
    /// Tag 0x11: mandatory label.
    SYSTEM_MANDATORY_LABEL_ACE_TYPE,
    /// Tag 0x12: resource attribute, with application data.
    SYSTEM_RESOURCE_ATTRIBUTE_ACE_TYPE,
    /// Tag 0x13: scoped policy.
    SYSTEM_SCOPED_POLICY_ID_ACE_TYPE,
}

impl AceType {
    pub open spec fn spec_code(&self) -> u8 {
        match self {
            AceType::ACCESS_ALLOWED_ACE_TYPE => 0x00,
            AceType::ACCESS_DENIED_ACE_TYPE => 0x01,
            AceType::SYSTEM_AUDIT_ACE_TYPE => 0x02,
            AceType::SYSTEM_ALARM_ACE_TYPE => 0x03,
            AceType::ACCESS_ALLOWED_COMPOUND_ACE_TYPE => 0x04,
            AceType::ACCESS_ALLOWED_OBJECT_ACE_TYPE => 0x05,
            AceType::ACCESS_DENIED_OBJECT_ACE_TYPE => 0x06,
            AceType::SYSTEM_AUDIT_OBJECT_ACE_TYPE => 0x07,
            AceType::SYSTEM_ALARM_OBJECT_ACE_TYPE => 0x08,
            AceType::ACCESS_ALLOWED_CALLBACK_ACE_TYPE => 0x09,
            AceType::ACCESS_DENIED_CALLBACK_ACE_TYPE => 0x0a,
            AceType::ACCESS_ALLOWED_CALLBACK_OBJECT_ACE_TYPE => 0x0b,
            AceType::ACCESS_DENIED_CALLBACK_OBJECT_ACE_TYPE => 0x0c,
            AceType::SYSTEM_AUDIT_CALLBACK_ACE_TYPE => 0x0d,
            AceType::SYSTEM_ALARM_CALLBACK_ACE_TYPE => 0x0e,
            AceType::SYSTEM_AUDIT_CALLBACK_OBJECT_ACE_TYPE => 0x0f,
            AceType::SYSTEM_ALARM_CALLBACK_OBJECT_ACE_TYPE => 0x10,
            AceType::SYSTEM_MANDATORY_LABEL_ACE_TYPE => 0x11,
            AceType::SYSTEM_RESOURCE_ATTRIBUTE_ACE_TYPE => 0x12,
            AceType::SYSTEM_SCOPED_POLICY_ID_ACE_TYPE => 0x13,
        }
    }

    pub open spec fn spec_from_code(code: u8) -> Option<AceType> {
        if code == 0x00 {
            Some(AceType::ACCESS_ALLOWED_ACE_TYPE)
        } else if code == 0x01 {
            Some(AceType::ACCESS_DENIED_ACE_TYPE)
        } else if code == 0x02 {
            Some(AceType::SYSTEM_AUDIT_ACE_TYPE)
        } else if code == 0x03 {
            Some(AceType::SYSTEM_ALARM_ACE_TYPE)
        } else if code == 0x04 {
            Some(AceType::ACCESS_ALLOWED_COMPOUND_ACE_TYPE)
        } else if code == 0x05 {
            Some(AceType::ACCESS_ALLOWED_OBJECT_ACE_TYPE)
        } else if code == 0x06 {
            Some(AceType::ACCESS_DENIED_OBJECT_ACE_TYPE)
        } else if code == 0x07 {
            Some(AceType::SYSTEM_AUDIT_OBJECT_ACE_TYPE)
        } else if code == 0x08 {
            Some(AceType::SYSTEM_ALARM_OBJECT_ACE_TYPE)
        } else if code == 0x09 {
            Some(AceType::ACCESS_ALLOWED_CALLBACK_ACE_TYPE)
        } else if code == 0x0a {
            Some(AceType::ACCESS_DENIED_CALLBACK_ACE_TYPE)
        } else if code == 0x0b {
            Some(AceType::ACCESS_ALLOWED_CALLBACK_OBJECT_ACE_TYPE)
        } else if code == 0x0c {
            Some(AceType::ACCESS_DENIED_CALLBACK_OBJECT_ACE_TYPE)
        } else if code == 0x0d {
            Some(AceType::SYSTEM_AUDIT_CALLBACK_ACE_TYPE)
        } else if code == 0x0e {
            Some(AceType::SYSTEM_ALARM_CALLBACK_ACE_TYPE)
        } else if code == 0x0f {
            Some(AceType::SYSTEM_AUDIT_CALLBACK_OBJECT_ACE_TYPE)
        } else if code == 0x10 {
            Some(AceType::SYSTEM_ALARM_CALLBACK_OBJECT_ACE_TYPE)
        } else if code == 0x11 {
            Some(AceType::SYSTEM_MANDATORY_LABEL_ACE_TYPE)
        } else if code == 0x12 {
            Some(AceType::SYSTEM_RESOURCE_ATTRIBUTE_ACE_TYPE)
        } else if code == 0x13 {
            Some(AceType::SYSTEM_SCOPED_POLICY_ID_ACE_TYPE)
        } else {
            None
        }
    }

    /// Whether the kind is one of those reserved for future use, which have
    /// no layout.
    pub open spec fn spec_is_reserved(&self) -> bool {
        match self {
            AceType::SYSTEM_ALARM_ACE_TYPE
            | AceType::ACCESS_ALLOWED_COMPOUND_ACE_TYPE
            | AceType::SYSTEM_ALARM_OBJECT_ACE_TYPE
            | AceType::SYSTEM_ALARM_CALLBACK_ACE_TYPE
            | AceType::SYSTEM_ALARM_CALLBACK_OBJECT_ACE_TYPE => true,
            _ => false,
        }
    }

    /// Whether entries of the kind hold object flags and up to two object
    /// types.
    pub open spec fn spec_has_object_fields(&self) -> bool {
        match self {
            AceType::ACCESS_ALLOWED_OBJECT_ACE_TYPE
            | AceType::ACCESS_DENIED_OBJECT_ACE_TYPE
            | AceType::SYSTEM_AUDIT_OBJECT_ACE_TYPE
            | AceType::ACCESS_ALLOWED_CALLBACK_OBJECT_ACE_TYPE
            | AceType::ACCESS_DENIED_CALLBACK_OBJECT_ACE_TYPE
            | AceType::SYSTEM_AUDIT_CALLBACK_OBJECT_ACE_TYPE => true,
            _ => false,
        }
    }

    /// Whether entries of the kind end with application data.
    pub open spec fn spec_has_application_data(&self) -> bool {
        match self {
            AceType::ACCESS_ALLOWED_CALLBACK_ACE_TYPE
            | AceType::ACCESS_DENIED_CALLBACK_ACE_TYPE
            | AceType::ACCESS_ALLOWED_CALLBACK_OBJECT_ACE_TYPE
            | AceType::ACCESS_DENIED_CALLBACK_OBJECT_ACE_TYPE
            | AceType::SYSTEM_AUDIT_OBJECT_ACE_TYPE
            | AceType::SYSTEM_AUDIT_CALLBACK_ACE_TYPE
            | AceType::SYSTEM_AUDIT_CALLBACK_OBJECT_ACE_TYPE
            | AceType::SYSTEM_RESOURCE_ATTRIBUTE_ACE_TYPE => true,
            _ => false,
        }
    }

    /// The type tag of the kind.
    pub fn code(&self) -> (r: u8)
        ensures
            r == self.spec_code(),
            Self::spec_from_code(r) == Some(*self),
    {
        match self {
            AceType::ACCESS_ALLOWED_ACE_TYPE => 0x00,
            AceType::ACCESS_DENIED_ACE_TYPE => 0x01,
            AceType::SYSTEM_AUDIT_ACE_TYPE => 0x02,
            AceType::SYSTEM_ALARM_ACE_TYPE => 0x03,
            AceType::ACCESS_ALLOWED_COMPOUND_ACE_TYPE => 0x04,
            AceType::ACCESS_ALLOWED_OBJECT_ACE_TYPE => 0x05,
            AceType::ACCESS_DENIED_OBJECT_ACE_TYPE => 0x06,
            AceType::SYSTEM_AUDIT_OBJECT_ACE_TYPE => 0x07,
            AceType::SYSTEM_ALARM_OBJECT_ACE_TYPE => 0x08,
            AceType::ACCESS_ALLOWED_CALLBACK_ACE_TYPE => 0x09,
            AceType::ACCESS_DENIED_CALLBACK_ACE_TYPE => 0x0a,
            AceType::ACCESS_ALLOWED_CALLBACK_OBJECT_ACE_TYPE => 0x0b,
            AceType::ACCESS_DENIED_CALLBACK_OBJECT_ACE_TYPE => 0x0c,
            AceType::SYSTEM_AUDIT_CALLBACK_ACE_TYPE => 0x0d,
            AceType::SYSTEM_ALARM_CALLBACK_ACE_TYPE => 0x0e,
            AceType::SYSTEM_AUDIT_CALLBACK_OBJECT_ACE_TYPE => 0x0f,
            AceType::SYSTEM_ALARM_CALLBACK_OBJECT_ACE_TYPE => 0x10,
            AceType::SYSTEM_MANDATORY_LABEL_ACE_TYPE => 0x11,
            AceType::SYSTEM_RESOURCE_ATTRIBUTE_ACE_TYPE => 0x12,
            AceType::SYSTEM_SCOPED_POLICY_ID_ACE_TYPE => 0x13,
        }
    }

    /// The kind that a type tag stands for.
    pub fn from_code(code: u8) -> (r: Option<AceType>)
        ensures
            r == Self::spec_from_code(code),
            r matches Some(t) ==> t.spec_code() == code,
    {
        match code {
            0x00 => Some(AceType::ACCESS_ALLOWED_ACE_TYPE),
            0x01 => Some(AceType::ACCESS_DENIED_ACE_TYPE),
            0x02 => Some(AceType::SYSTEM_AUDIT_ACE_TYPE),
            0x03 => Some(AceType::SYSTEM_ALARM_ACE_TYPE),
            0x04 => Some(AceType::ACCESS_ALLOWED_COMPOUND_ACE_TYPE),
            0x05 => Some(AceType::ACCESS_ALLOWED_OBJECT_ACE_TYPE),
            0x06 => Some(AceType::ACCESS_DENIED_OBJECT_ACE_TYPE),
            0x07 => Some(AceType::SYSTEM_AUDIT_OBJECT_ACE_TYPE),
            0x08 => Some(AceType::SYSTEM_ALARM_OBJECT_ACE_TYPE),
            0x09 => Some(AceType::ACCESS_ALLOWED_CALLBACK_ACE_TYPE),
            0x0a => Some(AceType::ACCESS_DENIED_CALLBACK_ACE_TYPE),
            0x0b => Some(AceType::ACCESS_ALLOWED_CALLBACK_OBJECT_ACE_TYPE),
            0x0c => Some(AceType::ACCESS_DENIED_CALLBACK_OBJECT_ACE_TYPE),
            0x0d => Some(AceType::SYSTEM_AUDIT_CALLBACK_ACE_TYPE),
            0x0e => Some(AceType::SYSTEM_ALARM_CALLBACK_ACE_TYPE),
            0x0f => Some(AceType::SYSTEM_AUDIT_CALLBACK_OBJECT_ACE_TYPE),
            0x10 => Some(AceType::SYSTEM_ALARM_CALLBACK_OBJECT_ACE_TYPE),
            0x11 => Some(AceType::SYSTEM_MANDATORY_LABEL_ACE_TYPE),
            0x12 => Some(AceType::SYSTEM_RESOURCE_ATTRIBUTE_ACE_TYPE),
            0x13 => Some(AceType::SYSTEM_SCOPED_POLICY_ID_ACE_TYPE),
            _ => None,
        }
    }

    pub fn is_reserved(&self) -> (r: bool)
        ensures
            r == self.spec_is_reserved(),
    {
        match self {
            AceType::SYSTEM_ALARM_ACE_TYPE
            | AceType::ACCESS_ALLOWED_COMPOUND_ACE_TYPE
            | AceType::SYSTEM_ALARM_OBJECT_ACE_TYPE
            | AceType::SYSTEM_ALARM_CALLBACK_ACE_TYPE
            | AceType::SYSTEM_ALARM_CALLBACK_OBJECT_ACE_TYPE => true,
            _ => false,
        }
    }

    pub fn has_object_fields(&self) -> (r: bool)
        ensures
            r == self.spec_has_object_fields(),
    {
        match self {
            AceType::ACCESS_ALLOWED_OBJECT_ACE_TYPE
            | AceType::ACCESS_DENIED_OBJECT_ACE_TYPE
            | AceType::SYSTEM_AUDIT_OBJECT_ACE_TYPE
            | AceType::ACCESS_ALLOWED_CALLBACK_OBJECT_ACE_TYPE
            | AceType::ACCESS_DENIED_CALLBACK_OBJECT_ACE_TYPE
            | AceType::SYSTEM_AUDIT_CALLBACK_OBJECT_ACE_TYPE => true,
            _ => false,
        }
    }

    pub fn has_application_data(&self) -> (r: bool)
        ensures
            r == self.spec_has_application_data(),
    {
        match self {
            AceType::ACCESS_ALLOWED_CALLBACK_ACE_TYPE
            | AceType::ACCESS_DENIED_CALLBACK_ACE_TYPE
            | AceType::ACCESS_ALLOWED_CALLBACK_OBJECT_ACE_TYPE
            | AceType::ACCESS_DENIED_CALLBACK_OBJECT_ACE_TYPE
            | AceType::SYSTEM_AUDIT_OBJECT_ACE_TYPE
            | AceType::SYSTEM_AUDIT_CALLBACK_ACE_TYPE
            | AceType::SYSTEM_AUDIT_CALLBACK_OBJECT_ACE_TYPE
            | AceType::SYSTEM_RESOURCE_ATTRIBUTE_ACE_TYPE => true,
            _ => false,
        }
    }
}

/// Noncontainer child objects inherit the entry.
pub const OBJECT_INHERIT_ACE: u8 = 0x01;

/// Child objects that are containers inherit the entry.
pub const CONTAINER_INHERIT_ACE: u8 = 0x02;

/// The entry is inherited by one generation only.
pub const NO_PROPAGATE_INHERIT_ACE: u8 = 0x04;

/// The entry does not apply to the object it is attached to.
pub const INHERIT_ONLY_ACE: u8 = 0x08;

/// The entry was inherited.
pub const INHERITED_ACE: u8 = 0x10;

pub const CRITICAL: u8 = 0x20;

/// Audit entries: successful access is reported.
pub const SUCCESSFUL_ACCESS_ACE_FLAG: u8 = 0x40;

/// Shares its bit with `SUCCESSFUL_ACCESS_ACE_FLAG`.
pub const TRUST_PROTECTED_FILTER: u8 = 0x40;

/// Audit entries: failed access is reported.
pub const FAILED_ACCESS_ACE_FLAG: u8 = 0x80;

/// The flags in the head of an entry. Every bit has a meaning, so every byte
/// is a set of flags.
#[derive(Clone, Copy, Debug, PartialEq, Eq, Structural)]
pub struct AceHeaderFlags {
    pub bits: u8,
}

/// The flag that a two-letter code of SDDL stands for.
pub open spec fn ace_flag_of_code(a: char, b: char) -> Option<u8> {
    if a == 'O' && b == 'I' {
        Some(OBJECT_INHERIT_ACE)
    } else if a == 'C' && b == 'I' {
        Some(CONTAINER_INHERIT_ACE)
    } else if a == 'N' && b == 'P' {
        Some(NO_PROPAGATE_INHERIT_ACE)
    } else if a == 'I' && b == 'O' {
        Some(INHERIT_ONLY_ACE)
    } else if a == 'I' && b == 'D' {
        Some(INHERITED_ACE)
    } else if a == 'S' && b == 'A' {
        Some(SUCCESSFUL_ACCESS_ACE_FLAG)
    } else if a == 'F' && b == 'A' {
        Some(FAILED_ACCESS_ACE_FLAG)
    } else if a == 'C' && b == 'R' {
        Some(CRITICAL)
    } else if a == 'T' && b == 'P' {
        Some(TRUST_PROTECTED_FILTER)
    } else {
        None
    }
}

/// The flags that a row of two-letter codes stands for, if the text is such
/// a row: the union of the flags of its codes.
pub open spec fn ace_flags_of_text(s: Seq<char>) -> Option<u8>
    decreases s.len(),
{
    if s.len() == 0 {
        Some(0u8)
    } else if s.len() == 1 {
        None
    } else {
        match (
            ace_flags_of_text(s.take(s.len() - 2)),
            ace_flag_of_code(s[s.len() - 2], s[s.len() - 1]),
        ) {
            (Some(before), Some(flag)) => Some(before | flag),
            _ => None,
        }
    }
}

impl AceHeaderFlags {
    pub open spec fn view(&self) -> u8 {
        self.bits
    }

    pub open spec fn has(&self, flag: u8) -> bool {
        self@ & flag == flag
    }

    /// The flags as SDDL writes them: the two-letter codes of the flags that
    /// are set, in the order object inherit, container inherit, no propagate,
    /// inherit only, inherited, audit success, audit failure, critical.
    pub open spec fn sddl_text(&self) -> Seq<char> {
        code_if(self.has(OBJECT_INHERIT_ACE), 'O', 'I') + code_if(
            self.has(CONTAINER_INHERIT_ACE),
            'C',
            'I',
        ) + code_if(self.has(NO_PROPAGATE_INHERIT_ACE), 'N', 'P') + code_if(
            self.has(INHERIT_ONLY_ACE),
            'I',
            'O',
        ) + code_if(self.has(INHERITED_ACE), 'I', 'D') + code_if(
            self.has(SUCCESSFUL_ACCESS_ACE_FLAG),
            'S',
            'A',
        ) + code_if(self.has(FAILED_ACCESS_ACE_FLAG), 'F', 'A') + code_if(
            self.has(CRITICAL),
            'C',
            'R',
        )
    }

    pub fn empty() -> (r: AceHeaderFlags)
        ensures
            r@ == 0,
    {
        AceHeaderFlags { bits: 0 }
    }

    pub fn from_bits(bits: u8) -> (r: AceHeaderFlags)
        ensures
            r@ == bits,
    {
        AceHeaderFlags { bits }
    }

    pub fn bits(&self) -> (r: u8)
        ensures
            r == self@,
    {
        self.bits
    }

    pub fn contains(&self, flag: u8) -> (r: bool)
        ensures
            r == self.has(flag),
    {
        self.bits & flag == flag
    }

    pub fn union(&self, other: AceHeaderFlags) -> (r: AceHeaderFlags)
        ensures
            r@ == self@ | other@,
    {
        AceHeaderFlags { bits: self.bits | other.bits }
    }

    /// Appends the flags as SDDL writes them.
    pub fn push_sddl(&self, out: &mut Vec<char>)
        ensures
            final(out)@ == old(out)@ + self.sddl_text(),
    {
        let ghost base = out@;
        let ghost t1 = code_if(self.has(OBJECT_INHERIT_ACE), 'O', 'I');
        let ghost t2 = t1 + code_if(self.has(CONTAINER_INHERIT_ACE), 'C', 'I');
        let ghost t3 = t2 + code_if(self.has(NO_PROPAGATE_INHERIT_ACE), 'N', 'P');
        let ghost t4 = t3 + code_if(self.has(INHERIT_ONLY_ACE), 'I', 'O');
        let ghost t5 = t4 + code_if(self.has(INHERITED_ACE), 'I', 'D');
        let ghost t6 = t5 + code_if(self.has(SUCCESSFUL_ACCESS_ACE_FLAG), 'S', 'A');
        let ghost t7 = t6 + code_if(self.has(FAILED_ACCESS_ACE_FLAG), 'F', 'A');
        push_code_if(out, self.contains(OBJECT_INHERIT_ACE), 'O', 'I');
        push_code_after(out, Ghost(base), Ghost(t1), self.contains(CONTAINER_INHERIT_ACE), 'C', 'I');
        push_code_after(out, Ghost(base), Ghost(t2), self.contains(NO_PROPAGATE_INHERIT_ACE), 'N', 'P');
        push_code_after(out, Ghost(base), Ghost(t3), self.contains(INHERIT_ONLY_ACE), 'I', 'O');
        push_code_after(out, Ghost(base), Ghost(t4), self.contains(INHERITED_ACE), 'I', 'D');
        push_code_after(out, Ghost(base), Ghost(t5), self.contains(SUCCESSFUL_ACCESS_ACE_FLAG), 'S', 'A');
        push_code_after(out, Ghost(base), Ghost(t6), self.contains(FAILED_ACCESS_ACE_FLAG), 'F', 'A');
        push_code_after(out, Ghost(base), Ghost(t7), self.contains(CRITICAL), 'C', 'R');
    }

    pub fn sddl_string(&self) -> (r: String)
        ensures
            r@ == self.sddl_text(),
    {
        let mut out: Vec<char> = Vec::new();
        self.push_sddl(&mut out);
        string_of(out.as_slice())
    }

    /// The flag that the code `a`, `b` stands for.
    pub fn flag_of_code(a: char, b: char) -> (r: Option<u8>)
        ensures
            r == ace_flag_of_code(a, b),
    {
        if a == 'O' && b == 'I' {
            Some(OBJECT_INHERIT_ACE)
        } else if a == 'C' && b == 'I' {
            Some(CONTAINER_INHERIT_ACE)
        } else if a == 'N' && b == 'P' {
            Some(NO_PROPAGATE_INHERIT_ACE)
        } else if a == 'I' && b == 'O' {
            Some(INHERIT_ONLY_ACE)
        } else if a == 'I' && b == 'D' {
            Some(INHERITED_ACE)
        } else if a == 'S' && b == 'A' {
            Some(SUCCESSFUL_ACCESS_ACE_FLAG)
        } else if a == 'F' && b == 'A' {
            Some(FAILED_ACCESS_ACE_FLAG)
        } else if a == 'C' && b == 'R' {
            Some(CRITICAL)
        } else if a == 'T' && b == 'P' {
            Some(TRUST_PROTECTED_FILTER)
        } else {
            None
        }
    }

    /// Reads the characters from `start` up to `end` as a row of two-letter
    /// flag codes.
    pub fn from_sddl(s: &[char], start: usize, end: usize) -> (r: Option<AceHeaderFlags>)
        requires
            start <= end <= s@.len(),
        ensures
            match r {
                Some(f) => ace_flags_of_text(s@.subrange(start as int, end as int)) == Some(f@),
                None => ace_flags_of_text(s@.subrange(start as int, end as int)) is None,
            },
    {
        let ghost f = s@.subrange(start as int, end as int);
        let mut acc: u8 = 0;
        let mut i: usize = start;
        while i < end
            invariant
                start <= i <= end <= s@.len(),
                f == s@.subrange(start as int, end as int),
                (i - start) % 2 == 0,
                ace_flags_of_text(f.take(i - start)) == Some(acc),
            decreases end - i,
        {
            if end - i < 2 {
                proof {
                    lemma_ace_flags_odd(f);
                }
                return None;
            }
            let ghost next = f.take(i - start + 2);
            proof {
                assert(next.take(next.len() - 2) =~= f.take(i - start));
                assert(next[next.len() - 2] == s@[i as int]);
                assert(next[next.len() - 1] == s@[i + 1]);
            }
            match Self::flag_of_code(s[i], s[i + 1]) {
                Some(flag) => {
                    acc = acc | flag;
                },
                None => {
                    proof {
                        lemma_ace_flags_prefix(f, i - start + 2);
                    }
                    return None;
                },
            }
            i += 2;
        }
        assert(f.take(end - start) =~= f);
        Some(AceHeaderFlags { bits: acc })
    }
}

/// A text of odd length is no row of two-letter codes.
pub proof fn lemma_ace_flags_odd(s: Seq<char>)
    requires
        s.len() % 2 == 1,
    ensures
        ace_flags_of_text(s) is None,
    decreases s.len(),
{
    if s.len() > 1 {
        lemma_ace_flags_odd(s.take(s.len() - 2));
    }
}

/// Where a prefix of even length is no row of codes, the whole text is none.
pub proof fn lemma_ace_flags_prefix(s: Seq<char>, k: int)
    requires
        0 <= k <= s.len(),
        k % 2 == 0,
        ace_flags_of_text(s.take(k)) is None,
    ensures
        ace_flags_of_text(s) is None,
    decreases s.len(),
{
    if s.len() % 2 == 1 {
        lemma_ace_flags_odd(s);
    } else if k < s.len() {
        let t = s.take(s.len() - 2);
        assert(t.take(k) =~= s.take(k));
        lemma_ace_flags_prefix(t, k);
    } else {
        assert(s.take(k) =~= s);
    }
}

} // verus!
