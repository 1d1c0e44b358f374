//! Security descriptors: the owner and the primary group of an object, and
//! its two access control lists.
use crate::acl::{aces_text, decode_acl, Acl, AclType, AclView};
use crate::bytes::{push_u16, push_u32, read_u16, read_u32, u16_at, u16_bytes, u32_at, u32_bytes};
use crate::control_flags::{
    ControlFlags, DISCRETIONARY_ACL_PRESENT, SELF_RELATIVE, SYSTEM_ACL_PRESENT,
};
use crate::error::{DecodeError, Error, Failure};
use crate::parser::{
    domain_view, parse_security_descriptor, security_descriptor_error_position,
    security_descriptor_of_sddl,
};
use crate::sid::{decode_sid, Sid, SidView};
use crate::text::string_of;
use vstd::prelude::*;

verus! {

/// Bytes of the head of a descriptor: revision, a reserved byte, the control
/// flags, and four offsets.
pub const SECURITY_DESCRIPTOR_HEADER_SIZE: u32 = 20;

/// A descriptor as contracts see it. The revision is always 1.
pub struct SecurityDescriptorView {
    pub flags: ControlFlags,
    pub owner: Option<SidView>,
    pub group: Option<SidView>,
    pub sacl: Option<AclView>,
    pub dacl: Option<AclView>,
}

pub open spec fn optional_acl_len(acl: Option<AclView>) -> nat {
    match acl {
        Some(a) => a.acl_size as nat,
        None => 0,
    }
}

pub open spec fn optional_acl_bytes(acl: Option<AclView>) -> Seq<u8> {
    match acl {
        Some(a) => a.encoding(),
        None => Seq::empty(),
    }
}

pub open spec fn optional_sid_len(sid: Option<SidView>) -> nat {
    match sid {
        Some(s) => s.raw_len(),
        None => 0,
    }
}

pub open spec fn optional_sid_bytes(sid: Option<SidView>) -> Seq<u8> {
    match sid {
        Some(s) => s.encoding(),
        None => Seq::empty(),
    }
}

/// `O:` or `G:` and the canonical text of the SID, where there is one.
pub open spec fn optional_sid_text(tag: char, sid: Option<SidView>) -> Seq<char> {
    match sid {
        Some(s) => seq![tag, ':'] + s.text(),
        None => Seq::empty(),
    }
}

/// The tag of the list, `:`, its flags among those of the descriptor, and
/// its entries, where there is a list.
pub open spec fn optional_acl_text(
    flags: ControlFlags,
    acl_type: AclType,
    acl: Option<AclView>,
) -> Seq<char> {
    match acl {
        Some(a) => seq![acl_type.tag(), ':'] + flags.acl_flags_text(acl_type) + aces_text(
            a.ace_list,
        ),
        None => Seq::empty(),
    }
}

/// The control flags that `new` gives a descriptor with the given lists: that
/// the descriptor is self-relative, and for each list that is there, that it
/// is present, and the flags of its own context.
pub open spec fn flags_of_parts(dacl: Option<AclView>, sacl: Option<AclView>) -> u16 {
    let with_dacl = match dacl {
        Some(a) => SELF_RELATIVE | a.control_flags.bits | DISCRETIONARY_ACL_PRESENT,
        None => SELF_RELATIVE,
    };
    match sacl {
        Some(a) => with_dacl | a.control_flags.bits | SYSTEM_ACL_PRESENT,
        None => with_dacl,
    }
}

impl SecurityDescriptorView {
    /// The descriptor is self-relative, its parts are well-formed, and a
    /// list that is there is flagged as present.
    pub open spec fn wf(self) -> bool {
        &&& self.flags.has(SELF_RELATIVE)
        &&& (self.owner matches Some(s) ==> s.wf())
        &&& (self.group matches Some(s) ==> s.wf())
        &&& (self.sacl matches Some(a) ==> a.wf() && self.flags.has(SYSTEM_ACL_PRESENT))
        &&& (self.dacl matches Some(a) ==> a.wf() && self.flags.has(DISCRETIONARY_ACL_PRESENT))
    }

    /// Where the SACL stands in the binary form: after the head.
    pub open spec fn sacl_offset(self) -> nat {
        if self.sacl is Some {
            20
        } else {
            0
        }
    }

    /// Where the DACL stands in the binary form: after the SACL.
    pub open spec fn dacl_offset(self) -> nat {
        if self.dacl is Some {
            20 + optional_acl_len(self.sacl)
        } else {
            0
        }
    }

    /// Where the owner stands in the binary form: after the DACL.
    pub open spec fn owner_offset(self) -> nat {
        if self.owner is Some {
            20 + optional_acl_len(self.sacl) + optional_acl_len(self.dacl)
        } else {
            0
        }
    }

    /// Where the group stands in the binary form: after the owner.
    pub open spec fn group_offset(self) -> nat {
        if self.group is Some {
            20 + optional_acl_len(self.sacl) + optional_acl_len(self.dacl) + optional_sid_len(
                self.owner,
            )
        } else {
            0
        }
    }

    /// The first 20 bytes of the binary form.
    pub open spec fn head_bytes(self) -> Seq<u8> {
        seq![1u8, 0u8] + u16_bytes(self.flags.bits as int) + u32_bytes(self.owner_offset() as int)
            + u32_bytes(self.group_offset() as int) + u32_bytes(self.sacl_offset() as int)
            + u32_bytes(self.dacl_offset() as int)
    }

    /// The binary form: the head, then the SACL, the DACL, the owner and the
    /// group, each where it is there. The head gives the offset of each part
    /// from the start, and 0 for a part that is not there.
    pub open spec fn encoding(self) -> Seq<u8> {
        self.head_bytes() + optional_acl_bytes(self.sacl) + optional_acl_bytes(self.dacl)
            + optional_sid_bytes(self.owner) + optional_sid_bytes(self.group)
    }

    /// The descriptor as SDDL writes it: owner, group, SACL, DACL, each
    /// where it is there.
    pub open spec fn sddl_text(self) -> Seq<char> {
        optional_sid_text('O', self.owner) + optional_sid_text('G', self.group) + optional_acl_text(
            self.flags,
            AclType::SACL,
            self.sacl,
        ) + optional_acl_text(self.flags, AclType::DACL, self.dacl)
    }

    /// The descriptor as reading its binary form gives it: each list as
    /// reading gives it, in the context of this descriptor.
    pub open spec fn normalized(self) -> SecurityDescriptorView {
        SecurityDescriptorView {
            sacl: match self.sacl {
                Some(a) => Some(a.normalized(self.flags, AclType::SACL)),
                None => None,
            },
            dacl: match self.dacl {
                Some(a) => Some(a.normalized(self.flags, AclType::DACL)),
                None => None,
            },
            ..self
        }
    }
}

/// The SID at `offset` from `base`, or none where the offset is 0.
pub open spec fn decode_sid_at(b: Seq<u8>, base: int, offset: int) -> Result<
    Option<SidView>,
    DecodeError,
> {
    if offset == 0 {
        Ok(None)
    } else if base + offset > b.len() {
        Err(DecodeError::UnexpectedEnd)
    } else {
        match decode_sid(b, base + offset) {
            Ok((sid, _)) => Ok(Some(sid)),
            Err(e) => Err(e),
        }
    }
}

/// The ACL at `offset` from `base`, or none where it is not flagged as
/// present or the offset is 0.
pub open spec fn decode_acl_at(
    b: Seq<u8>,
    base: int,
    offset: int,
    flags: ControlFlags,
    acl_type: AclType,
    present: bool,
) -> Result<Option<AclView>, DecodeError> {
    if !present || offset == 0 {
        Ok(None)
    } else if base + offset > b.len() {
        Err(DecodeError::UnexpectedEnd)
    } else {
        match decode_acl(b, base + offset, flags, acl_type) {
            Ok((acl, _)) => Ok(Some(acl)),
            Err(e) => Err(e),
        }
    }
}

/// The descriptor that the bytes from `base` on hold. Its head has the
/// revision 1, the control flags with the flag for the self-relative form,
/// and the offsets of owner, group, SACL and DACL from `base`. An offset of 0
/// stands for a part that is not there; a list is also not there without its
/// flag of presence.
pub open spec fn decode_security_descriptor(b: Seq<u8>, base: int) -> Result<
    SecurityDescriptorView,
    DecodeError,
> {
    if base + 20 > b.len() {
        Err(DecodeError::UnexpectedEnd)
    } else if b[base] != 1 {
        Err(DecodeError::IllegalRevision)
    } else {
        let flags = ControlFlags { bits: u16_at(b, base + 2) as u16 };
        if !flags.has(SELF_RELATIVE) {
            Err(DecodeError::NotSelfRelative)
        } else {
            match decode_sid_at(b, base, u32_at(b, base + 4)) {
                Err(e) => Err(e),
                Ok(owner) => match decode_sid_at(b, base, u32_at(b, base + 8)) {
                    Err(e) => Err(e),
                    Ok(group) => match decode_acl_at(
                        b,
                        base,
                        u32_at(b, base + 12),
                        flags,
                        AclType::SACL,
                        flags.has(SYSTEM_ACL_PRESENT),
                    ) {
                        Err(e) => Err(e),
                        Ok(sacl) => match decode_acl_at(
                            b,
                            base,
                            u32_at(b, base + 16),
                            flags,
                            AclType::DACL,
                            flags.has(DISCRETIONARY_ACL_PRESENT),
                        ) {
                            Err(e) => Err(e),
                            Ok(dacl) => Ok(
                                SecurityDescriptorView { flags, owner, group, sacl, dacl },
                            ),
                        },
                    },
                },
            }
        }
    }
}

pub open spec fn optional_sid_view(sid: Option<Sid>) -> Option<SidView> {
    match sid {
        Some(s) => Some(s@),
        None => None,
    }
}

pub open spec fn optional_acl_view(acl: Option<Acl>) -> Option<AclView> {
    match acl {
        Some(a) => Some(a@),
        None => None,
    }
}

proof fn lemma_or_has(b: u16, f: u16)
    by (bit_vector)
    ensures
        (b | f) & f == f,
        (f | b) & f == f,
{
}

proof fn lemma_or_keeps(b: u16, c: u16, f: u16)
    by (bit_vector)
    requires
        b & f == f,
    ensures
        (b | c) & f == f,
{
}

/// A security descriptor.
#[derive(Debug, PartialEq, Eq)]
pub struct SecurityDescriptor {
    flags: ControlFlags,
    owner: Option<Sid>,
    group: Option<Sid>,
    sacl: Option<Acl>,
    dacl: Option<Acl>,
}

impl SecurityDescriptor {
    pub closed spec fn view(&self) -> SecurityDescriptorView {
        SecurityDescriptorView {
            flags: self.flags,
            owner: optional_sid_view(self.owner),
            group: optional_sid_view(self.group),
            sacl: optional_acl_view(self.sacl),
            dacl: optional_acl_view(self.dacl),
        }
    }

    #[verifier::type_invariant]
    pub closed spec fn inv(&self) -> bool {
        self@.wf()
    }

    /// What the invariant of the type means for the view.
    pub proof fn lemma_inv(&self)
        requires
            self.inv(),
        ensures
            self@.wf(),
    {
    }

    /// The descriptor with the given parts. Its control flags say that it is
    /// self-relative and which lists are present, and hold the flags that each
    /// list has in its own context.
    pub fn new(owner: Option<Sid>, group: Option<Sid>, dacl: Option<Acl>, sacl: Option<Acl>) -> (r:
        SecurityDescriptor)
        ensures
            r@.wf(),
            r@ == (SecurityDescriptorView {
                flags: ControlFlags {
                    bits: flags_of_parts(optional_acl_view(dacl), optional_acl_view(sacl)),
                },
                owner: optional_sid_view(owner),
                group: optional_sid_view(group),
                sacl: optional_acl_view(sacl),
                dacl: optional_acl_view(dacl),
            }),
    {
        let mut bits: u16 = SELF_RELATIVE;
        proof {
            lemma_or_has(0, SELF_RELATIVE);
            assert(SELF_RELATIVE & SELF_RELATIVE == SELF_RELATIVE) by (bit_vector);
        }
        match &dacl {
            Some(a) => {
                let ghost before = bits;
                let own: u16 = a.control_flags().bits();
                bits = bits | own | DISCRETIONARY_ACL_PRESENT;
                proof {
                    use_type_invariant(a);
                    a.lemma_inv();
                    lemma_or_keeps(before, own, SELF_RELATIVE);
                    lemma_or_keeps(before | own, DISCRETIONARY_ACL_PRESENT, SELF_RELATIVE);
                    lemma_or_has(before | own, DISCRETIONARY_ACL_PRESENT);
                }
            },
            None => {},
        }
        match &sacl {
            Some(a) => {
                let ghost before = bits;
                let own: u16 = a.control_flags().bits();
                bits = bits | own | SYSTEM_ACL_PRESENT;
                proof {
                    use_type_invariant(a);
                    a.lemma_inv();
                    lemma_or_keeps(before, own, SELF_RELATIVE);
                    lemma_or_keeps(before | own, SYSTEM_ACL_PRESENT, SELF_RELATIVE);
                    if dacl is Some {
                        lemma_or_keeps(before, own, DISCRETIONARY_ACL_PRESENT);
                        lemma_or_keeps(before | own, SYSTEM_ACL_PRESENT, DISCRETIONARY_ACL_PRESENT);
                    }
                    lemma_or_has(before | own, SYSTEM_ACL_PRESENT);
                }
            },
            None => {},
        }
        proof {
            match &owner {
                Some(s) => {
                    use_type_invariant(s);
                    s.lemma_inv();
                },
                None => {},
            }
            match &group {
                Some(s) => {
                    use_type_invariant(s);
                    s.lemma_inv();
                },
                None => {},
            }
        }
        SecurityDescriptor { flags: ControlFlags::from_bits(bits), owner, group, sacl, dacl }
    }

    /// The descriptor that an SDDL text stands for. The aliases of a domain
    /// need the sub-authorities of the domain.
    pub fn from_sddl(value: &str, domain_rid: Option<&[u32]>) -> (r: Result<
        SecurityDescriptor,
        Error,
    >)
        ensures
            match r {
                Ok(sd) => security_descriptor_of_sddl(value@, domain_view(domain_rid)) == Ok::<
                    SecurityDescriptorView,
                    Failure,
                >(sd@) && sd@.wf(),
                Err(e) => security_descriptor_of_sddl(value@, domain_view(domain_rid)) == Err::<
                    SecurityDescriptorView,
                    Failure,
                >(e@) && (e matches Error::ParseError(at) ==> at.position
                    == security_descriptor_error_position(value@, domain_view(domain_rid))),
            },
    {
        parse_security_descriptor(value, domain_rid)
    }

    /// The revision, which is 1.
    pub fn revision(&self) -> (r: u8)
        ensures
            r == 1,
    {
        1
    }

    pub fn flags(&self) -> (r: &ControlFlags)
        ensures
            *r == self@.flags,
            self@.wf(),
    {
        proof {
            use_type_invariant(self);
        }
        &self.flags
    }

    pub fn owner(&self) -> (r: &Option<Sid>)
        ensures
            optional_sid_view(*r) == self@.owner,
    {
        &self.owner
    }

    pub fn group(&self) -> (r: &Option<Sid>)
        ensures
            optional_sid_view(*r) == self@.group,
    {
        &self.group
    }

    pub fn sacl(&self) -> (r: &Option<Acl>)
        ensures
            optional_acl_view(*r) == self@.sacl,
    {
        &self.sacl
    }

    pub fn dacl(&self) -> (r: &Option<Acl>)
        ensures
            optional_acl_view(*r) == self@.dacl,
    {
        &self.dacl
    }

    /// Appends the tag of the list, `:`, its flags among those of the
    /// descriptor, and its entries.
    fn push_acl(&self, out: &mut Vec<char>, acl_type: AclType, acl: &Acl)
        ensures
            final(out)@ == old(out)@ + optional_acl_text(self@.flags, acl_type, Some(acl@)),
    {
        let ghost base = out@;
        match acl_type {
            AclType::SACL => {
                out.push('S');
            },
            AclType::DACL => {
                out.push('D');
            },
        }
        out.push(':');
        assert(out@ =~= base + seq![acl_type.tag(), ':']);
        self.flags.push_acl_flags(out, acl_type);
        let ghost t = seq![acl_type.tag(), ':'] + self@.flags.acl_flags_text(acl_type);
        assert(out@ =~= base + t);
        acl.push_aces(out);
        assert(out@ =~= base + (t + aces_text(acl@.ace_list)));
    }

    /// The SACL as SDDL writes it within the descriptor: `S:`, the flags of
    /// the SACL among those of the descriptor, and the entries; nothing where
    /// there is no SACL.
    pub fn sacl_as_sddl_string(&self) -> (r: Option<String>)
        ensures
            match r {
                Some(text) => self@.sacl is Some && text@ == optional_acl_text(
                    self@.flags,
                    AclType::SACL,
                    self@.sacl,
                ),
                None => self@.sacl is None,
            },
    {
        match &self.sacl {
            Some(acl) => {
                let mut out: Vec<char> = Vec::new();
                self.push_acl(&mut out, AclType::SACL, acl);
                assert(out@ =~= optional_acl_text(self@.flags, AclType::SACL, self@.sacl));
                Some(string_of(out.as_slice()))
            },
            None => None,
        }
    }

    /// The DACL as SDDL writes it within the descriptor: `D:`, the flags of
    /// the DACL among those of the descriptor, and the entries; nothing where
    /// there is no DACL.
    pub fn dacl_as_sddl_string(&self) -> (r: Option<String>)
        ensures
            match r {
                Some(text) => self@.dacl is Some && text@ == optional_acl_text(
                    self@.flags,
                    AclType::DACL,
                    self@.dacl,
                ),
                None => self@.dacl is None,
            },
    {
        match &self.dacl {
            Some(acl) => {
                let mut out: Vec<char> = Vec::new();
                self.push_acl(&mut out, AclType::DACL, acl);
                assert(out@ =~= optional_acl_text(self@.flags, AclType::DACL, self@.dacl));
                Some(string_of(out.as_slice()))
            },
            None => None,
        }
    }

    /// The descriptor as SDDL writes it: `O:` and the owner, `G:` and the
    /// group, both in canonical form, then the SACL and the DACL, each where
    /// it is there.
    pub fn to_string(&self) -> (r: String)
        ensures
            r@ == self@.sddl_text(),
    {
        let ghost v = self@;
        let mut out: Vec<char> = Vec::new();
        match &self.owner {
            Some(sid) => {
                out.push('O');
                out.push(':');
                sid.push_text(&mut out);
            },
            None => {},
        }
        let ghost t1 = optional_sid_text('O', v.owner);
        assert(out@ =~= t1);
        match &self.group {
            Some(sid) => {
                out.push('G');
                out.push(':');
                sid.push_text(&mut out);
            },
            None => {},
        }
        let ghost t2 = t1 + optional_sid_text('G', v.group);
        assert(out@ =~= t2);
        match &self.sacl {
            Some(acl) => {
                self.push_acl(&mut out, AclType::SACL, acl);
            },
            None => {},
        }
        let ghost t3 = t2 + optional_acl_text(v.flags, AclType::SACL, v.sacl);
        assert(out@ =~= t3);
        match &self.dacl {
            Some(acl) => {
                self.push_acl(&mut out, AclType::DACL, acl);
            },
            None => {},
        }
        assert(out@ =~= t3 + optional_acl_text(v.flags, AclType::DACL, v.dacl));
        string_of(out.as_slice())
    }

    /// The SID at `offset` from `base`, or none where the offset is 0.
    fn read_sid_at(bytes: &[u8], base: usize, offset: u32) -> (r: Result<Option<Sid>, Error>)
        requires
            base <= bytes@.len(),
        ensures
            match r {
                Ok(sid) => decode_sid_at(bytes@, base as int, offset as int) == Ok::<
                    Option<SidView>,
                    DecodeError,
                >(optional_sid_view(sid)) && (sid matches Some(s) ==> s@.wf()),
                Err(e) => decode_sid_at(bytes@, base as int, offset as int) matches Err(cause)
                    && e@ == Failure::Decode(cause),
            },
    {
        if offset == 0 {
            return Ok(None);
        }
        if bytes.len() - base < offset as usize {
            return Err(Error::decode(DecodeError::UnexpectedEnd));
        }
        match Sid::read_from(bytes, base + offset as usize) {
            Ok((sid, _)) => Ok(Some(sid)),
            Err(e) => Err(e),
        }
    }

    /// The ACL at `offset` from `base`, or none where it is not flagged as
    /// present or the offset is 0.
    fn read_acl_at(
        bytes: &[u8],
        base: usize,
        offset: u32,
        flags: ControlFlags,
        acl_type: AclType,
        present: bool,
    ) -> (r: Result<Option<Acl>, Error>)
        requires
            base <= bytes@.len(),
        ensures
            match r {
                Ok(acl) => decode_acl_at(
                    bytes@,
                    base as int,
                    offset as int,
                    flags,
                    acl_type,
                    present,
                ) == Ok::<Option<AclView>, DecodeError>(optional_acl_view(acl)) && (acl matches Some(
                    a,
                ) ==> a@.wf()),
                Err(e) => decode_acl_at(
                    bytes@,
                    base as int,
                    offset as int,
                    flags,
                    acl_type,
                    present,
                ) matches Err(cause) && e@ == Failure::Decode(cause),
            },
    {
        if !present || offset == 0 {
            return Ok(None);
        }
        if bytes.len() - base < offset as usize {
            return Err(Error::decode(DecodeError::UnexpectedEnd));
        }
        match Acl::read_from(bytes, base + offset as usize, flags, acl_type) {
            Ok((acl, _)) => Ok(Some(acl)),
            Err(e) => Err(e),
        }
    }

    /// The descriptor that the bytes from `base` on hold. The offsets in
    /// its head count from `base`.
    pub fn read_from(bytes: &[u8], base: usize) -> (r: Result<SecurityDescriptor, Error>)
        requires
            base <= bytes@.len(),
        ensures
            match r {
                Ok(sd) => decode_security_descriptor(bytes@, base as int) == Ok::<
                    SecurityDescriptorView,
                    DecodeError,
                >(sd@) && sd@.wf(),
                Err(e) => decode_security_descriptor(bytes@, base as int) matches Err(cause) && e@
                    == Failure::Decode(cause),
            },
    {
        if bytes.len() - base < 20 {
            return Err(Error::decode(DecodeError::UnexpectedEnd));
        }
        if bytes[base] != 1 {
            return Err(Error::decode(DecodeError::IllegalRevision));
        }
        let flags = ControlFlags::from_bits(read_u16(bytes, base + 2));
        if !flags.contains(SELF_RELATIVE) {
            return Err(Error::decode(DecodeError::NotSelfRelative));
        }
        let owner = match Self::read_sid_at(bytes, base, read_u32(bytes, base + 4)) {
            Ok(found) => found,
            Err(e) => {
                return Err(e);
            },
        };
        let group = match Self::read_sid_at(bytes, base, read_u32(bytes, base + 8)) {
            Ok(found) => found,
            Err(e) => {
                return Err(e);
            },
        };
        let sacl = match Self::read_acl_at(
            bytes,
            base,
            read_u32(bytes, base + 12),
            flags,
            AclType::SACL,
            flags.contains(SYSTEM_ACL_PRESENT),
        ) {
            Ok(found) => found,
            Err(e) => {
                return Err(e);
            },
        };
        let dacl = match Self::read_acl_at(
            bytes,
            base,
            read_u32(bytes, base + 16),
            flags,
            AclType::DACL,
            flags.contains(DISCRETIONARY_ACL_PRESENT),
        ) {
            Ok(found) => found,
            Err(e) => {
                return Err(e);
            },
        };
        Ok(SecurityDescriptor { flags, owner, group, sacl, dacl })
    }

    /// The descriptor whose binary form the bytes begin with.
    pub fn from_bytes(bytes: &[u8]) -> (r: Result<SecurityDescriptor, Error>)
        ensures
            match r {
                Ok(sd) => decode_security_descriptor(bytes@, 0) == Ok::<
                    SecurityDescriptorView,
                    DecodeError,
                >(sd@) && sd@.wf(),
                Err(e) => decode_security_descriptor(bytes@, 0) matches Err(cause) && e@
                    == Failure::Decode(cause),
            },
    {
        Self::read_from(bytes, 0)
    }

    /// The binary form.
    pub fn to_bytes(&self) -> (r: Vec<u8>)
        ensures
            r@ == self@.encoding(),
            self@.wf(),
    {
        proof {
            use_type_invariant(self);
        }
        let ghost v = self@;
        let sacl_len: u32 = match &self.sacl {
            Some(a) => *a.acl_size() as u32,
            None => 0,
        };
        let dacl_len: u32 = match &self.dacl {
            Some(a) => *a.acl_size() as u32,
            None => 0,
        };
        let owner_len: u32 = match &self.owner {
            Some(s) => s.len() as u32,
            None => 0,
        };
        let sacl_offset: u32 = if self.sacl.is_some() {
            20
        } else {
            0
        };
        let dacl_offset: u32 = if self.dacl.is_some() {
            20 + sacl_len
        } else {
            0
        };
        let owner_offset: u32 = if self.owner.is_some() {
            20 + sacl_len + dacl_len
        } else {
            0
        };
        let group_offset: u32 = if self.group.is_some() {
            20 + sacl_len + dacl_len + owner_len
        } else {
            0
        };
        let mut out: Vec<u8> = Vec::new();
        out.push(1u8);
        out.push(0u8);
        push_u16(&mut out, self.flags.bits());
        push_u32(&mut out, owner_offset);
        push_u32(&mut out, group_offset);
        push_u32(&mut out, sacl_offset);
        push_u32(&mut out, dacl_offset);
        assert(out@ =~= v.head_bytes());
        match &self.sacl {
            Some(a) => {
                a.write_to(&mut out);
            },
            None => {},
        }
        let ghost t1 = v.head_bytes() + optional_acl_bytes(v.sacl);
        assert(out@ =~= t1);
        match &self.dacl {
            Some(a) => {
                a.write_to(&mut out);
            },
            None => {},
        }
        let ghost t2 = t1 + optional_acl_bytes(v.dacl);
        assert(out@ =~= t2);
        match &self.owner {
            Some(s) => {
                s.write_to(&mut out);
            },
            None => {},
        }
        let ghost t3 = t2 + optional_sid_bytes(v.owner);
        assert(out@ =~= t3);
        match &self.group {
            Some(s) => {
                s.write_to(&mut out);
            },
            None => {},
        }
        assert(out@ =~= t3 + optional_sid_bytes(v.group));
        out
    }
}

} // verus!
