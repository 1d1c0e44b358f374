//! Access control entries: one rule of an ACL, which allows, denies or audits
//! rights for one trustee.
use crate::access_mask::AccessMask;
use crate::ace_flags::{presence_bits, AceFlags};
use crate::ace_header::{round_up_4, AceHeader, AceHeaderFlags, AceType, ACE_HEADER_SIZE};
use crate::bytes::{
    copy_range, push_bytes, push_u16, push_u32, push_zero_bytes, read_u16, read_u32, u16_at,
    u16_bytes, u32_at, u32_bytes, zero_bytes,
};
use crate::error::{DecodeError, Error, Failure};
use crate::guid::{flip_fields, Guid};
use crate::sid::{decode_sid, Sid, SidView};
use crate::text::string_of;
use vstd::prelude::*;

verus! {

/// An entry as contracts see it.
pub struct AceView {
    pub ace_type: AceType,
    pub header: AceHeader,
    /// The sixteen bytes of the object type, in the order of its text.
    pub object_type: Option<Seq<u8>>,
    /// The sixteen bytes of the inherited object type, in the order of its
    /// text.
    pub inherited_object_type: Option<Seq<u8>>,
    pub sid: SidView,
    pub application_data: Seq<u8>,
}

/// Whether an entry with `payload` bytes after its head has a size that fits
/// in 16 bits.
pub open spec fn ace_size_fits(payload: nat) -> bool {
    ACE_HEADER_SIZE + round_up_4(payload as int) <= u16::MAX
}

/// The first four bytes of the application data of a conditional entry:
/// `artx`.
pub open spec fn conditional_signature() -> Seq<u8> {
    seq![0x61u8, 0x72u8, 0x74u8, 0x78u8]
}

/// The sixteen bytes of the identifier whose binary form the bytes at `pos`
/// are.
pub open spec fn guid_at(b: Seq<u8>, pos: int) -> Seq<u8> {
    flip_fields(b.subrange(pos, pos + 16))
}

/// The binary form of an identifier that may be missing.
pub open spec fn optional_guid_bytes(g: Option<Seq<u8>>) -> Seq<u8> {
    match g {
        Some(bytes) => flip_fields(bytes),
        None => Seq::empty(),
    }
}

pub open spec fn optional_guid_len(g: Option<Seq<u8>>) -> nat {
    match g {
        Some(_) => 16,
        None => 0,
    }
}

impl AceView {
    /// Bytes of the object flags and the object types.
    pub open spec fn object_part_len(self) -> nat {
        if self.ace_type.spec_has_object_fields() {
            4 + optional_guid_len(self.object_type) + optional_guid_len(
                self.inherited_object_type,
            )
        } else {
            0
        }
    }

    /// Bytes of all that follows the head, without padding.
    pub open spec fn payload_len(self) -> nat {
        self.object_part_len() + self.sid.raw_len() + self.application_data.len()
    }

    /// Bytes of padding at the end of the binary form.
    pub open spec fn padding_len(self) -> nat {
        (round_up_4(self.payload_len() as int) - self.payload_len()) as nat
    }

    /// The kind has a layout; the entry holds the parts that the kind has
    /// and no others; and the size in its head is that of the head and of the
    /// parts after it, rounded up to a multiple of 4.
    pub open spec fn wf(self) -> bool {
        &&& !self.ace_type.spec_is_reserved()
        &&& self.sid.wf()
        &&& (self.object_type matches Some(g) ==> g.len() == 16)
        &&& (self.inherited_object_type matches Some(g) ==> g.len() == 16)
        &&& (!self.ace_type.spec_has_object_fields() ==> self.object_type is None
            && self.inherited_object_type is None)
        &&& (!self.ace_type.spec_has_application_data() ==> self.application_data.len() == 0)
        &&& self.header.ace_size == ACE_HEADER_SIZE + round_up_4(self.payload_len() as int)
    }

    /// The object flags: which of the two object types are there.
    pub open spec fn object_flags(self) -> u32 {
        presence_bits(self.object_type is Some, self.inherited_object_type is Some)
    }

    /// Whether the application data begins with the signature of a
    /// conditional expression.
    pub open spec fn is_conditional(self) -> bool {
        self.application_data.len() >= 4 && self.application_data.subrange(0, 4)
            == conditional_signature()
    }

    /// The first eight bytes of the binary form: kind, flags, size, rights.
    pub open spec fn head_bytes(self) -> Seq<u8> {
        seq![self.ace_type.spec_code(), self.header.ace_flags.bits] + u16_bytes(
            self.header.ace_size as int,
        ) + u32_bytes(self.header.mask.bits as int)
    }

    /// The object flags and the object types in binary form, for the kinds
    /// that have them.
    pub open spec fn object_bytes(self) -> Seq<u8> {
        if self.ace_type.spec_has_object_fields() {
            u32_bytes(self.object_flags() as int) + optional_guid_bytes(self.object_type)
                + optional_guid_bytes(self.inherited_object_type)
        } else {
            Seq::empty()
        }
    }

    /// The binary form: head, object part, trustee, application data, and
    /// zeros up to the size of the entry.
    pub open spec fn encoding(self) -> Seq<u8> {
        self.head_bytes() + self.object_bytes() + self.sid.encoding() + self.application_data
            + zero_bytes(self.padding_len())
    }

    /// The entry as reading its binary form gives it: with the padding as
    /// part of the application data.
    pub open spec fn normalized(self) -> AceView {
        AceView { application_data: self.application_data + zero_bytes(self.padding_len()), ..self }
    }

    /// The letters that SDDL has for the kind of the entry.
    pub open spec fn type_text(self) -> Seq<char> {
        match self.ace_type {
            AceType::ACCESS_ALLOWED_ACE_TYPE => seq!['A'],
            AceType::ACCESS_ALLOWED_OBJECT_ACE_TYPE => seq!['O', 'A'],
            AceType::ACCESS_DENIED_ACE_TYPE => seq!['D'],
            AceType::ACCESS_DENIED_OBJECT_ACE_TYPE => seq!['O', 'D'],
            AceType::ACCESS_ALLOWED_CALLBACK_ACE_TYPE => seq!['X', 'A'],
            AceType::ACCESS_DENIED_CALLBACK_ACE_TYPE => seq!['X', 'D'],
            AceType::ACCESS_ALLOWED_CALLBACK_OBJECT_ACE_TYPE => seq!['Z', 'A'],
            AceType::ACCESS_DENIED_CALLBACK_OBJECT_ACE_TYPE => seq!['Z', 'D'],
            AceType::SYSTEM_AUDIT_ACE_TYPE => seq!['A', 'U'],
            AceType::SYSTEM_AUDIT_OBJECT_ACE_TYPE => seq!['O', 'U'],
            AceType::SYSTEM_AUDIT_CALLBACK_ACE_TYPE => seq!['X', 'U'],
            AceType::SYSTEM_MANDATORY_LABEL_ACE_TYPE => seq!['M', 'L'],
            AceType::SYSTEM_AUDIT_CALLBACK_OBJECT_ACE_TYPE => seq!['Z', 'U'],
            AceType::SYSTEM_RESOURCE_ATTRIBUTE_ACE_TYPE => seq!['R', 'A'],
            AceType::SYSTEM_SCOPED_POLICY_ID_ACE_TYPE => seq!['S', 'P'],
            _ => Seq::empty(),
        }
    }

    /// The entry as SDDL writes it, without the brackets round it: kind,
    /// flags, rights, two empty fields where the object types would stand,
    /// and the trustee, with `;` between them.
    pub open spec fn sddl_text(self) -> Seq<char> {
        self.type_text() + seq![';'] + self.header.ace_flags.sddl_text() + seq![';']
            + self.header.mask.sddl_text() + seq![';', ';', ';'] + self.sid.sddl_text()
    }
}

/// The last part of reading an entry of kind `t` and size `size` at `pos`:
/// the trustee at `p`, and what follows it.
pub open spec fn decode_ace_tail(
    b: Seq<u8>,
    pos: int,
    t: AceType,
    size: int,
    object_type: Option<Seq<u8>>,
    inherited_object_type: Option<Seq<u8>>,
    p: int,
) -> Result<(AceView, int), DecodeError> {
    match decode_sid(b, p) {
        Err(e) => Err(e),
        Ok((sid, q)) => if q > pos + size {
            Err(DecodeError::IllegalAceSize)
        } else {
            Ok(
                (
                    AceView {
                        ace_type: t,
                        header: AceHeader {
                            ace_flags: AceHeaderFlags { bits: b[pos + 1] },
                            ace_size: (if t.spec_has_application_data() {
                                size
                            } else {
                                q - pos
                            }) as u16,
                            mask: AccessMask { bits: u32_at(b, pos + 4) as u32 },
                        },
                        object_type,
                        inherited_object_type,
                        sid,
                        application_data: if t.spec_has_application_data() {
                            b.subrange(q, pos + size)
                        } else {
                            Seq::empty()
                        },
                    },
                    pos + size,
                ),
            )
        },
    }
}

/// Reading what follows the head of an entry of kind `t` and size `size` at
/// `pos`.
pub open spec fn decode_ace_body(b: Seq<u8>, pos: int, t: AceType, size: int) -> Result<
    (AceView, int),
    DecodeError,
> {
    if t.spec_has_object_fields() {
        if 12 > size {
            Err(DecodeError::IllegalAceSize)
        } else {
            let flags = u32_at(b, pos + 8);
            if flags >= 4 {
                Err(DecodeError::IllegalAceFlags)
            } else {
                let has_object = flags == 1 || flags == 3;
                let has_inherited = flags >= 2;
                let at1 = pos + 12 + if has_object {
                    16int
                } else {
                    0int
                };
                let at2 = at1 + if has_inherited {
                    16int
                } else {
                    0int
                };
                if at2 > pos + size {
                    Err(DecodeError::IllegalAceSize)
                } else {
                    decode_ace_tail(
                        b,
                        pos,
                        t,
                        size,
                        if has_object {
                            Some(guid_at(b, pos + 12))
                        } else {
                            None
                        },
                        if has_inherited {
                            Some(guid_at(b, at1))
                        } else {
                            None
                        },
                        at2,
                    )
                }
            }
        }
    } else {
        decode_ace_tail(b, pos, t, size, None, None, pos + 8)
    }
}

/// The entry that the bytes from `pos` on hold, and the position after it.
/// The type tag chooses the layout; a reserved tag has none. The size in the
/// head is a multiple of 4 and says where the entry ends: what follows the
/// trustee up to there is the application data where the kind has such, and
/// padding otherwise. The entry that is read has the size of its parts.
pub open spec fn decode_ace(b: Seq<u8>, pos: int) -> Result<(AceView, int), DecodeError> {
    if pos + 8 > b.len() {
        Err(DecodeError::UnexpectedEnd)
    } else {
        match AceType::spec_from_code(b[pos]) {
            None => Err(DecodeError::UnknownAceType),
            Some(t) => if t.spec_is_reserved() {
                Err(DecodeError::UnsupportedAceType)
            } else {
                let size = u16_at(b, pos + 2);
                if size % 4 != 0 || size < 8 {
                    Err(DecodeError::IllegalAceSize)
                } else if pos + size > b.len() {
                    Err(DecodeError::UnexpectedEnd)
                } else {
                    decode_ace_body(b, pos, t, size)
                }
            },
        }
    }
}

/// What is read is well-formed, and ends where the size in the head says.
pub proof fn lemma_decode_ace_wf(b: Seq<u8>, pos: int)
    requires
        0 <= pos,
    ensures
        decode_ace(b, pos) matches Ok(found) ==> found.0.wf() && found.1 >= pos + found.0.header.ace_size
            && found.1 <= b.len(),
{
    if decode_ace(b, pos) is Ok {
        let t = AceType::spec_from_code(b[pos])->0;
        if t.spec_has_object_fields() {
            let flags = u32_at(b, pos + 8);
            let at1 = pos + 12 + if flags == 1 || flags == 3 {
                16int
            } else {
                0int
            };
            assert(guid_at(b, pos + 12).len() == 16);
            assert(guid_at(b, at1).len() == 16);
        }
    }
}

pub open spec fn optional_guid_view(g: Option<Guid>) -> Option<Seq<u8>> {
    match g {
        Some(guid) => Some(guid@),
        None => None,
    }
}

/// One rule of an ACL. Its kind says which parts it has: every entry has a
/// head and a trustee; the object-specific kinds may have two object types;
/// the kinds for callbacks, object audits and resource attributes have
/// application data.
#[derive(Debug, PartialEq, Eq)]
pub struct Ace {
    ace_type: AceType,
    header: AceHeader,
    object_type: Option<Guid>,
    inherited_object_type: Option<Guid>,
    sid: Sid,
    application_data: Vec<u8>,
}

impl Ace {
    pub closed spec fn view(&self) -> AceView {
        AceView {
            ace_type: self.ace_type,
            header: self.header,
            object_type: optional_guid_view(self.object_type),
            inherited_object_type: optional_guid_view(self.inherited_object_type),
            sid: self.sid@,
            application_data: self.application_data@,
        }
    }

    #[verifier::type_invariant]
    pub closed spec fn inv(&self) -> bool {
        self@.wf()
    }

    /// What the invariant of the type means for the view.
    pub proof fn lemma_inv(&self)
        requires
            self.inv(),
        ensures
            self@.wf(),
    {
    }

    /// The entry of the given kind and parts, with the size of its parts.
    fn build(
        ace_type: AceType,
        flags: AceHeaderFlags,
        mask: AccessMask,
        object_type: Option<Guid>,
        inherited_object_type: Option<Guid>,
        sid: Sid,
        application_data: Vec<u8>,
    ) -> (r: Ace)
        requires
            !ace_type.spec_is_reserved(),
            !ace_type.spec_has_object_fields() ==> object_type is None && inherited_object_type
                is None,
            !ace_type.spec_has_application_data() ==> application_data@.len() == 0,
            ace_size_fits(
                (if ace_type.spec_has_object_fields() {
                    4 + optional_guid_len(optional_guid_view(object_type)) + optional_guid_len(
                        optional_guid_view(inherited_object_type),
                    )
                } else {
                    0
                }) + sid@.raw_len() + application_data@.len(),
            ),
        ensures
            r@.wf(),
            r@.ace_type == ace_type,
            r@.header.ace_flags == flags,
            r@.header.mask == mask,
            r@.object_type == optional_guid_view(object_type),
            r@.inherited_object_type == optional_guid_view(inherited_object_type),
            r@.sid == sid@,
            r@.application_data == application_data@,
    {
        let sid_size: u16 = sid.raw_size();
        let first: u16 = match object_type {
            Some(_) => 16,
            None => 0,
        };
        let second: u16 = match inherited_object_type {
            Some(_) => 16,
            None => 0,
        };
        let object_size: u16 = if ace_type.has_object_fields() {
            4 + first + second
        } else {
            0
        };
        proof {
            match object_type {
                Some(g) => {
                    g.lemma_view();
                },
                None => {},
            }
            match inherited_object_type {
                Some(g) => {
                    g.lemma_view();
                },
                None => {},
            }
        }
        let data_size: usize = application_data.len();
        let payload: u16 = (object_size as usize + sid_size as usize + data_size) as u16;
        let header = AceHeader::new(flags, payload, mask);
        Ace { ace_type, header, object_type, inherited_object_type, sid, application_data }
    }

    /// An entry that allows rights.
    pub fn access_allowed(flags: AceHeaderFlags, mask: AccessMask, sid: Sid) -> (r: Ace)
        ensures
            r@.wf(),
            r@.ace_type == AceType::ACCESS_ALLOWED_ACE_TYPE,
            r@.header.ace_flags == flags,
            r@.header.mask == mask,
            r@.sid == sid@,
    {
        proof {
            use_type_invariant(&sid);
            sid.lemma_inv();
        }
        Self::build(AceType::ACCESS_ALLOWED_ACE_TYPE, flags, mask, None, None, sid, Vec::new())
    }

    /// An entry that denies rights.
    pub fn access_denied(flags: AceHeaderFlags, mask: AccessMask, sid: Sid) -> (r: Ace)
        ensures
            r@.wf(),
            r@.ace_type == AceType::ACCESS_DENIED_ACE_TYPE,
            r@.header.ace_flags == flags,
            r@.header.mask == mask,
            r@.sid == sid@,
    {
        proof {
            use_type_invariant(&sid);
            sid.lemma_inv();
        }
        Self::build(AceType::ACCESS_DENIED_ACE_TYPE, flags, mask, None, None, sid, Vec::new())
    }

    /// An entry that audits the use of rights.
    pub fn audit(flags: AceHeaderFlags, mask: AccessMask, sid: Sid) -> (r: Ace)
        ensures
            r@.wf(),
            r@.ace_type == AceType::SYSTEM_AUDIT_ACE_TYPE,
            r@.header.ace_flags == flags,
            r@.header.mask == mask,
            r@.sid == sid@,
    {
        proof {
            use_type_invariant(&sid);
            sid.lemma_inv();
        }
        Self::build(AceType::SYSTEM_AUDIT_ACE_TYPE, flags, mask, None, None, sid, Vec::new())
    }

    /// An entry that gives the mandatory level of the object.
    pub fn mandatory_label(flags: AceHeaderFlags, mask: AccessMask, sid: Sid) -> (r: Ace)
        ensures
            r@.wf(),
            r@.ace_type == AceType::SYSTEM_MANDATORY_LABEL_ACE_TYPE,
            r@.header.ace_flags == flags,
            r@.header.mask == mask,
            r@.sid == sid@,
    {
        proof {
            use_type_invariant(&sid);
            sid.lemma_inv();
        }
        Self::build(
            AceType::SYSTEM_MANDATORY_LABEL_ACE_TYPE,
            flags,
            mask,
            None,
            None,
            sid,
            Vec::new(),
        )
    }

    /// An entry that names a central access policy.
    pub fn scoped_policy_id(flags: AceHeaderFlags, mask: AccessMask, sid: Sid) -> (r: Ace)
        ensures
            r@.wf(),
            r@.ace_type == AceType::SYSTEM_SCOPED_POLICY_ID_ACE_TYPE,
            r@.header.ace_flags == flags,
            r@.header.mask == mask,
            r@.sid == sid@,
    {
        proof {
            use_type_invariant(&sid);
            sid.lemma_inv();
        }
        Self::build(
            AceType::SYSTEM_SCOPED_POLICY_ID_ACE_TYPE,
            flags,
            mask,
            None,
            None,
            sid,
            Vec::new(),
        )
    }

    /// An object-specific entry of the given kind.
    fn build_object(
        ace_type: AceType,
        flags: AceHeaderFlags,
        mask: AccessMask,
        object_type: Option<Guid>,
        inherited_object_type: Option<Guid>,
        sid: Sid,
    ) -> (r: Ace)
        requires
            ace_type == AceType::ACCESS_ALLOWED_OBJECT_ACE_TYPE || ace_type
                == AceType::ACCESS_DENIED_OBJECT_ACE_TYPE,
        ensures
            r@.wf(),
            r@.ace_type == ace_type,
            r@.header.ace_flags == flags,
            r@.header.mask == mask,
            r@.object_type == optional_guid_view(object_type),
            r@.inherited_object_type == optional_guid_view(inherited_object_type),
            r@.sid == sid@,
    {
        proof {
            use_type_invariant(&sid);
            sid.lemma_inv();
        }
        Self::build(ace_type, flags, mask, object_type, inherited_object_type, sid, Vec::new())
    }

    /// An entry that allows rights on an object type.
    pub fn access_allowed_object(
        flags: AceHeaderFlags,
        mask: AccessMask,
        object_type: Option<Guid>,
        inherited_object_type: Option<Guid>,
        sid: Sid,
    ) -> (r: Ace)
        ensures
            r@.wf(),
            r@.ace_type == AceType::ACCESS_ALLOWED_OBJECT_ACE_TYPE,
            r@.header.ace_flags == flags,
            r@.header.mask == mask,
            r@.object_type == optional_guid_view(object_type),
            r@.inherited_object_type == optional_guid_view(inherited_object_type),
            r@.sid == sid@,
    {
        Self::build_object(
            AceType::ACCESS_ALLOWED_OBJECT_ACE_TYPE,
            flags,
            mask,
            object_type,
            inherited_object_type,
            sid,
        )
    }

    /// An entry that denies rights on an object type.
    pub fn access_denied_object(
        flags: AceHeaderFlags,
        mask: AccessMask,
        object_type: Option<Guid>,
        inherited_object_type: Option<Guid>,
        sid: Sid,
    ) -> (r: Ace)
        ensures
            r@.wf(),
            r@.ace_type == AceType::ACCESS_DENIED_OBJECT_ACE_TYPE,
            r@.header.ace_flags == flags,
            r@.header.mask == mask,
            r@.object_type == optional_guid_view(object_type),
            r@.inherited_object_type == optional_guid_view(inherited_object_type),
            r@.sid == sid@,
    {
        Self::build_object(
            AceType::ACCESS_DENIED_OBJECT_ACE_TYPE,
            flags,
            mask,
            object_type,
            inherited_object_type,
            sid,
        )
    }

    /// An entry of the given kind with application data.
    fn build_callback(
        ace_type: AceType,
        flags: AceHeaderFlags,
        mask: AccessMask,
        sid: Sid,
        application_data: Vec<u8>,
    ) -> (r: Ace)
        requires
            ace_type.spec_has_application_data(),
            !ace_type.spec_has_object_fields(),
            ace_size_fits(sid@.raw_len() + application_data@.len()),
        ensures
            r@.wf(),
            r@.ace_type == ace_type,
            r@.header.ace_flags == flags,
            r@.header.mask == mask,
            r@.object_type is None,
            r@.inherited_object_type is None,
            r@.sid == sid@,
            r@.application_data == application_data@,
    {
        Self::build(ace_type, flags, mask, None, None, sid, application_data)
    }

    /// An entry that allows rights, with application data.
    pub fn access_allowed_callback(
        flags: AceHeaderFlags,
        mask: AccessMask,
        sid: Sid,
        application_data: Vec<u8>,
    ) -> (r: Ace)
        requires
            ace_size_fits(sid@.raw_len() + application_data@.len()),
        ensures
            r@.wf(),
            r@.ace_type == AceType::ACCESS_ALLOWED_CALLBACK_ACE_TYPE,
            r@.header.ace_flags == flags,
            r@.header.mask == mask,
            r@.sid == sid@,
            r@.application_data == application_data@,
    {
        Self::build_callback(
            AceType::ACCESS_ALLOWED_CALLBACK_ACE_TYPE,
            flags,
            mask,
            sid,
            application_data,
        )
    }

    /// An entry that denies rights, with application data.
    pub fn access_denied_callback(
        flags: AceHeaderFlags,
        mask: AccessMask,
        sid: Sid,
        application_data: Vec<u8>,
    ) -> (r: Ace)
        requires
            ace_size_fits(sid@.raw_len() + application_data@.len()),
        ensures
            r@.wf(),
            r@.ace_type == AceType::ACCESS_DENIED_CALLBACK_ACE_TYPE,
            r@.header.ace_flags == flags,
            r@.header.mask == mask,
            r@.sid == sid@,
            r@.application_data == application_data@,
    {
        Self::build_callback(
            AceType::ACCESS_DENIED_CALLBACK_ACE_TYPE,
            flags,
            mask,
            sid,
            application_data,
        )
    }

    /// An entry that audits the use of rights, with application data.
    pub fn audit_callback(
        flags: AceHeaderFlags,
        mask: AccessMask,
        sid: Sid,
        application_data: Vec<u8>,
    ) -> (r: Ace)
        requires
            ace_size_fits(sid@.raw_len() + application_data@.len()),
        ensures
            r@.wf(),
            r@.ace_type == AceType::SYSTEM_AUDIT_CALLBACK_ACE_TYPE,
            r@.header.ace_flags == flags,
            r@.header.mask == mask,
            r@.sid == sid@,
            r@.application_data == application_data@,
    {
        Self::build_callback(
            AceType::SYSTEM_AUDIT_CALLBACK_ACE_TYPE,
            flags,
            mask,
            sid,
            application_data,
        )
    }

    /// An entry that holds an attribute of the resource.
    pub fn resource_attribute(
        flags: AceHeaderFlags,
        mask: AccessMask,
        sid: Sid,
        application_data: Vec<u8>,
    ) -> (r: Ace)
        requires
            ace_size_fits(sid@.raw_len() + application_data@.len()),
        ensures
            r@.wf(),
            r@.ace_type == AceType::SYSTEM_RESOURCE_ATTRIBUTE_ACE_TYPE,
            r@.header.ace_flags == flags,
            r@.header.mask == mask,
            r@.sid == sid@,
            r@.application_data == application_data@,
    {
        Self::build_callback(
            AceType::SYSTEM_RESOURCE_ATTRIBUTE_ACE_TYPE,
            flags,
            mask,
            sid,
            application_data,
        )
    }

    /// An object-specific entry of the given kind with application data.
    fn build_object_callback(
        ace_type: AceType,
        flags: AceHeaderFlags,
        mask: AccessMask,
        object_type: Option<Guid>,
        inherited_object_type: Option<Guid>,
        sid: Sid,
        application_data: Vec<u8>,
    ) -> (r: Ace)
        requires
            ace_type.spec_has_application_data(),
            ace_type.spec_has_object_fields(),
            ace_size_fits(
                4 + optional_guid_len(optional_guid_view(object_type)) + optional_guid_len(
                    optional_guid_view(inherited_object_type),
                ) + sid@.raw_len() + application_data@.len(),
            ),
        ensures
            r@.wf(),
            r@.ace_type == ace_type,
            r@.header.ace_flags == flags,
            r@.header.mask == mask,
            r@.object_type == optional_guid_view(object_type),
            r@.inherited_object_type == optional_guid_view(inherited_object_type),
            r@.sid == sid@,
            r@.application_data == application_data@,
    {
        Self::build(
            ace_type,
            flags,
            mask,
            object_type,
            inherited_object_type,
            sid,
            application_data,
        )
    }

    /// An entry that allows rights on an object type, with application data.
    pub fn access_allowed_object_callback(
        flags: AceHeaderFlags,
        mask: AccessMask,
        object_type: Option<Guid>,
        inherited_object_type: Option<Guid>,
        sid: Sid,
        application_data: Vec<u8>,
    ) -> (r: Ace)
        requires
            ace_size_fits(
                4 + optional_guid_len(optional_guid_view(object_type)) + optional_guid_len(
                    optional_guid_view(inherited_object_type),
                ) + sid@.raw_len() + application_data@.len(),
            ),
        ensures
            r@.wf(),
            r@.ace_type == AceType::ACCESS_ALLOWED_CALLBACK_OBJECT_ACE_TYPE,
            r@.header.ace_flags == flags,
            r@.header.mask == mask,
            r@.object_type == optional_guid_view(object_type),
            r@.inherited_object_type == optional_guid_view(inherited_object_type),
            r@.sid == sid@,
            r@.application_data == application_data@,
    {
        Self::build_object_callback(
            AceType::ACCESS_ALLOWED_CALLBACK_OBJECT_ACE_TYPE,
            flags,
            mask,
            object_type,
            inherited_object_type,
            sid,
            application_data,
        )
    }

    /// An entry that denies rights on an object type, with application data.
    pub fn access_denied_object_callback(
        flags: AceHeaderFlags,
        mask: AccessMask,
        object_type: Option<Guid>,
        inherited_object_type: Option<Guid>,
        sid: Sid,
        application_data: Vec<u8>,
    ) -> (r: Ace)
        requires
            ace_size_fits(
                4 + optional_guid_len(optional_guid_view(object_type)) + optional_guid_len(
                    optional_guid_view(inherited_object_type),
                ) + sid@.raw_len() + application_data@.len(),
            ),
        ensures
            r@.wf(),
            r@.ace_type == AceType::ACCESS_DENIED_CALLBACK_OBJECT_ACE_TYPE,
            r@.header.ace_flags == flags,
            r@.header.mask == mask,
            r@.object_type == optional_guid_view(object_type),
            r@.inherited_object_type == optional_guid_view(inherited_object_type),
            r@.sid == sid@,
            r@.application_data == application_data@,
    {
        Self::build_object_callback(
            AceType::ACCESS_DENIED_CALLBACK_OBJECT_ACE_TYPE,
            flags,
            mask,
            object_type,
            inherited_object_type,
            sid,
            application_data,
        )
    }

    /// An entry that audits the use of rights on an object type.
    pub fn audit_object(
        flags: AceHeaderFlags,
        mask: AccessMask,
        object_type: Option<Guid>,
        inherited_object_type: Option<Guid>,
        sid: Sid,
        application_data: Vec<u8>,
    ) -> (r: Ace)
        requires
            ace_size_fits(
                4 + optional_guid_len(optional_guid_view(object_type)) + optional_guid_len(
                    optional_guid_view(inherited_object_type),
                ) + sid@.raw_len() + application_data@.len(),
            ),
        ensures
            r@.wf(),
            r@.ace_type == AceType::SYSTEM_AUDIT_OBJECT_ACE_TYPE,
            r@.header.ace_flags == flags,
            r@.header.mask == mask,
            r@.object_type == optional_guid_view(object_type),
            r@.inherited_object_type == optional_guid_view(inherited_object_type),
            r@.sid == sid@,
            r@.application_data == application_data@,
    {
        Self::build_object_callback(
            AceType::SYSTEM_AUDIT_OBJECT_ACE_TYPE,
            flags,
            mask,
            object_type,
            inherited_object_type,
            sid,
            application_data,
        )
    }

    /// An entry that audits the use of rights on an object type, with
    /// application data for a callback.
    pub fn audit_callback_object(
        flags: AceHeaderFlags,
        mask: AccessMask,
        object_type: Option<Guid>,
        inherited_object_type: Option<Guid>,
        sid: Sid,
        application_data: Vec<u8>,
    ) -> (r: Ace)
        requires
            ace_size_fits(
                4 + optional_guid_len(optional_guid_view(object_type)) + optional_guid_len(
                    optional_guid_view(inherited_object_type),
                ) + sid@.raw_len() + application_data@.len(),
            ),
        ensures
            r@.wf(),
            r@.ace_type == AceType::SYSTEM_AUDIT_CALLBACK_OBJECT_ACE_TYPE,
            r@.header.ace_flags == flags,
            r@.header.mask == mask,
            r@.object_type == optional_guid_view(object_type),
            r@.inherited_object_type == optional_guid_view(inherited_object_type),
            r@.sid == sid@,
            r@.application_data == application_data@,
    {
        Self::build_object_callback(
            AceType::SYSTEM_AUDIT_CALLBACK_OBJECT_ACE_TYPE,
            flags,
            mask,
            object_type,
            inherited_object_type,
            sid,
            application_data,
        )
    }

    /// Whether an entry with a trustee of `sid_size` bytes, `object_types`
    /// object types and `data_size` bytes of application data has a size that
    /// fits in 16 bits. The constructors of the kinds with application data
    /// ask for this.
    pub fn size_fits(object_fields: bool, object_types: u8, sid_size: u16, data_size: usize) -> (r:
        bool)
        requires
            object_types <= 2,
            sid_size <= 68,
        ensures
            r == ace_size_fits(
                ((if object_fields {
                    4 + 16 * object_types
                } else {
                    0
                }) + sid_size + data_size) as nat,
            ),
    {
        let fixed: usize = if object_fields {
            4 + 16 * (object_types as usize)
        } else {
            0
        } + sid_size as usize;
        data_size <= 65524 - fixed
    }

    pub fn ace_type(&self) -> (r: AceType)
        ensures
            r == self@.ace_type,
            self@.wf(),
    {
        proof {
            use_type_invariant(self);
        }
        self.ace_type
    }

    pub fn header(&self) -> (r: &AceHeader)
        ensures
            *r == self@.header,
            self@.wf(),
    {
        proof {
            use_type_invariant(self);
        }
        &self.header
    }

    /// The trustee.
    pub fn sid(&self) -> (r: &Sid)
        ensures
            r@ == self@.sid,
            self@.wf(),
    {
        proof {
            use_type_invariant(self);
        }
        &self.sid
    }

    pub fn object_type(&self) -> (r: &Option<Guid>)
        ensures
            optional_guid_view(*r) == self@.object_type,
    {
        &self.object_type
    }

    pub fn inherited_object_type(&self) -> (r: &Option<Guid>)
        ensures
            optional_guid_view(*r) == self@.inherited_object_type,
    {
        &self.inherited_object_type
    }

    pub fn application_data(&self) -> (r: &Vec<u8>)
        ensures
            r@ == self@.application_data,
    {
        &self.application_data
    }

    /// The object flags: which of the two object types are there.
    pub fn flags(&self) -> (r: AceFlags)
        ensures
            r@ == self@.object_flags(),
    {
        AceFlags::of_presence(self.object_type.is_some(), self.inherited_object_type.is_some())
    }

    /// Whether the application data begins with the signature of a
    /// conditional expression, `artx`.
    pub fn is_conditional(&self) -> (r: bool)
        ensures
            r == self@.is_conditional(),
    {
        let data = &self.application_data;
        if data.len() >= 4 {
            let r = data[0] == 0x61 && data[1] == 0x72 && data[2] == 0x74 && data[3] == 0x78;
            proof {
                let head = data@.subrange(0, 4);
                let sig = conditional_signature();
                assert(head[0] == data@[0] && head[1] == data@[1] && head[2] == data@[2]
                    && head[3] == data@[3]);
                assert(sig[0] == 0x61 && sig[1] == 0x72 && sig[2] == 0x74 && sig[3] == 0x78);
                if r {
                    assert(head =~= sig);
                }
            }
            r
        } else {
            false
        }
    }

    /// Bytes that the binary form takes: the size in the head.
    pub fn raw_size(&self) -> (r: u16)
        ensures
            r == self@.header.ace_size,
            r == ACE_HEADER_SIZE + round_up_4(self@.payload_len() as int),
            r % 4 == 0,
            self@.wf(),
    {
        proof {
            use_type_invariant(self);
        }
        self.header.ace_size
    }

    /// The letters that SDDL has for the kind of the entry.
    pub fn push_type(&self, out: &mut Vec<char>)
        ensures
            final(out)@ == old(out)@ + self@.type_text(),
    {
        proof {
            use_type_invariant(self);
        }
        match self.ace_type {
            AceType::ACCESS_ALLOWED_ACE_TYPE => {
                out.push('A');
            },
            AceType::ACCESS_ALLOWED_OBJECT_ACE_TYPE => {
                out.push('O');
                out.push('A');
            },
            AceType::ACCESS_DENIED_ACE_TYPE => {
                out.push('D');
            },
            AceType::ACCESS_DENIED_OBJECT_ACE_TYPE => {
                out.push('O');
                out.push('D');
            },
            AceType::ACCESS_ALLOWED_CALLBACK_ACE_TYPE => {
                out.push('X');
                out.push('A');
            },
            AceType::ACCESS_DENIED_CALLBACK_ACE_TYPE => {
                out.push('X');
                out.push('D');
            },
            AceType::ACCESS_ALLOWED_CALLBACK_OBJECT_ACE_TYPE => {
                out.push('Z');
                out.push('A');
            },
            AceType::ACCESS_DENIED_CALLBACK_OBJECT_ACE_TYPE => {
                out.push('Z');
                out.push('D');
            },
            AceType::SYSTEM_AUDIT_ACE_TYPE => {
                out.push('A');
                out.push('U');
            },
            AceType::SYSTEM_AUDIT_OBJECT_ACE_TYPE => {
                out.push('O');
                out.push('U');
            },
            AceType::SYSTEM_AUDIT_CALLBACK_ACE_TYPE => {
                out.push('X');
                out.push('U');
            },
            AceType::SYSTEM_MANDATORY_LABEL_ACE_TYPE => {
                out.push('M');
                out.push('L');
            },
            AceType::SYSTEM_AUDIT_CALLBACK_OBJECT_ACE_TYPE => {
                out.push('Z');
                out.push('U');
            },
            AceType::SYSTEM_RESOURCE_ATTRIBUTE_ACE_TYPE => {
                out.push('R');
                out.push('A');
            },
            AceType::SYSTEM_SCOPED_POLICY_ID_ACE_TYPE => {
                out.push('S');
                out.push('P');
            },
            _ => {},
        }
        assert(out@ =~= old(out)@ + self@.type_text());
    }

    /// The letters that SDDL has for the kind of the entry.
    pub fn type_string(&self) -> (r: String)
        ensures
            r@ == self@.type_text(),
    {
        let mut out: Vec<char> = Vec::new();
        self.push_type(&mut out);
        assert(out@ =~= self@.type_text());
        string_of(out.as_slice())
    }

    /// Appends the entry as SDDL writes it, without the brackets round it.
    pub fn push_sddl(&self, out: &mut Vec<char>)
        ensures
            final(out)@ == old(out)@ + self@.sddl_text(),
    {
        let ghost v = self@;
        let ghost base = out@;
        self.push_type(out);
        out.push(';');
        let ghost t1 = v.type_text() + seq![';'];
        assert(out@ =~= base + t1);
        self.header.ace_flags.push_sddl(out);
        out.push(';');
        let ghost t2 = t1 + v.header.ace_flags.sddl_text() + seq![';'];
        assert(out@ =~= base + t2);
        self.header.mask.push_sddl(out);
        out.push(';');
        out.push(';');
        out.push(';');
        let ghost t3 = t2 + v.header.mask.sddl_text() + seq![';', ';', ';'];
        assert(out@ =~= base + t3);
        self.sid.push_sddl(out);
        assert(out@ =~= base + (t3 + v.sid.sddl_text()));
        assert(t3 + v.sid.sddl_text() =~= v.sddl_text());
    }

    /// The entry as SDDL writes it, without the brackets round it: kind,
    /// flags, rights, two empty fields where the object types would stand,
    /// and the trustee by its alias or in canonical form, with `;` between
    /// them.
    pub fn to_string(&self) -> (r: String)
        ensures
            r@ == self@.sddl_text(),
    {
        let mut out: Vec<char> = Vec::new();
        self.push_sddl(&mut out);
        assert(out@ =~= self@.sddl_text());
        string_of(out.as_slice())
    }

    /// The last part of reading an entry: the trustee at `p`, and what
    /// follows it.
    fn read_tail(
        bytes: &[u8],
        pos: usize,
        ace_type: AceType,
        size: u16,
        object_type: Option<Guid>,
        inherited_object_type: Option<Guid>,
        p: usize,
    ) -> (r: Result<(Ace, usize), Error>)
        requires
            pos + size <= bytes.len(),
            size % 4 == 0,
            !ace_type.spec_is_reserved(),
            pos + 8 <= p <= pos + size,
            ace_type.spec_has_object_fields() ==> p == pos + 12 + optional_guid_len(
                optional_guid_view(object_type),
            ) + optional_guid_len(optional_guid_view(inherited_object_type)),
            !ace_type.spec_has_object_fields() ==> p == pos + 8 && object_type is None
                && inherited_object_type is None,
        ensures
            match r {
                Ok((ace, next)) => decode_ace_tail(
                    bytes@,
                    pos as int,
                    ace_type,
                    size as int,
                    optional_guid_view(object_type),
                    optional_guid_view(inherited_object_type),
                    p as int,
                ) == Ok::<(AceView, int), DecodeError>((ace@, next as int)) && ace@.wf() && next
                    == pos + size,
                Err(e) => decode_ace_tail(
                    bytes@,
                    pos as int,
                    ace_type,
                    size as int,
                    optional_guid_view(object_type),
                    optional_guid_view(inherited_object_type),
                    p as int,
                ) matches Err(cause) && e@ == Failure::Decode(cause),
            },
    {
        let end: usize = pos + size as usize;
        let (sid, q) = match Sid::read_from(bytes, p) {
            Ok(found) => found,
            Err(e) => {
                return Err(e);
            },
        };
        if q > end {
            return Err(Error::decode(DecodeError::IllegalAceSize));
        }
        proof {
            match object_type {
                Some(g) => {
                    g.lemma_view();
                },
                None => {},
            }
            match inherited_object_type {
                Some(g) => {
                    g.lemma_view();
                },
                None => {},
            }
        }
        let flags = AceHeaderFlags::from_bits(bytes[pos + 1]);
        let mask = AccessMask::from_bits(read_u32(bytes, pos + 4));
        if ace_type.has_application_data() {
            let application_data = copy_range(bytes, q, end);
            let header = AceHeader { ace_flags: flags, ace_size: size, mask };
            let ace = Ace {
                ace_type,
                header,
                object_type,
                inherited_object_type,
                sid,
                application_data,
            };
            Ok((ace, end))
        } else {
            let header = AceHeader { ace_flags: flags, ace_size: (q - pos) as u16, mask };
            let ace = Ace {
                ace_type,
                header,
                object_type,
                inherited_object_type,
                sid,
                application_data: Vec::new(),
            };
            Ok((ace, end))
        }
    }

    /// The entry that the bytes from `pos` on hold, and the position after
    /// it.
    pub fn read_from(bytes: &[u8], pos: usize) -> (r: Result<(Ace, usize), Error>)
        requires
            pos <= bytes@.len(),
        ensures
            match r {
                Ok((ace, next)) => decode_ace(bytes@, pos as int) == Ok::<
                    (AceView, int),
                    DecodeError,
                >((ace@, next as int)) && ace@.wf() && pos + 8 <= next <= bytes@.len(),
                Err(e) => decode_ace(bytes@, pos as int) matches Err(cause) && e@
                    == Failure::Decode(cause),
            },
    {
        let total: usize = bytes.len();
        if total - pos < 8 {
            return Err(Error::decode(DecodeError::UnexpectedEnd));
        }
        let ace_type: AceType = match AceType::from_code(bytes[pos]) {
            Some(t) => t,
            None => {
                return Err(Error::decode(DecodeError::UnknownAceType));
            },
        };
        if ace_type.is_reserved() {
            return Err(Error::decode(DecodeError::UnsupportedAceType));
        }
        let size: u16 = read_u16(bytes, pos + 2);
        if size % 4 != 0 || size < 8 {
            return Err(Error::decode(DecodeError::IllegalAceSize));
        }
        if total - pos < size as usize {
            return Err(Error::decode(DecodeError::UnexpectedEnd));
        }
        if ace_type.has_object_fields() {
            if size < 12 {
                return Err(Error::decode(DecodeError::IllegalAceSize));
            }
            let flags: AceFlags = match AceFlags::from_bits(read_u32(bytes, pos + 8)) {
                Some(f) => f,
                None => {
                    return Err(Error::decode(DecodeError::IllegalAceFlags));
                },
            };
            let has_object: bool = flags.object_type_present();
            let has_inherited: bool = flags.inherited_object_type_present();
            let first: usize = if has_object {
                16
            } else {
                0
            };
            let second: usize = if has_inherited {
                16
            } else {
                0
            };
            if 12 + first + second > size as usize {
                return Err(Error::decode(DecodeError::IllegalAceSize));
            }
            let at1: usize = pos + 12 + first;
            let at2: usize = at1 + second;
            let object_type: Option<Guid> = if has_object {
                Some(Guid::read_from(bytes, pos + 12))
            } else {
                None
            };
            let inherited_object_type: Option<Guid> = if has_inherited {
                Some(Guid::read_from(bytes, at1))
            } else {
                None
            };
            Self::read_tail(bytes, pos, ace_type, size, object_type, inherited_object_type, at2)
        } else {
            Self::read_tail(bytes, pos, ace_type, size, None, None, pos + 8)
        }
    }

    /// Appends the binary form.
#[verifier::rlimit(30)]
    pub fn write_to(&self, out: &mut Vec<u8>)
        ensures
            final(out)@ == old(out)@ + self@.encoding(),
            self@.wf(),
    {
        proof {
            use_type_invariant(self);
        }
        let ghost v = self@;
        let ghost base = out@;
        out.push(self.ace_type.code());
        out.push(self.header.ace_flags.bits());
        push_u16(out, self.header.ace_size);
        push_u32(out, self.header.mask.bits());
        assert(out@ =~= base + v.head_bytes());
        let mut payload: usize = 0;
        if self.ace_type.has_object_fields() {
            let ghost b0 = out@;
            push_u32(out, self.flags().bits());
            match &self.object_type {
                Some(g) => {
                    g.write_to(out);
                    payload += 16;
                },
                None => {},
            }
            let ghost b1 = out@;
            assert(b1 =~= b0 + (u32_bytes(v.object_flags() as int) + optional_guid_bytes(
                v.object_type,
            )));
            match &self.inherited_object_type {
                Some(g) => {
                    g.write_to(out);
                    payload += 16;
                },
                None => {},
            }
            assert(out@ =~= b0 + v.object_bytes());
            payload += 4;
        }
        assert(payload == v.object_part_len());
        let ghost t1 = v.head_bytes() + v.object_bytes();
        assert(out@ =~= base + t1);
        self.sid.write_to(out);
        payload += self.sid.len();
        let ghost t2 = t1 + v.sid.encoding();
        assert(out@ =~= base + t2);
        push_bytes(out, self.application_data.as_slice());
        payload += self.application_data.len();
        let ghost t3 = t2 + v.application_data;
        assert(out@ =~= base + t3);
        let padding: usize = self.header.ace_size as usize - 8 - payload;
        push_zero_bytes(out, padding);
        assert(out@ =~= base + (t3 + zero_bytes(v.padding_len())));
    }

    /// The binary form.
    pub fn to_bytes(&self) -> (r: Vec<u8>)
        ensures
            r@ == self@.encoding(),
    {
        let mut out: Vec<u8> = Vec::new();
        self.write_to(&mut out);
        assert(out@ =~= self@.encoding());
        out
    }
}

impl Clone for Ace {
    fn clone(&self) -> (r: Ace)
        ensures
            r@ == self@,
    {
        proof {
            use_type_invariant(self);
        }
        Ace {
            ace_type: self.ace_type,
            header: self.header,
            object_type: self.object_type,
            inherited_object_type: self.inherited_object_type,
            sid: self.sid.clone(),
            application_data: self.application_data.clone(),
        }
    }
}

} // verus!
