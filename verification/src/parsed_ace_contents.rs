//! The fields of an entry as the grammar reads them, before the kind of the
//! entry says which of them the entry holds.
use crate::access_mask::AccessMask;
use crate::ace::{optional_guid_len, optional_guid_view, Ace, AceView};
use crate::ace_header::{round_up_4, AceHeader, AceHeaderFlags, AceType, ACE_HEADER_SIZE};
use crate::guid::Guid;
use crate::sid::{Sid, SidView};
use vstd::prelude::*;

verus! {

/// Whether the kind of entry has a textual form: the kinds without
/// application data, and object audits, which are read with none.
pub open spec fn has_textual_form(ace_type: AceType) -> bool {
    match ace_type {
        AceType::ACCESS_ALLOWED_ACE_TYPE
        | AceType::ACCESS_DENIED_ACE_TYPE
        | AceType::SYSTEM_AUDIT_ACE_TYPE
        | AceType::ACCESS_ALLOWED_OBJECT_ACE_TYPE
        | AceType::ACCESS_DENIED_OBJECT_ACE_TYPE
        | AceType::SYSTEM_AUDIT_OBJECT_ACE_TYPE
        | AceType::SYSTEM_MANDATORY_LABEL_ACE_TYPE
        | AceType::SYSTEM_SCOPED_POLICY_ID_ACE_TYPE => true,
        _ => false,
    }
}

/// The entry of the given kind with the given fields: the object types only
/// where the kind has them, no application data, and the size of its parts.
pub open spec fn ace_of_parts(
    ace_type: AceType,
    flags: AceHeaderFlags,
    mask: AccessMask,
    object_type: Option<Seq<u8>>,
    inherited_object_type: Option<Seq<u8>>,
    sid: SidView,
) -> AceView {
    let kept = if ace_type.spec_has_object_fields() {
        object_type
    } else {
        None
    };
    let kept_inherited = if ace_type.spec_has_object_fields() {
        inherited_object_type
    } else {
        None
    };
    let payload = (if ace_type.spec_has_object_fields() {
        4 + optional_guid_len(kept) + optional_guid_len(kept_inherited)
    } else {
        0
    }) + sid.raw_len();
    AceView {
        ace_type,
        header: AceHeader {
            ace_flags: flags,
            ace_size: (ACE_HEADER_SIZE + round_up_4(payload as int)) as u16,
            mask,
        },
        object_type: kept,
        inherited_object_type: kept_inherited,
        sid,
        application_data: Seq::empty(),
    }
}

/// The fields of an entry as the grammar reads them.
pub struct ParsedAceContents {
    pub flags: AceHeaderFlags,
    pub mask: AccessMask,
    pub sid: Sid,
    pub object_type: Option<Guid>,
    pub inherited_object_type: Option<Guid>,
}

impl ParsedAceContents {
    /// The entry of the given kind with these fields.
    pub fn into_ace(self, ace_type: AceType) -> (r: Ace)
        requires
            has_textual_form(ace_type),
        ensures
            r@.wf(),
            r@ == ace_of_parts(
                ace_type,
                self.flags,
                self.mask,
                optional_guid_view(self.object_type),
                optional_guid_view(self.inherited_object_type),
                self.sid@,
            ),
    {
        let ghost view = self.sid@;
        let flags = self.flags;
        let mask = self.mask;
        let object_type = self.object_type;
        let inherited_object_type = self.inherited_object_type;
        let sid = self.sid;
        proof {
            use_type_invariant(&sid);
            sid.lemma_inv();
        }
        let ace = match ace_type {
            AceType::ACCESS_ALLOWED_ACE_TYPE => Ace::access_allowed(flags, mask, sid),
            AceType::ACCESS_DENIED_ACE_TYPE => Ace::access_denied(flags, mask, sid),
            AceType::SYSTEM_AUDIT_ACE_TYPE => Ace::audit(flags, mask, sid),
            AceType::ACCESS_ALLOWED_OBJECT_ACE_TYPE => Ace::access_allowed_object(
                flags,
                mask,
                object_type,
                inherited_object_type,
                sid,
            ),
            AceType::ACCESS_DENIED_OBJECT_ACE_TYPE => Ace::access_denied_object(
                flags,
                mask,
                object_type,
                inherited_object_type,
                sid,
            ),
            AceType::SYSTEM_AUDIT_OBJECT_ACE_TYPE => Ace::audit_object(
                flags,
                mask,
                object_type,
                inherited_object_type,
                sid,
                Vec::new(),
            ),
            AceType::SYSTEM_MANDATORY_LABEL_ACE_TYPE => Ace::mandatory_label(flags, mask, sid),
            _ => Ace::scoped_policy_id(flags, mask, sid),
        };
        proof {
            let want = ace_of_parts(
                ace_type,
                flags,
                mask,
                optional_guid_view(object_type),
                optional_guid_view(inherited_object_type),
                view,
            );
            assert(ace@.application_data =~= want.application_data);
            assert(ace@.header == want.header);
            assert(ace@ == want);
        }
        ace
    }
}

} // verus!
