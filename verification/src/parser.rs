//! The grammar of SDDL: which texts stand for a SID, for rights, for an ACL
//! and for a security descriptor, and what each of them stands for.
//!
//! A descriptor is a row of sections, each a tag, `:` and a content: `O` and
//! `G` with a SID, `D` and `S` with the flags and the entries of an ACL. An
//! entry is six fields in brackets with `;` between them: kind, flags, rights,
//! object type, inherited object type, trustee. A SID is its canonical text or
//! a two-letter alias; the aliases of a domain need the sub-authorities of the
//! domain.
use crate::access_mask::{rights_of_text, AccessMask};
use crate::ace::{Ace, AceView};
use crate::ace_header::{ace_flags_of_text, AceHeaderFlags, AceType};
use crate::acl::{
    ace_views, aces_size, all_aces_wf, Acl, AclRevision, AclType, AclView, ACL_HEADER_SIZE,
};
use crate::control_flags::{
    null_acl_text, ControlFlags, DISCRETIONARY_ACL_AUTO_INHERITED,
    DISCRETIONARY_ACL_AUTO_INHERIT_REQUIRED, DISCRETIONARY_ACL_PROTECTED,
    SYSTEM_ACL_AUTO_INHERITED, SYSTEM_ACL_AUTO_INHERIT_REQUIRED, SYSTEM_ACL_PROTECTED,
};
use crate::error::{Error, Failure, SidFormatCause, SyntaxCause};
use crate::guid::{uuid_of_text, Guid};
use crate::parsed_ace_contents::{ace_of_parts, ParsedAceContents};
use crate::security_descriptor::{
    flags_of_parts, optional_acl_view, optional_sid_view, SecurityDescriptor,
    SecurityDescriptorView,
};
use crate::sid::identifier_authority::{authority_bytes, IdentifierAuthority, SECURITY_NT_AUTHORITY};
use crate::sid::sid_alias::{alias_of_letters, AliasTarget, SidAlias};
use crate::sid::{sid_of_text, Sid, SidView, MAX_SUB_AUTHORITIES};
use crate::text::{
    chars_of, find, find_char, lemma_range_start, piece_start, ranges_follow, ranges_mark, split,
    split_ranges, starts_with_at, string_of,
};
use vstd::prelude::*;

verus! {

/// The sub-authorities of the domain, where they are given.
pub open spec fn domain_view(domain: Option<&[u32]>) -> Option<Seq<u32>> {
    match domain {
        Some(d) => Some(d@),
        None => None,
    }
}

/// The SID that an alias stands for. The aliases of a domain stand for the
/// SID of the NT authority with the sub-authority 21, those of the domain and
/// the relative identifier of the alias; without a domain they stand for
/// nothing.
pub open spec fn sid_of_alias(alias: SidAlias, domain: Option<Seq<u32>>) -> Result<
    SidView,
    Failure,
> {
    match alias.target() {
        AliasTarget::WellKnown { authority, sub_authority } => Ok(
            SidView { authority: authority_bytes(authority as nat), sub_authority },
        ),
        AliasTarget::Builtin { rid } => Ok(
            SidView {
                authority: authority_bytes(SECURITY_NT_AUTHORITY as nat),
                sub_authority: seq![32u32, rid],
            },
        ),
        AliasTarget::Domain { rid } => match domain {
            None => Err(Failure::MissingDomainInformation),
            Some(d) => if d.len() + 2 > MAX_SUB_AUTHORITIES {
                Err(
                    Failure::IllegalSidFormat(
                        seq![alias.letters().0, alias.letters().1],
                        SidFormatCause::TooManySubAuthorities,
                    ),
                )
            } else {
                Ok(
                    SidView {
                        authority: authority_bytes(SECURITY_NT_AUTHORITY as nat),
                        sub_authority: seq![21u32] + d + seq![rid],
                    },
                )
            },
        },
        AliasTarget::Unresolved => Err(Failure::Syntax(SyntaxCause::UnknownSidAlias)),
    }
}

/// The SID that a text of SDDL stands for: a text of two characters is an
/// alias, any other text the canonical form of a SID.
pub open spec fn sid_of_sddl(s: Seq<char>, domain: Option<Seq<u32>>) -> Result<SidView, Failure> {
    if s.len() == 2 {
        match alias_of_letters(s[0], s[1]) {
            Some(alias) => sid_of_alias(alias, domain),
            None => Err(Failure::Syntax(SyntaxCause::UnknownSidAlias)),
        }
    } else {
        match sid_of_text(s) {
            Ok(sid) => Ok(sid),
            Err(cause) => Err(Failure::IllegalSidFormat(s, cause)),
        }
    }
}

/// The kind of entry that the first field of an entry stands for. The kinds
/// with application data and the reserved ones have letters and no textual
/// form here.
pub open spec fn ace_type_of_text(s: Seq<char>) -> Result<AceType, SyntaxCause> {
    if s == seq!['A'] {
        Ok(AceType::ACCESS_ALLOWED_ACE_TYPE)
    } else if s == seq!['D'] {
        Ok(AceType::ACCESS_DENIED_ACE_TYPE)
    } else if s == seq!['A', 'U'] {
        Ok(AceType::SYSTEM_AUDIT_ACE_TYPE)
    } else if s == seq!['O', 'A'] {
        Ok(AceType::ACCESS_ALLOWED_OBJECT_ACE_TYPE)
    } else if s == seq!['O', 'D'] {
        Ok(AceType::ACCESS_DENIED_OBJECT_ACE_TYPE)
    } else if s == seq!['O', 'U'] {
        Ok(AceType::SYSTEM_AUDIT_OBJECT_ACE_TYPE)
    } else if s == seq!['M', 'L'] {
        Ok(AceType::SYSTEM_MANDATORY_LABEL_ACE_TYPE)
    } else if s == seq!['S', 'P'] {
        Ok(AceType::SYSTEM_SCOPED_POLICY_ID_ACE_TYPE)
    } else if s == seq!['A', 'L'] || s == seq!['O', 'L'] || s == seq!['X', 'A'] || s == seq![
        'X',
        'D',
    ] || s == seq!['X', 'U'] || s == seq!['Z', 'A'] || s == seq!['Z', 'D'] || s == seq!['Z', 'U']
        || s == seq!['R', 'A'] {
        Err(SyntaxCause::UnsupportedAceType)
    } else {
        Err(SyntaxCause::UnknownAceType)
    }
}

/// The object type that a field stands for: none where the field is empty,
/// and otherwise what the `uuid` crate reads from it.
pub open spec fn guid_of_field(s: Seq<char>) -> Result<Option<Seq<u8>>, SyntaxCause> {
    if s.len() == 0 {
        Ok(None)
    } else {
        match uuid_of_text(s) {
            Some(bytes) => Ok(Some(bytes)),
            None => Err(SyntaxCause::IllegalGuid),
        }
    }
}

/// The entry that a text between brackets stands for.
pub open spec fn ace_of_text(s: Seq<char>, domain: Option<Seq<u32>>) -> Result<AceView, Failure> {
    let f = split(s, ';');
    if f.len() != 6 {
        Err(Failure::Syntax(SyntaxCause::WrongFieldCount))
    } else {
        match ace_type_of_text(f[0]) {
            Err(cause) => Err(Failure::Syntax(cause)),
            Ok(ace_type) => match ace_flags_of_text(f[1]) {
                None => Err(Failure::Syntax(SyntaxCause::IllegalAceFlags)),
                Some(flags) => match rights_of_text(f[2]) {
                    None => Err(Failure::Syntax(SyntaxCause::IllegalAccessMask)),
                    Some(mask) => match guid_of_field(f[3]) {
                        Err(cause) => Err(Failure::Syntax(cause)),
                        Ok(object_type) => match guid_of_field(f[4]) {
                            Err(cause) => Err(Failure::Syntax(cause)),
                            Ok(inherited_object_type) => match sid_of_sddl(f[5], domain) {
                                Err(e) => Err(e),
                                Ok(sid) => Ok(
                                    ace_of_parts(
                                        ace_type,
                                        AceHeaderFlags { bits: flags },
                                        AccessMask { bits: mask },
                                        object_type,
                                        inherited_object_type,
                                        sid,
                                    ),
                                ),
                            },
                        },
                    },
                },
            },
        }
    }
}

/// The entries that the pieces stand for, each piece being `(` and the text
/// of an entry.
pub open spec fn aces_of_pieces(p: Seq<Seq<char>>, domain: Option<Seq<u32>>) -> Result<
    Seq<AceView>,
    Failure,
>
    decreases p.len(),
{
    if p.len() == 0 {
        Ok(Seq::empty())
    } else {
        match aces_of_pieces(p.drop_last(), domain) {
            Err(e) => Err(e),
            Ok(l) => {
                let x = p.last();
                if x.len() == 0 || x[0] != '(' {
                    Err(Failure::Syntax(SyntaxCause::IllegalAceList))
                } else {
                    match ace_of_text(x.skip(1), domain) {
                        Err(e) => Err(e),
                        Ok(ace) => Ok(l.push(ace)),
                    }
                }
            },
        }
    }
}

/// The entries that a row of bracketed texts stands for.
pub open spec fn aces_of_text(s: Seq<char>, domain: Option<Seq<u32>>) -> Result<
    Seq<AceView>,
    Failure,
> {
    if s.len() == 0 {
        Ok(Seq::empty())
    } else {
        let p = split(s, ')');
        if p.last().len() != 0 {
            Err(Failure::Syntax(SyntaxCause::IllegalAceList))
        } else {
            aces_of_pieces(p.drop_last(), domain)
        }
    }
}

/// The control flags of an ACL of the given kind that are set where the ACL
/// is protected, asks for inheritance, and was inherited.
pub open spec fn acl_flag_bits(acl_type: AclType, protected: bool, required: bool, inherited: bool) -> u16 {
    let p: u16 = if protected {
        match acl_type {
            AclType::SACL => SYSTEM_ACL_PROTECTED,
            AclType::DACL => DISCRETIONARY_ACL_PROTECTED,
        }
    } else {
        0
    };
    let r: u16 = if required {
        match acl_type {
            AclType::SACL => SYSTEM_ACL_AUTO_INHERIT_REQUIRED,
            AclType::DACL => DISCRETIONARY_ACL_AUTO_INHERIT_REQUIRED,
        }
    } else {
        0
    };
    let i: u16 = if inherited {
        match acl_type {
            AclType::SACL => SYSTEM_ACL_AUTO_INHERITED,
            AclType::DACL => DISCRETIONARY_ACL_AUTO_INHERITED,
        }
    } else {
        0
    };
    p | r | i
}

/// The control flags that the flags of an ACL of the given kind stand for:
/// `NO_ACCESS_CONTROL` for none, and otherwise `P`, `AR` and `AI`, each at
/// most once and in this order.
pub open spec fn acl_flags_of_text(s: Seq<char>, acl_type: AclType) -> Option<u16> {
    if s == null_acl_text() {
        Some(0u16)
    } else {
        let protected = s.len() >= 1 && s[0] == 'P';
        let s1 = if protected {
            s.skip(1)
        } else {
            s
        };
        let required = s1.len() >= 2 && s1[0] == 'A' && s1[1] == 'R';
        let s2 = if required {
            s1.skip(2)
        } else {
            s1
        };
        let inherited = s2.len() >= 2 && s2[0] == 'A' && s2[1] == 'I';
        let s3 = if inherited {
            s2.skip(2)
        } else {
            s2
        };
        if s3.len() == 0 {
            Some(acl_flag_bits(acl_type, protected, required, inherited))
        } else {
            None
        }
    }
}

/// Whether one of the entries is of an object-specific kind.
pub open spec fn has_object_ace(l: Seq<AceView>) -> bool {
    exists|i: int| 0 <= i < l.len() && (#[trigger] l[i]).ace_type.spec_has_object_fields()
}

/// The ACL of the given kind that the content of a section stands for: the
/// flags up to the first bracket, then the entries. The revision is that for
/// directory service objects where one of the entries is object-specific.
pub open spec fn acl_of_text(s: Seq<char>, acl_type: AclType, domain: Option<Seq<u32>>) -> Result<
    AclView,
    Failure,
> {
    let k = find(s, '(') as int;
    match acl_flags_of_text(s.take(k), acl_type) {
        None => Err(Failure::Syntax(SyntaxCause::IllegalAclFlags)),
        Some(bits) => match aces_of_text(s.skip(k), domain) {
            Err(e) => Err(e),
            Ok(l) => if !Acl::spec_fits(l) {
                Err(Failure::Syntax(SyntaxCause::AclTooLarge))
            } else {
                Ok(
                    AclView {
                        acl_revision: if has_object_ace(l) {
                            AclRevision::ACL_REVISION_DS
                        } else {
                            AclRevision::ACL_REVISION
                        },
                        acl_size: (ACL_HEADER_SIZE + aces_size(l)) as u16,
                        ace_count: l.len() as u16,
                        ace_list: l,
                        acl_type,
                        control_flags: ControlFlags { bits },
                    },
                )
            },
        },
    }
}

/// The ACL that an SDDL text of one section stands for: `D:` or `S:` and the
/// content.
pub open spec fn acl_of_sddl(s: Seq<char>, domain: Option<Seq<u32>>) -> Result<AclView, Failure> {
    let p = split(s, ':');
    if p.len() < 2 || p[0].len() != 1 {
        Err(Failure::Syntax(SyntaxCause::MissingSectionTag))
    } else if p.len() > 2 {
        Err(Failure::Syntax(SyntaxCause::UnexpectedSection))
    } else if p[0][0] == 'D' {
        acl_of_text(p[1], AclType::DACL, domain)
    } else if p[0][0] == 'S' {
        acl_of_text(p[1], AclType::SACL, domain)
    } else {
        Err(Failure::Syntax(SyntaxCause::UnexpectedSection))
    }
}

/// The parts of a descriptor that the sections read so far gave.
pub struct Sections {
    pub owner: Option<SidView>,
    pub group: Option<SidView>,
    pub dacl: Option<AclView>,
    pub sacl: Option<AclView>,
}

/// The tag of section `i`, given the pieces between the colons: the one
/// character before the first colon, and the last character before each
/// other.
pub open spec fn section_tag(p: Seq<Seq<char>>, i: int) -> char {
    if i == 0 {
        p[0][0]
    } else {
        p[i].last()
    }
}

/// The content of section `i`, given the pieces between the colons: the
/// piece after its colon, without the tag of the next section.
pub open spec fn section_content(p: Seq<Seq<char>>, i: int) -> Seq<char> {
    if i + 2 == p.len() || p[i + 1].len() == 0 {
        p[i + 1]
    } else {
        p[i + 1].drop_last()
    }
}

/// The parts with the content of one more section.
#[verifier::opaque]
pub open spec fn with_section(
    parts: Sections,
    tag: char,
    content: Seq<char>,
    domain: Option<Seq<u32>>,
) -> Result<Sections, Failure> {
    if tag == 'O' {
        if parts.owner is Some {
            Err(Failure::Syntax(SyntaxCause::DuplicateSection))
        } else {
            match sid_of_sddl(content, domain) {
                Ok(sid) => Ok(Sections { owner: Some(sid), ..parts }),
                Err(e) => Err(e),
            }
        }
    } else if tag == 'G' {
        if parts.group is Some {
            Err(Failure::Syntax(SyntaxCause::DuplicateSection))
        } else {
            match sid_of_sddl(content, domain) {
                Ok(sid) => Ok(Sections { group: Some(sid), ..parts }),
                Err(e) => Err(e),
            }
        }
    } else if tag == 'D' {
        if parts.dacl is Some {
            Err(Failure::Syntax(SyntaxCause::DuplicateSection))
        } else {
            match acl_of_text(content, AclType::DACL, domain) {
                Ok(acl) => Ok(Sections { dacl: Some(acl), ..parts }),
                Err(e) => Err(e),
            }
        }
    } else if tag == 'S' {
        if parts.sacl is Some {
            Err(Failure::Syntax(SyntaxCause::DuplicateSection))
        } else {
            match acl_of_text(content, AclType::SACL, domain) {
                Ok(acl) => Ok(Sections { sacl: Some(acl), ..parts }),
                Err(e) => Err(e),
            }
        }
    } else {
        Err(Failure::Syntax(SyntaxCause::UnexpectedSection))
    }
}

/// The parts with section `i`, given the pieces between the colons. The
/// first piece is one character, the tag of the first section; each further
/// piece but the last ends with the tag of the next section.
#[verifier::opaque]
pub open spec fn section_step(
    p: Seq<Seq<char>>,
    parts: Sections,
    i: int,
    domain: Option<Seq<u32>>,
) -> Result<Sections, Failure> {
    if (i == 0 && p[0].len() != 1) || (i > 0 && p[i].len() == 0) {
        Err(Failure::Syntax(SyntaxCause::MissingSectionTag))
    } else {
        with_section(parts, section_tag(p, i), section_content(p, i), domain)
    }
}

/// The parts that the first `k` sections give, given the pieces between the
/// colons.
pub open spec fn sections_of_pieces(p: Seq<Seq<char>>, k: nat, domain: Option<Seq<u32>>) -> Result<
    Sections,
    Failure,
>
    decreases k,
{
    if k == 0 {
        Ok(Sections { owner: None, group: None, dacl: None, sacl: None })
    } else {
        match sections_of_pieces(p, (k - 1) as nat, domain) {
            Err(e) => Err(e),
            Ok(parts) => section_step(p, parts, k - 1, domain),
        }
    }
}

/// The descriptor that an SDDL text stands for. The sections may come in any
/// order, each at most once; the empty text stands for the descriptor without
/// parts. The control flags are those that `SecurityDescriptor::new` gives.
pub open spec fn security_descriptor_of_sddl(s: Seq<char>, domain: Option<Seq<u32>>) -> Result<
    SecurityDescriptorView,
    Failure,
> {
    let p = split(s, ':');
    if s.len() == 0 {
        Ok(
            SecurityDescriptorView {
                flags: ControlFlags { bits: flags_of_parts(None, None) },
                owner: None,
                group: None,
                sacl: None,
                dacl: None,
            },
        )
    } else if p.len() < 2 {
        Err(Failure::Syntax(SyntaxCause::MissingSectionTag))
    } else {
        match sections_of_pieces(p, (p.len() - 1) as nat, domain) {
            Err(e) => Err(e),
            Ok(parts) => Ok(
                SecurityDescriptorView {
                    flags: ControlFlags { bits: flags_of_parts(parts.dacl, parts.sacl) },
                    owner: parts.owner,
                    group: parts.group,
                    sacl: parts.sacl,
                    dacl: parts.dacl,
                },
            ),
        }
    }
}

/// Where reading an entry finds its syntax error, for an entry that begins
/// at `base`: at the first field that is not accepted, or at the start where
/// the fields are not six.
pub open spec fn ace_error_position(s: Seq<char>, base: int, domain: Option<Seq<u32>>) -> int {
    let f = split(s, ';');
    if f.len() != 6 || ace_type_of_text(f[0]) is Err {
        base
    } else if ace_flags_of_text(f[1]) is None {
        base + piece_start(f, 1)
    } else if rights_of_text(f[2]) is None {
        base + piece_start(f, 2)
    } else if guid_of_field(f[3]) is Err {
        base + piece_start(f, 3)
    } else if guid_of_field(f[4]) is Err {
        base + piece_start(f, 4)
    } else {
        base + piece_start(f, 5)
    }
}

/// Where reading the first `k` of the pieces of a row of entries finds its
/// syntax error: at the first piece that does not begin with a bracket, or
/// where reading the entry after the bracket finds its own.
pub open spec fn aces_error_position_at(
    p: Seq<Seq<char>>,
    k: int,
    base: int,
    domain: Option<Seq<u32>>,
) -> int
    decreases k,
{
    if k <= 0 {
        base
    } else if aces_of_pieces(p.take(k - 1), domain) is Err {
        aces_error_position_at(p, k - 1, base, domain)
    } else {
        let at = base + piece_start(p, k - 1);
        let x = p[k - 1];
        if x.len() == 0 || x[0] != '(' {
            at
        } else {
            ace_error_position(x.skip(1), at + 1, domain)
        }
    }
}

/// Where reading a row of entries that begins at `base` finds its syntax
/// error: after the last closing bracket where the text goes on, and otherwise
/// at the first piece that is not accepted.
pub open spec fn aces_error_position(s: Seq<char>, base: int, domain: Option<Seq<u32>>) -> int {
    let p = split(s, ')');
    if p.last().len() != 0 {
        base + piece_start(p, p.len() - 1)
    } else {
        aces_error_position_at(p, p.len() - 1, base, domain)
    }
}

/// Where reading the content of the section of an ACL that begins at `base`
/// finds its syntax error: at the start for the flags, in the entries for an
/// entry, and at the first bracket for entries that do not fit in one ACL.
pub open spec fn acl_error_position(
    s: Seq<char>,
    base: int,
    acl_type: AclType,
    domain: Option<Seq<u32>>,
) -> int {
    let k = find(s, '(') as int;
    if acl_flags_of_text(s.take(k), acl_type) is None {
        base
    } else if aces_of_text(s.skip(k), domain) is Err {
        aces_error_position(s.skip(k), base + k, domain)
    } else {
        base + k
    }
}

/// Where reading an ACL from an SDDL text of one section finds its syntax
/// error.
pub open spec fn acl_sddl_error_position(s: Seq<char>, domain: Option<Seq<u32>>) -> int {
    let p = split(s, ':');
    if p.len() < 2 || p[0].len() != 1 {
        0
    } else if p.len() > 2 {
        piece_start(p, 1) + p[1].len()
    } else if p[0][0] == 'D' {
        acl_error_position(p[1], piece_start(p, 1), AclType::DACL, domain)
    } else if p[0][0] == 'S' {
        acl_error_position(p[1], piece_start(p, 1), AclType::SACL, domain)
    } else {
        0
    }
}

/// Where adding the content of a section finds its syntax error: at the tag
/// for a section that is not expected there, at the start of the content for
/// a SID, and within the content for an ACL.
pub open spec fn with_section_error_position(
    parts: Sections,
    tag: char,
    content: Seq<char>,
    tag_at: int,
    content_at: int,
    domain: Option<Seq<u32>>,
) -> int {
    if tag == 'O' {
        if parts.owner is Some {
            tag_at
        } else {
            content_at
        }
    } else if tag == 'G' {
        if parts.group is Some {
            tag_at
        } else {
            content_at
        }
    } else if tag == 'D' {
        if parts.dacl is Some {
            tag_at
        } else {
            acl_error_position(content, content_at, AclType::DACL, domain)
        }
    } else if tag == 'S' {
        if parts.sacl is Some {
            tag_at
        } else {
            acl_error_position(content, content_at, AclType::SACL, domain)
        }
    } else {
        tag_at
    }
}

/// Where reading section `i` finds its syntax error, given the pieces
/// between the colons.
pub open spec fn section_error_position(
    p: Seq<Seq<char>>,
    parts: Sections,
    i: int,
    domain: Option<Seq<u32>>,
) -> int {
    if (i == 0 && p[0].len() != 1) || (i > 0 && p[i].len() == 0) {
        piece_start(p, i)
    } else {
        with_section_error_position(
            parts,
            section_tag(p, i),
            section_content(p, i),
            piece_start(p, i) + p[i].len() - 1,
            piece_start(p, i + 1),
            domain,
        )
    }
}

/// Where reading the first `k` sections finds its syntax error: where the
/// first section that is not accepted has its own.
pub open spec fn sections_error_position(
    p: Seq<Seq<char>>,
    k: int,
    domain: Option<Seq<u32>>,
) -> int
    decreases k,
{
    if k <= 0 {
        0
    } else {
        match sections_of_pieces(p, (k - 1) as nat, domain) {
            Err(_) => sections_error_position(p, k - 1, domain),
            Ok(parts) => section_error_position(p, parts, k - 1, domain),
        }
    }
}

/// Where reading a descriptor from its SDDL text finds its syntax error, as
/// an index into the text.
pub open spec fn security_descriptor_error_position(s: Seq<char>, domain: Option<Seq<u32>>) -> int {
    let p = split(s, ':');
    if p.len() < 2 {
        0
    } else {
        sections_error_position(p, p.len() - 1, domain)
    }
}

/// Once a section cannot be read, the error stays where it is.
pub proof fn lemma_sections_error_stays(p: Seq<Seq<char>>, k: nat, n: nat, domain: Option<Seq<u32>>)
    requires
        1 <= k <= n,
        sections_of_pieces(p, k, domain) is Err,
    ensures
        sections_error_position(p, n as int, domain) == sections_error_position(
            p,
            k as int,
            domain,
        ),
    decreases n,
{
    if k < n {
        lemma_sections_fail(p, k, (n - 1) as nat, domain);
        lemma_sections_error_stays(p, k, (n - 1) as nat, domain);
    }
}

/// Once an entry cannot be read, the error stays where it is.
pub proof fn lemma_aces_error_stays(
    p: Seq<Seq<char>>,
    k: int,
    n: int,
    base: int,
    domain: Option<Seq<u32>>,
)
    requires
        1 <= k <= n <= p.len(),
        aces_of_pieces(p.take(k), domain) is Err,
    ensures
        aces_error_position_at(p, n, base, domain) == aces_error_position_at(p, k, base, domain),
    decreases n,
{
    if k < n {
        assert(p.take(n - 1).take(k) =~= p.take(k));
        lemma_aces_of_pieces_fail(p.take(n - 1), k, domain);
        lemma_aces_error_stays(p, k, n - 1, base, domain);
    }
}

/// Once a section cannot be read, no longer row of sections can.
pub proof fn lemma_sections_fail(p: Seq<Seq<char>>, k: nat, n: nat, domain: Option<Seq<u32>>)
    requires
        k <= n,
        sections_of_pieces(p, k, domain) is Err,
    ensures
        sections_of_pieces(p, n, domain) == sections_of_pieces(p, k, domain),
    decreases n,
{
    if k < n {
        lemma_sections_fail(p, k, (n - 1) as nat, domain);
    }
}

/// Once an entry cannot be read, no longer row of entries can.
pub proof fn lemma_aces_of_pieces_fail(p: Seq<Seq<char>>, k: int, domain: Option<Seq<u32>>)
    requires
        0 <= k <= p.len(),
        aces_of_pieces(p.take(k), domain) is Err,
    ensures
        aces_of_pieces(p, domain) == aces_of_pieces(p.take(k), domain),
    decreases p.len(),
{
    if k < p.len() {
        assert(p.drop_last().take(k) =~= p.take(k));
        lemma_aces_of_pieces_fail(p.drop_last(), k, domain);
    } else {
        assert(p.take(k) =~= p);
    }
}

/// Reads a SID: its canonical text or an alias.
pub fn parse_sid(s: &[char], start: usize, end: usize, domain: Option<&[u32]>) -> (r: Result<
    Sid,
    Error,
>)
    requires
        start <= end <= s@.len(),
    ensures
        match r {
            Ok(sid) => sid_of_sddl(s@.subrange(start as int, end as int), domain_view(domain))
                == Ok::<SidView, Failure>(sid@) && sid@.wf(),
            Err(e) => sid_of_sddl(s@.subrange(start as int, end as int), domain_view(domain))
                == Err::<SidView, Failure>(e@) && (e matches Error::ParseError(at)
                ==> at.position == start),
        },
{
    let ghost t = s@.subrange(start as int, end as int);
    if end - start == 2 {
        assert(t[0] == s@[start as int] && t[1] == s@[start + 1]);
        let alias: SidAlias = match SidAlias::from_letters(s[start], s[start + 1]) {
            Some(a) => a,
            None => {
                return Err(Error::syntax(start, SyntaxCause::UnknownSidAlias));
            },
        };
        resolve_alias(alias, start, domain)
    } else {
        match Sid::from_text(s, start, end) {
            Ok(sid) => Ok(sid),
            Err(cause) => {
                let text = string_of(crate::text::slice_range(s, start, end));
                Err(Error::IllegalSidFormat(text, cause))
            },
        }
    }
}

/// The SID that an alias stands for.
pub fn resolve_alias(alias: SidAlias, position: usize, domain: Option<&[u32]>) -> (r: Result<
    Sid,
    Error,
>)
    ensures
        match r {
            Ok(sid) => sid_of_alias(alias, domain_view(domain)) == Ok::<SidView, Failure>(sid@)
                && sid@.wf(),
            Err(e) => sid_of_alias(alias, domain_view(domain)) == Err::<SidView, Failure>(e@)
                && (e matches Error::ParseError(at) ==> at.position == position),
        },
{
    match alias {
        SidAlias::WD => well_known(1, 0),
        SidAlias::CO => well_known(3, 0),
        SidAlias::CG => well_known(3, 1),
        SidAlias::OW => well_known(3, 4),
        SidAlias::AN => well_known(5, 7),
        SidAlias::AU => well_known(5, 11),
        SidAlias::ED => well_known(5, 9),
        SidAlias::IU => well_known(5, 4),
        SidAlias::LS => well_known(5, 19),
        SidAlias::NS => well_known(5, 20),
        SidAlias::NU => well_known(5, 2),
        SidAlias::PS => well_known(5, 10),
        SidAlias::RC => well_known(5, 12),
        SidAlias::SU => well_known(5, 6),
        SidAlias::SY => well_known(5, 18),
        SidAlias::WR => well_known(5, 33),
        SidAlias::HI => well_known(16, 12288),
        SidAlias::LW => well_known(16, 4096),
        SidAlias::ME => well_known(16, 8192),
        SidAlias::MP => well_known(16, 8448),
        SidAlias::SI => well_known(16, 16384),
        SidAlias::AS => well_known(18, 1),
        SidAlias::SS => well_known(18, 2),
        SidAlias::UD => {
            let mut subs: Vec<u32> = Vec::new();
            subs.push(84);
            subs.push(0);
            subs.push(0);
            subs.push(0);
            subs.push(0);
            subs.push(0);
            assert(subs@ =~= seq![84u32, 0u32, 0u32, 0u32, 0u32, 0u32]);
            let authority = IdentifierAuthority::from(5);
            assert(authority@ =~= authority_bytes(5));
            Ok(Sid::new(authority, subs.as_slice()))
        },
        SidAlias::AC => {
            let mut subs: Vec<u32> = Vec::new();
            subs.push(2);
            subs.push(1);
            assert(subs@ =~= seq![2u32, 1u32]);
            let authority = IdentifierAuthority::from(15);
            assert(authority@ =~= authority_bytes(15));
            Ok(Sid::new(authority, subs.as_slice()))
        },
        SidAlias::AP => in_domain(alias, 525, domain),
        SidAlias::CA => in_domain(alias, 517, domain),
        SidAlias::CN => in_domain(alias, 522, domain),
        SidAlias::DA => in_domain(alias, 512, domain),
        SidAlias::DC => in_domain(alias, 515, domain),
        SidAlias::DD => in_domain(alias, 516, domain),
        SidAlias::DG => in_domain(alias, 514, domain),
        SidAlias::DU => in_domain(alias, 513, domain),
        SidAlias::EA => in_domain(alias, 519, domain),
        SidAlias::EK => in_domain(alias, 527, domain),
        SidAlias::KA => in_domain(alias, 526, domain),
        SidAlias::LA => in_domain(alias, 500, domain),
        SidAlias::LG => in_domain(alias, 501, domain),
        SidAlias::PA => in_domain(alias, 520, domain),
        SidAlias::RO => in_domain(alias, 498, domain),
        SidAlias::RS => in_domain(alias, 553, domain),
        SidAlias::SA => in_domain(alias, 518, domain),
        SidAlias::AA => Ok(Sid::new_builtin(579)),
        SidAlias::AO => Ok(Sid::new_builtin(548)),
        SidAlias::BA => Ok(Sid::new_builtin(544)),
        SidAlias::BG => Ok(Sid::new_builtin(546)),
        SidAlias::BO => Ok(Sid::new_builtin(551)),
        SidAlias::BU => Ok(Sid::new_builtin(545)),
        SidAlias::CD => Ok(Sid::new_builtin(574)),
        SidAlias::CY => Ok(Sid::new_builtin(569)),
        SidAlias::ER => Ok(Sid::new_builtin(573)),
        SidAlias::ES => Ok(Sid::new_builtin(576)),
        SidAlias::HA => Ok(Sid::new_builtin(578)),
        SidAlias::IS => Ok(Sid::new_builtin(568)),
        SidAlias::LU => Ok(Sid::new_builtin(559)),
        SidAlias::MS => Ok(Sid::new_builtin(577)),
        SidAlias::MU => Ok(Sid::new_builtin(558)),
        SidAlias::NO => Ok(Sid::new_builtin(556)),
        SidAlias::PO => Ok(Sid::new_builtin(550)),
        SidAlias::PU => Ok(Sid::new_builtin(547)),
        SidAlias::RA => Ok(Sid::new_builtin(575)),
        SidAlias::RD => Ok(Sid::new_builtin(555)),
        SidAlias::RE => Ok(Sid::new_builtin(552)),
        SidAlias::RM => Ok(Sid::new_builtin(580)),
        SidAlias::RU => Ok(Sid::new_builtin(554)),
        SidAlias::SO => Ok(Sid::new_builtin(549)),
        SidAlias::HO | SidAlias::SH => Err(
            Error::syntax(position, SyntaxCause::UnknownSidAlias),
        ),
    }
}

/// The SID with the given authority and one sub-authority.
fn well_known(authority: u8, sub_authority: u32) -> (r: Result<Sid, Error>)
    ensures
        r matches Ok(sid) && sid@ == (SidView {
            authority: authority_bytes(authority as nat),
            sub_authority: seq![sub_authority],
        }) && sid@.wf(),
{
    let mut subs: Vec<u32> = Vec::new();
    subs.push(sub_authority);
    assert(subs@ =~= seq![sub_authority]);
    let a = IdentifierAuthority::from(authority);
    assert(a@ =~= authority_bytes(authority as nat));
    Ok(Sid::new(a, subs.as_slice()))
}

/// The SID of the account or group with relative identifier `rid` in the
/// domain.
fn in_domain(alias: SidAlias, rid: u32, domain: Option<&[u32]>) -> (r: Result<Sid, Error>)
    ensures
        match r {
            Ok(sid) => domain matches Some(d) && d@.len() + 2 <= MAX_SUB_AUTHORITIES && sid@ == (
            SidView {
                authority: authority_bytes(SECURITY_NT_AUTHORITY as nat),
                sub_authority: seq![21u32] + d@ + seq![rid],
            }) && sid@.wf(),
            Err(e) => match domain {
                None => e@ == Failure::MissingDomainInformation,
                Some(d) => d@.len() + 2 > MAX_SUB_AUTHORITIES && e@ == Failure::IllegalSidFormat(
                    seq![alias.letters().0, alias.letters().1],
                    SidFormatCause::TooManySubAuthorities,
                ),
            },
        },
{
    match domain {
        None => Err(Error::MissingDomainInformation),
        Some(d) => {
            if d.len() > 13 {
                let pair = alias.letter_pair();
                let mut letters: Vec<char> = Vec::new();
                letters.push(pair.0);
                letters.push(pair.1);
                assert(letters@ =~= seq![alias.letters().0, alias.letters().1]);
                Err(
                    Error::IllegalSidFormat(
                        string_of(letters.as_slice()),
                        SidFormatCause::TooManySubAuthorities,
                    ),
                )
            } else {
                Ok(Sid::new_with_domain(rid, d))
            }
        },
    }
}

/// Whether the characters from `start` up to `end` are the one character
/// `a`.
fn is_one(s: &[char], start: usize, end: usize, a: char) -> (r: bool)
    requires
        start <= end <= s@.len(),
    ensures
        r == (s@.subrange(start as int, end as int) == seq![a]),
{
    let ghost t = s@.subrange(start as int, end as int);
    if end - start == 1 {
        assert(t[0] == s@[start as int]);
        assert(seq![a][0] == a);
        if s[start] == a {
            assert(t =~= seq![a]);
            true
        } else {
            false
        }
    } else {
        assert(seq![a].len() == 1);
        false
    }
}

/// Whether the characters from `start` up to `end` are the two characters
/// `a`, `b`.
fn is_two(s: &[char], start: usize, end: usize, a: char, b: char) -> (r: bool)
    requires
        start <= end <= s@.len(),
    ensures
        r == (s@.subrange(start as int, end as int) == seq![a, b]),
{
    let ghost t = s@.subrange(start as int, end as int);
    if end - start == 2 {
        assert(t[0] == s@[start as int] && t[1] == s@[start + 1]);
        assert(seq![a, b][0] == a && seq![a, b][1] == b);
        if s[start] == a && s[start + 1] == b {
            assert(t =~= seq![a, b]);
            true
        } else {
            false
        }
    } else {
        assert(seq![a, b].len() == 2);
        false
    }
}

/// Reads the kind of an entry.
pub fn parse_ace_type(s: &[char], start: usize, end: usize) -> (r: Result<AceType, SyntaxCause>)
    requires
        start <= end <= s@.len(),
    ensures
        r == ace_type_of_text(s@.subrange(start as int, end as int)),
{
    if is_one(s, start, end, 'A') {
        Ok(AceType::ACCESS_ALLOWED_ACE_TYPE)
    } else if is_one(s, start, end, 'D') {
        Ok(AceType::ACCESS_DENIED_ACE_TYPE)
    } else if is_two(s, start, end, 'A', 'U') {
        Ok(AceType::SYSTEM_AUDIT_ACE_TYPE)
    } else if is_two(s, start, end, 'O', 'A') {
        Ok(AceType::ACCESS_ALLOWED_OBJECT_ACE_TYPE)
    } else if is_two(s, start, end, 'O', 'D') {
        Ok(AceType::ACCESS_DENIED_OBJECT_ACE_TYPE)
    } else if is_two(s, start, end, 'O', 'U') {
        Ok(AceType::SYSTEM_AUDIT_OBJECT_ACE_TYPE)
    } else if is_two(s, start, end, 'M', 'L') {
        Ok(AceType::SYSTEM_MANDATORY_LABEL_ACE_TYPE)
    } else if is_two(s, start, end, 'S', 'P') {
        Ok(AceType::SYSTEM_SCOPED_POLICY_ID_ACE_TYPE)
    } else if is_two(s, start, end, 'A', 'L') || is_two(s, start, end, 'O', 'L') || is_two(
        s,
        start,
        end,
        'X',
        'A',
    ) || is_two(s, start, end, 'X', 'D') || is_two(s, start, end, 'X', 'U') || is_two(
        s,
        start,
        end,
        'Z',
        'A',
    ) || is_two(s, start, end, 'Z', 'D') || is_two(s, start, end, 'Z', 'U') || is_two(
        s,
        start,
        end,
        'R',
        'A',
    ) {
        Err(SyntaxCause::UnsupportedAceType)
    } else {
        Err(SyntaxCause::UnknownAceType)
    }
}

/// Reads an object type: nothing, or the text of a GUID.
pub fn parse_guid(s: &[char], start: usize, end: usize) -> (r: Result<Option<Guid>, SyntaxCause>)
    requires
        start <= end <= s@.len(),
    ensures
        match r {
            Ok(g) => guid_of_field(s@.subrange(start as int, end as int)) == Ok::<
                Option<Seq<u8>>,
                SyntaxCause,
            >(crate::ace::optional_guid_view(g)),
            Err(cause) => guid_of_field(s@.subrange(start as int, end as int)) == Err::<
                Option<Seq<u8>>,
                SyntaxCause,
            >(cause),
        },
{
    if start == end {
        return Ok(None);
    }
    let text = string_of(crate::text::slice_range(s, start, end));
    match Guid::try_from(text.as_str()) {
        Ok(g) => Ok(Some(g)),
        Err(_) => Err(SyntaxCause::IllegalGuid),
    }
}

/// Reads an entry from the text between its brackets.
#[verifier::rlimit(30)]
pub fn parse_ace(s: &[char], start: usize, end: usize, domain: Option<&[u32]>) -> (r: Result<
    Ace,
    Error,
>)
    requires
        start <= end <= s@.len(),
    ensures
        match r {
            Ok(ace) => ace_of_text(s@.subrange(start as int, end as int), domain_view(domain))
                == Ok::<AceView, Failure>(ace@) && ace@.wf(),
            Err(e) => ace_of_text(s@.subrange(start as int, end as int), domain_view(domain))
                == Err::<AceView, Failure>(e@) && (e matches Error::ParseError(at) ==> at.position
                == ace_error_position(
                s@.subrange(start as int, end as int),
                start as int,
                domain_view(domain),
            )),
        },
{
    let ghost f = split(s@.subrange(start as int, end as int), ';');
    let fields = split_ranges(s, start, end, ';');
    if fields.len() != 6 {
        return Err(Error::syntax(start, SyntaxCause::WrongFieldCount));
    }
    let f0 = fields[0];
    let f1 = fields[1];
    let f2 = fields[2];
    let f3 = fields[3];
    let f4 = fields[4];
    let f5 = fields[5];
    proof {
        lemma_range_start(s@, fields@, f, start as int, end as int, 0);
        lemma_range_start(s@, fields@, f, start as int, end as int, 1);
        lemma_range_start(s@, fields@, f, start as int, end as int, 2);
        lemma_range_start(s@, fields@, f, start as int, end as int, 3);
        lemma_range_start(s@, fields@, f, start as int, end as int, 4);
        lemma_range_start(s@, fields@, f, start as int, end as int, 5);
        assert(f[0] == s@.subrange(f0.0 as int, f0.1 as int));
        assert(f[1] == s@.subrange(f1.0 as int, f1.1 as int));
        assert(f[2] == s@.subrange(f2.0 as int, f2.1 as int));
        assert(f[3] == s@.subrange(f3.0 as int, f3.1 as int));
        assert(f[4] == s@.subrange(f4.0 as int, f4.1 as int));
        assert(f[5] == s@.subrange(f5.0 as int, f5.1 as int));
    }
    let ace_type: AceType = match parse_ace_type(s, f0.0, f0.1) {
        Ok(t) => t,
        Err(cause) => {
            return Err(Error::syntax(f0.0, cause));
        },
    };
    let flags: AceHeaderFlags = match AceHeaderFlags::from_sddl(s, f1.0, f1.1) {
        Some(found) => found,
        None => {
            return Err(Error::syntax(f1.0, SyntaxCause::IllegalAceFlags));
        },
    };
    let mask: AccessMask = match AccessMask::from_sddl(s, f2.0, f2.1) {
        Some(found) => found,
        None => {
            return Err(Error::syntax(f2.0, SyntaxCause::IllegalAccessMask));
        },
    };
    let object_type: Option<Guid> = match parse_guid(s, f3.0, f3.1) {
        Ok(found) => found,
        Err(cause) => {
            return Err(Error::syntax(f3.0, cause));
        },
    };
    let inherited_object_type: Option<Guid> = match parse_guid(s, f4.0, f4.1) {
        Ok(found) => found,
        Err(cause) => {
            return Err(Error::syntax(f4.0, cause));
        },
    };
    let sid: Sid = match parse_sid(s, f5.0, f5.1, domain) {
        Ok(found) => found,
        Err(e) => {
            return Err(e);
        },
    };
    let contents = ParsedAceContents { flags, mask, sid, object_type, inherited_object_type };
    Ok(contents.into_ace(ace_type))
}

/// Reads the entries of an ACL: a row of bracketed texts.
#[verifier::rlimit(30)]
pub fn parse_aces(s: &[char], start: usize, end: usize, domain: Option<&[u32]>) -> (r: Result<
    Vec<Ace>,
    Error,
>)
    requires
        start <= end <= s@.len(),
    ensures
        match r {
            Ok(l) => aces_of_text(s@.subrange(start as int, end as int), domain_view(domain))
                == Ok::<Seq<AceView>, Failure>(ace_views(l@)) && all_aces_wf(ace_views(l@)),
            Err(e) => aces_of_text(s@.subrange(start as int, end as int), domain_view(domain))
                == Err::<Seq<AceView>, Failure>(e@) && (e matches Error::ParseError(at)
                ==> at.position == aces_error_position(
                s@.subrange(start as int, end as int),
                start as int,
                domain_view(domain),
            )),
        },
{
    let ghost t = s@.subrange(start as int, end as int);
    let ghost d = domain_view(domain);
    let mut list: Vec<Ace> = Vec::new();
    if start == end {
        assert(ace_views(list@) =~= Seq::<AceView>::empty());
        return Ok(list);
    }
    let ghost p = split(t, ')');
    let pieces = split_ranges(s, start, end, ')');
    let n: usize = pieces.len();
    let last = pieces[n - 1];
    assert(p.last() == s@.subrange(last.0 as int, last.1 as int));
    proof {
        lemma_range_start(s@, pieces@, p, start as int, end as int, n - 1);
    }
    if last.1 != last.0 {
        return Err(Error::syntax(last.0, SyntaxCause::IllegalAceList));
    }
    let ghost q = p.drop_last();
    let mut i: usize = 0;
    assert(q.take(0) =~= Seq::<Seq<char>>::empty());
    assert(ace_views(list@) =~= Seq::<AceView>::empty());
    while i < n - 1
        invariant
            i <= n - 1,
            n == pieces@.len(),
            n >= 1,
            ranges_mark(s@, pieces@, p),
            ranges_follow(pieces@, start as int, end as int),
            start <= end <= s@.len(),
            q == p.drop_last(),
            d == domain_view(domain),
            t == s@.subrange(start as int, end as int),
            t.len() > 0,
            p == split(t, ')'),
            p.last().len() == 0,
            list@.len() == i,
            aces_of_pieces(q.take(i as int), d) == Ok::<Seq<AceView>, Failure>(ace_views(list@)),
            all_aces_wf(ace_views(list@)),
        decreases n - 1 - i,
    {
        let piece = pieces[i];
        let ghost x = q[i as int];
        let ghost next = q.take(i + 1);
        proof {
            assert(p[i as int] == s@.subrange(piece.0 as int, piece.1 as int));
            assert(x == p[i as int]);
            assert(next.drop_last() =~= q.take(i as int));
            assert(next.last() == x);
            lemma_range_start(s@, pieces@, p, start as int, end as int, i as int);
            assert(p.take(i as int) =~= q.take(i as int));
            assert(p.take(i + 1) =~= next);
        }
        if piece.1 == piece.0 || s[piece.0] != '(' {
            proof {
                if piece.1 > piece.0 {
                    assert(x[0] == s@[piece.0 as int]);
                }
                assert(aces_of_pieces(next, d) == Err::<Seq<AceView>, Failure>(
                    Failure::Syntax(SyntaxCause::IllegalAceList),
                ));
                lemma_aces_of_pieces_fail(q, i + 1, d);
                lemma_aces_error_stays(p, i + 1, n - 1, start as int, d);
            }
            return Err(Error::syntax(piece.0, SyntaxCause::IllegalAceList));
        }
        proof {
            assert(x[0] == s@[piece.0 as int]);
            assert(x.skip(1) =~= s@.subrange(piece.0 + 1, piece.1 as int));
        }
        let ace: Ace = match parse_ace(s, piece.0 + 1, piece.1, domain) {
            Ok(found) => found,
            Err(e) => {
                proof {
                    assert(aces_of_pieces(next, d) == Err::<Seq<AceView>, Failure>(e@));
                    lemma_aces_of_pieces_fail(q, i + 1, d);
                    lemma_aces_error_stays(p, i + 1, n - 1, start as int, d);
                }
                return Err(e);
            },
        };
        proof {
            assert(aces_of_pieces(next, d) == Ok::<Seq<AceView>, Failure>(
                ace_views(list@).push(ace@),
            ));
            let before = ace_views(list@);
            let after = ace_views(list@.push(ace));
            assert(after =~= before.push(ace@));
            assert forall|j: int| 0 <= j < after.len() implies (#[trigger] after[j]).wf() by {
                if j < before.len() {
                    assert(after[j] == before[j]);
                }
            }
        }
        list.push(ace);
        i += 1;
    }
    assert(q.take(n - 1) =~= q);
    Ok(list)
}

/// Reads the flags of an ACL.
pub fn parse_acl_flags(s: &[char], start: usize, end: usize, acl_type: AclType) -> (r: Option<u16>)
    requires
        start <= end <= s@.len(),
    ensures
        r == acl_flags_of_text(s@.subrange(start as int, end as int), acl_type),
{
    let ghost t = s@.subrange(start as int, end as int);
    if is_null_acl(s, start, end) {
        return Some(0);
    }
    let mut pos: usize = start;
    let protected: bool = end - pos >= 1 && s[pos] == 'P';
    proof {
        if end - pos >= 1 {
            assert(t[0] == s@[start as int]);
        }
    }
    if protected {
        pos += 1;
    }
    let ghost s1 = s@.subrange(pos as int, end as int);
    assert(s1 =~= if protected {
        t.skip(1)
    } else {
        t
    });
    let required: bool = end - pos >= 2 && s[pos] == 'A' && s[pos + 1] == 'R';
    proof {
        if end - pos >= 2 {
            assert(s1[0] == s@[pos as int] && s1[1] == s@[pos + 1]);
        }
    }
    if required {
        pos += 2;
    }
    let ghost s2 = s@.subrange(pos as int, end as int);
    assert(s2 =~= if required {
        s1.skip(2)
    } else {
        s1
    });
    let inherited: bool = end - pos >= 2 && s[pos] == 'A' && s[pos + 1] == 'I';
    proof {
        if end - pos >= 2 {
            assert(s2[0] == s@[pos as int] && s2[1] == s@[pos + 1]);
        }
    }
    if inherited {
        pos += 2;
    }
    let ghost s3 = s@.subrange(pos as int, end as int);
    assert(s3 =~= if inherited {
        s2.skip(2)
    } else {
        s2
    });
    if pos != end {
        return None;
    }
    let p: u16 = if protected {
        match acl_type {
            AclType::SACL => SYSTEM_ACL_PROTECTED,
            AclType::DACL => DISCRETIONARY_ACL_PROTECTED,
        }
    } else {
        0
    };
    let q: u16 = if required {
        match acl_type {
            AclType::SACL => SYSTEM_ACL_AUTO_INHERIT_REQUIRED,
            AclType::DACL => DISCRETIONARY_ACL_AUTO_INHERIT_REQUIRED,
        }
    } else {
        0
    };
    let i: u16 = if inherited {
        match acl_type {
            AclType::SACL => SYSTEM_ACL_AUTO_INHERITED,
            AclType::DACL => DISCRETIONARY_ACL_AUTO_INHERITED,
        }
    } else {
        0
    };
    Some(p | q | i)
}

/// Whether the characters from `start` up to `end` are the word
/// `NO_ACCESS_CONTROL`.
fn is_null_acl(s: &[char], start: usize, end: usize) -> (r: bool)
    requires
        start <= end <= s@.len(),
    ensures
        r == (s@.subrange(start as int, end as int) == null_acl_text()),
{
    let mut word: Vec<char> = Vec::new();
    crate::control_flags::push_null_acl(&mut word);
    assert(word@ =~= null_acl_text());
    if end - start != word.len() {
        return false;
    }
    let r = starts_with_at(s, start, end, word.as_slice());
    r
}

/// Whether one of the entries is of an object-specific kind.
fn any_object_ace(list: &Vec<Ace>) -> (r: bool)
    ensures
        r == has_object_ace(ace_views(list@)),
{
    let ghost l = ace_views(list@);
    let mut i: usize = 0;
    while i < list.len()
        invariant
            i <= list.len(),
            l == ace_views(list@),
            forall|j: int| 0 <= j < i ==> !(#[trigger] l[j]).ace_type.spec_has_object_fields(),
        decreases list.len() - i,
    {
        assert(l[i as int] == list@[i as int]@);
        if list[i].ace_type().has_object_fields() {
            return true;
        }
        i += 1;
    }
    false
}

/// Reads the content of a section with an ACL: flags and entries.
pub fn parse_acl(
    s: &[char],
    start: usize,
    end: usize,
    acl_type: AclType,
    domain: Option<&[u32]>,
) -> (r: Result<Acl, Error>)
    requires
        start <= end <= s@.len(),
    ensures
        match r {
            Ok(acl) => acl_of_text(
                s@.subrange(start as int, end as int),
                acl_type,
                domain_view(domain),
            ) == Ok::<AclView, Failure>(acl@) && acl@.wf(),
            Err(e) => acl_of_text(
                s@.subrange(start as int, end as int),
                acl_type,
                domain_view(domain),
            ) == Err::<AclView, Failure>(e@) && (e matches Error::ParseError(at) ==> at.position
                == acl_error_position(
                s@.subrange(start as int, end as int),
                start as int,
                acl_type,
                domain_view(domain),
            )),
        },
{
    let ghost t = s@.subrange(start as int, end as int);
    let k: usize = find_char(s, start, end, '(');
    proof {
        assert(t.take(k - start) =~= s@.subrange(start as int, k as int));
        assert(t.skip(k - start) =~= s@.subrange(k as int, end as int));
    }
    let bits: u16 = match parse_acl_flags(s, start, k, acl_type) {
        Some(found) => found,
        None => {
            return Err(Error::syntax(start, SyntaxCause::IllegalAclFlags));
        },
    };
    let list: Vec<Ace> = match parse_aces(s, k, end, domain) {
        Ok(found) => found,
        Err(e) => {
            return Err(e);
        },
    };
    match Acl::total_size(&list) {
        Some(_) => {},
        None => {
            return Err(Error::syntax(k, SyntaxCause::AclTooLarge));
        },
    }
    let acl_revision: AclRevision = if any_object_ace(&list) {
        AclRevision::ACL_REVISION_DS
    } else {
        AclRevision::ACL_REVISION
    };
    Ok(Acl::new(acl_revision, acl_type, ControlFlags::from_bits(bits), list))
}

/// Reads an ACL from an SDDL text of one section.
pub fn parse_acl_sddl(value: &str, domain: Option<&[u32]>) -> (r: Result<Acl, Error>)
    ensures
        match r {
            Ok(acl) => acl_of_sddl(value@, domain_view(domain)) == Ok::<AclView, Failure>(acl@)
                && acl@.wf(),
            Err(e) => acl_of_sddl(value@, domain_view(domain)) == Err::<AclView, Failure>(e@) && (
            e matches Error::ParseError(at) ==> at.position == acl_sddl_error_position(
                value@,
                domain_view(domain),
            )),
        },
{
    let chars = chars_of(value);
    let s = chars.as_slice();
    assert(s@.subrange(0, s@.len() as int) =~= s@);
    let ghost p = split(s@, ':');
    let pieces = split_ranges(s, 0, s.len(), ':');
    if pieces.len() < 2 {
        return Err(Error::syntax(0, SyntaxCause::MissingSectionTag));
    }
    let first = pieces[0];
    let second = pieces[1];
    proof {
        lemma_range_start(s@, pieces@, p, 0, s@.len() as int, 1);
        assert(p[0] == s@.subrange(first.0 as int, first.1 as int));
        assert(p[1] == s@.subrange(second.0 as int, second.1 as int));
    }
    if first.1 - first.0 != 1 {
        return Err(Error::syntax(0, SyntaxCause::MissingSectionTag));
    }
    if pieces.len() > 2 {
        return Err(Error::syntax(second.1, SyntaxCause::UnexpectedSection));
    }
    let tag: char = s[first.0];
    assert(p[0][0] == tag);
    if tag == 'D' {
        parse_acl(s, second.0, second.1, AclType::DACL, domain)
    } else if tag == 'S' {
        parse_acl(s, second.0, second.1, AclType::SACL, domain)
    } else {
        Err(Error::syntax(0, SyntaxCause::UnexpectedSection))
    }
}

/// The parts of a descriptor that the sections read so far gave.
pub struct SectionParts {
    pub owner: Option<Sid>,
    pub group: Option<Sid>,
    pub dacl: Option<Acl>,
    pub sacl: Option<Acl>,
}

impl SectionParts {
    pub open spec fn view(&self) -> Sections {
        Sections {
            owner: optional_sid_view(self.owner),
            group: optional_sid_view(self.group),
            dacl: optional_acl_view(self.dacl),
            sacl: optional_acl_view(self.sacl),
        }
    }

    /// The parts with the content of one more section: the characters from
    /// `start` up to `end`, under the tag at `tag_at`.
    pub fn with_section(
        self,
        s: &[char],
        tag_at: usize,
        start: usize,
        end: usize,
        domain: Option<&[u32]>,
    ) -> (r: Result<SectionParts, Error>)
        requires
            tag_at < s@.len(),
            start <= end <= s@.len(),
        ensures
            match r {
                Ok(parts) => with_section(
                    self@,
                    s@[tag_at as int],
                    s@.subrange(start as int, end as int),
                    domain_view(domain),
                ) == Ok::<Sections, Failure>(parts@),
                Err(e) => with_section(
                    self@,
                    s@[tag_at as int],
                    s@.subrange(start as int, end as int),
                    domain_view(domain),
                ) == Err::<Sections, Failure>(e@) && (e matches Error::ParseError(at)
                    ==> at.position == with_section_error_position(
                    self@,
                    s@[tag_at as int],
                    s@.subrange(start as int, end as int),
                    tag_at as int,
                    start as int,
                    domain_view(domain),
                )),
            },
    {
        reveal(with_section);
        let tag: char = s[tag_at];
        let SectionParts { owner, group, dacl, sacl } = self;
        if tag == 'O' {
            if owner.is_some() {
                return Err(Error::syntax(tag_at, SyntaxCause::DuplicateSection));
            }
            match parse_sid(s, start, end, domain) {
                Ok(sid) => Ok(SectionParts { owner: Some(sid), group, dacl, sacl }),
                Err(e) => Err(e),
            }
        } else if tag == 'G' {
            if group.is_some() {
                return Err(Error::syntax(tag_at, SyntaxCause::DuplicateSection));
            }
            match parse_sid(s, start, end, domain) {
                Ok(sid) => Ok(SectionParts { owner, group: Some(sid), dacl, sacl }),
                Err(e) => Err(e),
            }
        } else if tag == 'D' {
            if dacl.is_some() {
                return Err(Error::syntax(tag_at, SyntaxCause::DuplicateSection));
            }
            match parse_acl(s, start, end, AclType::DACL, domain) {
                Ok(acl) => Ok(SectionParts { owner, group, dacl: Some(acl), sacl }),
                Err(e) => Err(e),
            }
        } else if tag == 'S' {
            if sacl.is_some() {
                return Err(Error::syntax(tag_at, SyntaxCause::DuplicateSection));
            }
            match parse_acl(s, start, end, AclType::SACL, domain) {
                Ok(acl) => Ok(SectionParts { owner, group, dacl, sacl: Some(acl) }),
                Err(e) => Err(e),
            }
        } else {
            Err(Error::syntax(tag_at, SyntaxCause::UnexpectedSection))
        }
    }
}

/// Reads section `i` of a descriptor, given the ranges of the pieces between
/// the colons.
#[verifier::rlimit(30)]
fn read_section(
    parts: SectionParts,
    s: &[char],
    pieces: &Vec<(usize, usize)>,
    i: usize,
    domain: Option<&[u32]>,
    Ghost(p): Ghost<Seq<Seq<char>>>,
) -> (r: Result<SectionParts, Error>)
    requires
        ranges_mark(s@, pieces@, p),
        ranges_follow(pieces@, 0, s@.len() as int),
        i + 1 < pieces@.len(),
    ensures
        match r {
            Ok(more) => section_step(p, parts@, i as int, domain_view(domain)) == Ok::<
                Sections,
                Failure,
            >(more@),
            Err(e) => section_step(p, parts@, i as int, domain_view(domain)) == Err::<
                Sections,
                Failure,
            >(e@) && (e matches Error::ParseError(at) ==> at.position
                == section_error_position(p, parts@, i as int, domain_view(domain))),
        },
{
    reveal(section_step);
    let n: usize = pieces.len();
    let head = pieces[i];
    let body = pieces[i + 1];
    proof {
        lemma_range_start(s@, pieces@, p, 0, s@.len() as int, i as int);
        lemma_range_start(s@, pieces@, p, 0, s@.len() as int, i + 1);
        assert(p[i as int] == s@.subrange(head.0 as int, head.1 as int));
        assert(p[i + 1] == s@.subrange(body.0 as int, body.1 as int));
    }
    if (i == 0 && head.1 - head.0 != 1) || (i > 0 && head.1 == head.0) {
        return Err(Error::syntax(head.0, SyntaxCause::MissingSectionTag));
    }
    let content_end: usize = if i + 2 == n {
        body.1
    } else if body.1 > body.0 {
        body.1 - 1
    } else {
        body.1
    };
    proof {
        assert(p[i as int][p[i as int].len() - 1] == s@[head.1 - 1]);
        assert(section_tag(p, i as int) == s@[head.1 - 1]);
        if i + 2 == n || body.1 == body.0 {
            assert(section_content(p, i as int) == s@.subrange(body.0 as int, content_end as int));
        } else {
            assert(p[i + 1].drop_last() =~= s@.subrange(body.0 as int, content_end as int));
        }
    }
    parts.with_section(s, head.1 - 1, body.0, content_end, domain)
}

/// Reads a descriptor from its SDDL text.
#[verifier::rlimit(30)]
pub fn parse_security_descriptor(value: &str, domain: Option<&[u32]>) -> (r: Result<
    SecurityDescriptor,
    Error,
>)
    ensures
        match r {
            Ok(sd) => security_descriptor_of_sddl(value@, domain_view(domain)) == Ok::<
                SecurityDescriptorView,
                Failure,
            >(sd@) && sd@.wf(),
            Err(e) => security_descriptor_of_sddl(value@, domain_view(domain)) == Err::<
                SecurityDescriptorView,
                Failure,
            >(e@) && (e matches Error::ParseError(at) ==> at.position
                == security_descriptor_error_position(value@, domain_view(domain))),
        },
{
    let chars = chars_of(value);
    let s = chars.as_slice();
    let ghost d = domain_view(domain);
    assert(s@.subrange(0, s@.len() as int) =~= s@);
    if s.len() == 0 {
        return Ok(SecurityDescriptor::new(None, None, None, None));
    }
    let ghost p = split(s@, ':');
    let pieces = split_ranges(s, 0, s.len(), ':');
    let n: usize = pieces.len();
    if n < 2 {
        return Err(Error::syntax(0, SyntaxCause::MissingSectionTag));
    }
    let mut parts = SectionParts { owner: None, group: None, dacl: None, sacl: None };
    let mut i: usize = 0;
    while i < n - 1
        invariant
            i <= n - 1,
            2 <= n == pieces@.len(),
            ranges_mark(s@, pieces@, p),
            ranges_follow(pieces@, 0, s@.len() as int),
            p == split(s@, ':'),
            s@ == value@,
            s@.len() > 0,
            d == domain_view(domain),
            sections_of_pieces(p, i as nat, d) == Ok::<Sections, Failure>(parts@),
        decreases n - 1 - i,
    {
        parts = match read_section(parts, s, &pieces, i, domain, Ghost(p)) {
            Ok(more) => {
                proof {
                    assert(sections_of_pieces(p, (i + 1) as nat, d) == Ok::<Sections, Failure>(
                        more@,
                    ));
                }
                more
            },
            Err(e) => {
                proof {
                    assert(sections_of_pieces(p, (i + 1) as nat, d) == Err::<Sections, Failure>(
                        e@,
                    ));
                    lemma_sections_fail(p, (i + 1) as nat, (n - 1) as nat, d);
                    lemma_sections_error_stays(p, (i + 1) as nat, (n - 1) as nat, d);
                }
                return Err(e);
            },
        };
        i += 1;
    }
    let SectionParts { owner, group, dacl, sacl } = parts;
    Ok(SecurityDescriptor::new(owner, group, dacl, sacl))
}

/// Reads SIDs from SDDL texts.
pub struct SidParser {}

impl SidParser {
    pub fn new() -> (r: SidParser) {
        SidParser {  }
    }

    /// The SID that the text stands for: its canonical text or an alias.
    pub fn parse(&self, domain_rid: Option<&[u32]>, value: &str) -> (r: Result<Sid, Error>)
        ensures
            match r {
                Ok(sid) => sid_of_sddl(value@, domain_view(domain_rid)) == Ok::<SidView, Failure>(
                    sid@,
                ) && sid@.wf(),
                Err(e) => sid_of_sddl(value@, domain_view(domain_rid)) == Err::<SidView, Failure>(
                    e@,
                ) && (e matches Error::ParseError(at) ==> at.position == 0),
            },
    {
        let chars = chars_of(value);
        assert(chars@.subrange(0, chars@.len() as int) =~= chars@);
        parse_sid(chars.as_slice(), 0, chars.len(), domain_rid)
    }
}

/// Reads rights from SDDL texts.
pub struct AccessMaskParser {}

impl AccessMaskParser {
    pub fn new() -> (r: AccessMaskParser) {
        AccessMaskParser {  }
    }

    /// The rights that the text stands for.
    pub fn parse(&self, domain_rid: Option<&[u32]>, value: &str) -> (r: Result<AccessMask, Error>)
        ensures
            match r {
                Ok(m) => rights_of_text(value@) == Some(m@),
                Err(e) => rights_of_text(value@) is None && e@ == Failure::Syntax(
                    SyntaxCause::IllegalAccessMask,
                ),
            },
    {
        AccessMask::try_from(value)
    }
}

/// Reads ACLs from SDDL texts.
pub struct AclParser {}

impl AclParser {
    pub fn new() -> (r: AclParser) {
        AclParser {  }
    }

    /// The ACL that the text of one section stands for.
    pub fn parse(&self, domain_rid: Option<&[u32]>, value: &str) -> (r: Result<Acl, Error>)
        ensures
            match r {
                Ok(acl) => acl_of_sddl(value@, domain_view(domain_rid)) == Ok::<AclView, Failure>(
                    acl@,
                ) && acl@.wf(),
                Err(e) => acl_of_sddl(value@, domain_view(domain_rid)) == Err::<AclView, Failure>(
                    e@,
                ) && (e matches Error::ParseError(at) ==> at.position == acl_sddl_error_position(
                    value@,
                    domain_view(domain_rid),
                )),
            },
    {
        parse_acl_sddl(value, domain_rid)
    }
}

/// Reads descriptors from SDDL texts.
pub struct SecurityDescriptorParser {}

impl SecurityDescriptorParser {
    pub fn new() -> (r: SecurityDescriptorParser) {
        SecurityDescriptorParser {  }
    }

    /// The descriptor that the text stands for.
    pub fn parse(&self, domain_rid: Option<&[u32]>, value: &str) -> (r: Result<
        SecurityDescriptor,
        Error,
    >)
        ensures
            match r {
                Ok(sd) => security_descriptor_of_sddl(value@, domain_view(domain_rid)) == Ok::<
                    SecurityDescriptorView,
                    Failure,
                >(sd@) && sd@.wf(),
                Err(e) => security_descriptor_of_sddl(value@, domain_view(domain_rid)) == Err::<
                    SecurityDescriptorView,
                    Failure,
                >(e@) && (e matches Error::ParseError(at) ==> at.position
                    == security_descriptor_error_position(value@, domain_view(domain_rid))),
            },
    {
        parse_security_descriptor(value, domain_rid)
    }
}

} // verus!
