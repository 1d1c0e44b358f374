//! Reading the SDDL text that the library writes gives back what was
//! written, for all that SDDL as written here can express.
use crate::access_mask::{
    is_hex_literal, rights_of_code, rights_of_codes, rights_of_text, AccessMask,
    ACCESS_SYSTEM_SECURITY, DELETE, FILE_ALL, FILE_EXECUTE, FILE_READ, FILE_WRITE, GENERIC_ALL,
    GENERIC_EXECUTE, GENERIC_READ, GENERIC_WRITE, KEY_ALL, KEY_EXECUTE, KEY_READ, KEY_WRITE,
    MAXIMUM_ALLOWED, READ_CONTROL, SYNCHRONIZE, WRITE_DACL, WRITE_OWNER,
};
use crate::ace_header::{
    ace_flag_of_code, ace_flags_of_text, AceHeaderFlags, CONTAINER_INHERIT_ACE, CRITICAL,
    FAILED_ACCESS_ACE_FLAG, INHERITED_ACE, INHERIT_ONLY_ACE, NO_PROPAGATE_INHERIT_ACE,
    OBJECT_INHERIT_ACE, SUCCESSFUL_ACCESS_ACE_FLAG,
};
use crate::ace::AceView;
use crate::acl::{aces_text, AclRevision, AclType, AclView};
use crate::control_flags::{
    code_if_one, null_acl_text, ControlFlags, DISCRETIONARY_ACL_AUTO_INHERITED,
    DISCRETIONARY_ACL_AUTO_INHERIT_REQUIRED, DISCRETIONARY_ACL_PROTECTED,
    SYSTEM_ACL_AUTO_INHERITED, SYSTEM_ACL_AUTO_INHERIT_REQUIRED, SYSTEM_ACL_PROTECTED,
};
use crate::ace_header::AceType;
use crate::error::{Failure, SyntaxCause};
use crate::parsed_ace_contents::{ace_of_parts, has_textual_form};
use crate::parser::{
    ace_of_text, ace_type_of_text, aces_of_pieces, aces_of_text, acl_flag_bits, acl_flags_of_text,
    acl_of_sddl, acl_of_text, has_object_ace, section_content, section_step, section_tag,
    sections_of_pieces, security_descriptor_of_sddl, sid_of_sddl, with_section, Sections,
};
use crate::security_descriptor::{
    flags_of_parts, optional_acl_text, optional_sid_text, SecurityDescriptorView,
};
use crate::sid::identifier_authority::{
    authority_bytes, authority_number, lemma_authority_bytes_number,
};
use crate::sid::sid_alias::{AliasTarget, SidAlias};
use crate::sid::{sub_authority_texts, SidView};
use crate::text::{
    code_if, free_of, is_digit, join, lemma_decimal_text, lemma_find_is, lemma_join_push,
    lemma_padded_decimal_text, lemma_split_join, split,
};
use vstd::prelude::*;

verus! {

/// A digit, a capital letter or `-`: the characters of SIDs, aliases and
/// codes.
pub open spec fn is_plain(c: char) -> bool {
    is_digit(c) || ('A' <= c && c <= 'Z') || c == '-'
}

pub open spec fn all_plain(s: Seq<char>) -> bool {
    forall|i: int| 0 <= i < s.len() ==> is_plain(#[trigger] s[i])
}

/// A plain text holds none of the characters that SDDL parts its texts at.
pub proof fn lemma_plain_free_of(s: Seq<char>)
    requires
        all_plain(s),
    ensures
        free_of(s, ';'),
        free_of(s, ':'),
        free_of(s, '('),
        free_of(s, ')'),
{
    assert forall|i: int| 0 <= i < s.len() implies #[trigger] s[i] != ';' && s[i] != ':' && s[i]
        != '(' && s[i] != ')' by {
        assert(is_plain(s[i]));
    }
}

pub proof fn lemma_plain_concat(a: Seq<char>, b: Seq<char>)
    requires
        all_plain(a),
        all_plain(b),
    ensures
        all_plain(a + b),
{
    assert forall|i: int| 0 <= i < (a + b).len() implies is_plain(#[trigger] (a + b)[i]) by {
        if i < a.len() {
            assert((a + b)[i] == a[i]);
        } else {
            assert((a + b)[i] == b[i - a.len()]);
        }
    }
}

/// A code of two capital letters, there or not, is a plain text of even
/// length.
pub proof fn lemma_code_if_plain(present: bool, a: char, b: char)
    requires
        'A' <= a && a <= 'Z',
        'A' <= b && b <= 'Z',
    ensures
        all_plain(code_if(present, a, b)),
        code_if(present, a, b).len() % 2 == 0,
{
}

/// One more code after a row of flag codes adds its flag.
pub proof fn lemma_ace_flags_push(t: Seq<char>, v: u8, present: bool, a: char, b: char, f: u8)
    requires
        t.len() % 2 == 0,
        ace_flags_of_text(t) == Some(v),
        ace_flag_of_code(a, b) == Some(f),
    ensures
        (t + code_if(present, a, b)).len() % 2 == 0,
        ace_flags_of_text(t + code_if(present, a, b)) == Some(
            if present {
                v | f
            } else {
                v
            },
        ),
{
    let s = t + code_if(present, a, b);
    if present {
        assert(s.take(s.len() - 2) =~= t);
        assert(s[s.len() - 2] == a && s[s.len() - 1] == b);
    } else {
        assert(s =~= t);
    }
}

/// One more code after a row of codes of rights adds its rights.
pub proof fn lemma_rights_push(t: Seq<char>, v: u32, present: bool, a: char, b: char, f: u32)
    requires
        t.len() % 2 == 0,
        rights_of_codes(t) == Some(v),
        rights_of_code(a, b) == Some(f),
    ensures
        (t + code_if(present, a, b)).len() % 2 == 0,
        rights_of_codes(t + code_if(present, a, b)) == Some(
            if present {
                v | f
            } else {
                v
            },
        ),
{
    let s = t + code_if(present, a, b);
    if present {
        assert(s.take(s.len() - 2) =~= t);
        assert(s[s.len() - 2] == a && s[s.len() - 1] == b);
    } else {
        assert(s =~= t);
    }
}

/// The flag where it is set in `bits`, and nothing otherwise.
pub open spec fn flag_in(bits: u8, flag: u8) -> u8 {
    if bits & flag == flag {
        flag
    } else {
        0
    }
}

/// Reading the flags of an entry as they are written gives the flags back,
/// whatever the flags are. The text is plain.
#[verifier::rlimit(30)]
pub proof fn lemma_ace_flags_text_round_trip(flags: AceHeaderFlags)
    ensures
        ace_flags_of_text(flags.sddl_text()) == Some(flags.bits),
        all_plain(flags.sddl_text()),
{
    let b = flags.bits;
    let t0 = Seq::<char>::empty();
    let c1 = code_if(flags.has(OBJECT_INHERIT_ACE), 'O', 'I');
    let t1 = c1;
    assert(t0 + c1 =~= t1);
    lemma_ace_flags_push(t0, 0, flags.has(OBJECT_INHERIT_ACE), 'O', 'I', OBJECT_INHERIT_ACE);
    let v1: u8 = 0 | flag_in(b, OBJECT_INHERIT_ACE);
    assert(ace_flags_of_text(t1) == Some(v1)) by {
        assert(0u8 | 0u8 == 0u8) by (bit_vector);
        assert(v1 == if flags.has(OBJECT_INHERIT_ACE) {
            0u8 | OBJECT_INHERIT_ACE
        } else {
            0u8
        });
    }
    let t2 = t1 + code_if(flags.has(CONTAINER_INHERIT_ACE), 'C', 'I');
    lemma_ace_flags_push(t1, v1, flags.has(CONTAINER_INHERIT_ACE), 'C', 'I', CONTAINER_INHERIT_ACE);
    let v2: u8 = v1 | flag_in(b, CONTAINER_INHERIT_ACE);
    lemma_or_zero(v1);
    let t3 = t2 + code_if(flags.has(NO_PROPAGATE_INHERIT_ACE), 'N', 'P');
    lemma_ace_flags_push(
        t2,
        v2,
        flags.has(NO_PROPAGATE_INHERIT_ACE),
        'N',
        'P',
        NO_PROPAGATE_INHERIT_ACE,
    );
    let v3: u8 = v2 | flag_in(b, NO_PROPAGATE_INHERIT_ACE);
    lemma_or_zero(v2);
    let t4 = t3 + code_if(flags.has(INHERIT_ONLY_ACE), 'I', 'O');
    lemma_ace_flags_push(t3, v3, flags.has(INHERIT_ONLY_ACE), 'I', 'O', INHERIT_ONLY_ACE);
    let v4: u8 = v3 | flag_in(b, INHERIT_ONLY_ACE);
    lemma_or_zero(v3);
    let t5 = t4 + code_if(flags.has(INHERITED_ACE), 'I', 'D');
    lemma_ace_flags_push(t4, v4, flags.has(INHERITED_ACE), 'I', 'D', INHERITED_ACE);
    let v5: u8 = v4 | flag_in(b, INHERITED_ACE);
    lemma_or_zero(v4);
    let t6 = t5 + code_if(flags.has(SUCCESSFUL_ACCESS_ACE_FLAG), 'S', 'A');
    lemma_ace_flags_push(
        t5,
        v5,
        flags.has(SUCCESSFUL_ACCESS_ACE_FLAG),
        'S',
        'A',
        SUCCESSFUL_ACCESS_ACE_FLAG,
    );
    let v6: u8 = v5 | flag_in(b, SUCCESSFUL_ACCESS_ACE_FLAG);
    lemma_or_zero(v5);
    let t7 = t6 + code_if(flags.has(FAILED_ACCESS_ACE_FLAG), 'F', 'A');
    lemma_ace_flags_push(t6, v6, flags.has(FAILED_ACCESS_ACE_FLAG), 'F', 'A', FAILED_ACCESS_ACE_FLAG);
    let v7: u8 = v6 | flag_in(b, FAILED_ACCESS_ACE_FLAG);
    lemma_or_zero(v6);
    let t8 = t7 + code_if(flags.has(CRITICAL), 'C', 'R');
    lemma_ace_flags_push(t7, v7, flags.has(CRITICAL), 'C', 'R', CRITICAL);
    let v8: u8 = v7 | flag_in(b, CRITICAL);
    lemma_or_zero(v7);
    assert(t8 == flags.sddl_text());
    assert(ace_flags_of_text(t8) == Some(v8));
    assert(v8 == b) by (bit_vector)
        requires
            v8 == (((((((0u8 | (if b & 0x01 == 0x01 {
                0x01u8
            } else {
                0u8
            })) | (if b & 0x02 == 0x02 {
                0x02u8
            } else {
                0u8
            })) | (if b & 0x04 == 0x04 {
                0x04u8
            } else {
                0u8
            })) | (if b & 0x08 == 0x08 {
                0x08u8
            } else {
                0u8
            })) | (if b & 0x10 == 0x10 {
                0x10u8
            } else {
                0u8
            })) | (if b & 0x40 == 0x40 {
                0x40u8
            } else {
                0u8
            })) | (if b & 0x80 == 0x80 {
                0x80u8
            } else {
                0u8
            })) | (if b & 0x20 == 0x20 {
                0x20u8
            } else {
                0u8
            }),
    ;
    // the text is plain
    lemma_code_if_plain(flags.has(OBJECT_INHERIT_ACE), 'O', 'I');
    lemma_code_if_plain(flags.has(CONTAINER_INHERIT_ACE), 'C', 'I');
    lemma_code_if_plain(flags.has(NO_PROPAGATE_INHERIT_ACE), 'N', 'P');
    lemma_code_if_plain(flags.has(INHERIT_ONLY_ACE), 'I', 'O');
    lemma_code_if_plain(flags.has(INHERITED_ACE), 'I', 'D');
    lemma_code_if_plain(flags.has(SUCCESSFUL_ACCESS_ACE_FLAG), 'S', 'A');
    lemma_code_if_plain(flags.has(FAILED_ACCESS_ACE_FLAG), 'F', 'A');
    lemma_code_if_plain(flags.has(CRITICAL), 'C', 'R');
    lemma_plain_concat(t1, code_if(flags.has(CONTAINER_INHERIT_ACE), 'C', 'I'));
    lemma_plain_concat(t2, code_if(flags.has(NO_PROPAGATE_INHERIT_ACE), 'N', 'P'));
    lemma_plain_concat(t3, code_if(flags.has(INHERIT_ONLY_ACE), 'I', 'O'));
    lemma_plain_concat(t4, code_if(flags.has(INHERITED_ACE), 'I', 'D'));
    lemma_plain_concat(t5, code_if(flags.has(SUCCESSFUL_ACCESS_ACE_FLAG), 'S', 'A'));
    lemma_plain_concat(t6, code_if(flags.has(FAILED_ACCESS_ACE_FLAG), 'F', 'A'));
    lemma_plain_concat(t7, code_if(flags.has(CRITICAL), 'C', 'R'));
}

proof fn lemma_or_zero(v: u8)
    by (bit_vector)
    ensures
        v | 0u8 == v,
{
}

proof fn lemma_or_zero_32(v: u32)
    by (bit_vector)
    ensures
        v | 0u32 == v,
        0u32 | v == v,
{
}

/// The rights where all of them are set in `bits`, and nothing otherwise.
pub open spec fn rights_in(bits: u32, rights: u32) -> u32 {
    if bits & rights == rights {
        rights
    } else {
        0
    }
}

/// The generic and standard rights, which have codes of their own in what
/// `sddl_string` writes.
pub const WRITTEN_RIGHTS: u32 = 0xb71f_0000;

/// Whether `sddl_string` writes all of the rights: they are one of the sets
/// of file or key rights, or generic and standard rights only.
pub open spec fn rights_have_text(bits: u32) -> bool {
    bits == FILE_ALL || bits == FILE_READ || bits == FILE_WRITE || bits == FILE_EXECUTE || bits
        == KEY_ALL || bits == KEY_READ || bits == KEY_WRITE || bits == KEY_EXECUTE || bits
        & WRITTEN_RIGHTS == bits
}

/// One code by itself stands for its rights.
proof fn lemma_one_code(a: char, b: char, f: u32)
    requires
        rights_of_code(a, b) == Some(f),
        a != '0',
    ensures
        rights_of_text(seq![a, b]) == Some(f),
        all_plain(seq![a, b]) <==> is_plain(a) && is_plain(b),
{
    let s = seq![a, b];
    assert(s.take(0) =~= Seq::<char>::empty());
    assert(s[0] == a && s[1] == b);
    lemma_or_zero_32(f);
    assert(rights_of_codes(s.take(0)) == Some(0u32));
    if is_plain(a) && is_plain(b) {
        assert forall|i: int| 0 <= i < s.len() implies is_plain(#[trigger] s[i]) by {}
    }
}

/// One more code of a right after a row of codes adds the right where it is
/// set.
proof fn lemma_rights_step(t: Seq<char>, v: u32, bits: u32, a: char, b: char, f: u32)
    requires
        t.len() % 2 == 0,
        rights_of_codes(t) == Some(v),
        rights_of_code(a, b) == Some(f),
    ensures
        (t + code_if(bits & f == f, a, b)).len() % 2 == 0,
        rights_of_codes(t + code_if(bits & f == f, a, b)) == Some(v | rights_in(bits, f)),
{
    lemma_rights_push(t, v, bits & f == f, a, b, f);
    lemma_or_zero_32(v);
}

/// Reading the generic and standard rights as they are written gives them
/// back.
#[verifier::rlimit(50)]
pub proof fn lemma_rights_text(mask: AccessMask)
    ensures
        rights_of_codes(mask.rights_text()) == Some(mask.bits & WRITTEN_RIGHTS),
        mask.rights_text().len() % 2 == 0,
{
    let b = mask.bits;
    let t0 = Seq::<char>::empty();
    let t1 = code_if(mask.has(GENERIC_READ), 'G', 'R');
    assert(t0 + t1 =~= t1);
    lemma_rights_step(t0, 0, b, 'G', 'R', GENERIC_READ);
    let v1: u32 = 0 | rights_in(b, GENERIC_READ);
    let t2 = t1 + code_if(mask.has(GENERIC_WRITE), 'G', 'W');
    lemma_rights_step(t1, v1, b, 'G', 'W', GENERIC_WRITE);
    let v2: u32 = v1 | rights_in(b, GENERIC_WRITE);
    let t3 = t2 + code_if(mask.has(GENERIC_EXECUTE), 'G', 'X');
    lemma_rights_step(t2, v2, b, 'G', 'X', GENERIC_EXECUTE);
    let v3: u32 = v2 | rights_in(b, GENERIC_EXECUTE);
    let t4 = t3 + code_if(mask.has(GENERIC_ALL), 'G', 'A');
    lemma_rights_step(t3, v3, b, 'G', 'A', GENERIC_ALL);
    let v4: u32 = v3 | rights_in(b, GENERIC_ALL);
    let t5 = t4 + code_if(mask.has(MAXIMUM_ALLOWED), 'M', 'A');
    lemma_rights_step(t4, v4, b, 'M', 'A', MAXIMUM_ALLOWED);
    let v5: u32 = v4 | rights_in(b, MAXIMUM_ALLOWED);
    let t6 = t5 + code_if(mask.has(ACCESS_SYSTEM_SECURITY), 'A', 'S');
    lemma_rights_step(t5, v5, b, 'A', 'S', ACCESS_SYSTEM_SECURITY);
    let v6: u32 = v5 | rights_in(b, ACCESS_SYSTEM_SECURITY);
    let t7 = t6 + code_if(mask.has(SYNCHRONIZE), 'S', 'Y');
    lemma_rights_step(t6, v6, b, 'S', 'Y', SYNCHRONIZE);
    let v7: u32 = v6 | rights_in(b, SYNCHRONIZE);
    let t8 = t7 + code_if(mask.has(WRITE_OWNER), 'W', 'O');
    lemma_rights_step(t7, v7, b, 'W', 'O', WRITE_OWNER);
    let v8: u32 = v7 | rights_in(b, WRITE_OWNER);
    let t9 = t8 + code_if(mask.has(WRITE_DACL), 'W', 'D');
    lemma_rights_step(t8, v8, b, 'W', 'D', WRITE_DACL);
    let v9: u32 = v8 | rights_in(b, WRITE_DACL);
    let t10 = t9 + code_if(mask.has(READ_CONTROL), 'R', 'C');
    lemma_rights_step(t9, v9, b, 'R', 'C', READ_CONTROL);
    let v10: u32 = v9 | rights_in(b, READ_CONTROL);
    let t11 = t10 + code_if(mask.has(DELETE), 'S', 'D');
    lemma_rights_step(t10, v10, b, 'S', 'D', DELETE);
    let v11: u32 = v10 | rights_in(b, DELETE);
    assert(t11 == mask.rights_text());
    lemma_written_rights(b, v11);
}

/// The generic and standard rights that are set, put together, are the
/// rights that are set among the generic and standard ones.
proof fn lemma_written_rights(b: u32, v: u32)
    by (bit_vector)
    requires
        v == ((((((((((0u32 | (if b & 0x8000_0000u32 == 0x8000_0000u32 {
            0x8000_0000u32
        } else {
            0u32
        })) | (if b & 0x0400_0000u32 == 0x0400_0000u32 {
            0x0400_0000u32
        } else {
            0u32
        })) | (if b & 0x2000_0000u32 == 0x2000_0000u32 {
            0x2000_0000u32
        } else {
            0u32
        })) | (if b & 0x1000_0000u32 == 0x1000_0000u32 {
            0x1000_0000u32
        } else {
            0u32
        })) | (if b & 0x0200_0000u32 == 0x0200_0000u32 {
            0x0200_0000u32
        } else {
            0u32
        })) | (if b & 0x0100_0000u32 == 0x0100_0000u32 {
            0x0100_0000u32
        } else {
            0u32
        })) | (if b & 0x0010_0000u32 == 0x0010_0000u32 {
            0x0010_0000u32
        } else {
            0u32
        })) | (if b & 0x0008_0000u32 == 0x0008_0000u32 {
            0x0008_0000u32
        } else {
            0u32
        })) | (if b & 0x0004_0000u32 == 0x0004_0000u32 {
            0x0004_0000u32
        } else {
            0u32
        })) | (if b & 0x0002_0000u32 == 0x0002_0000u32 {
            0x0002_0000u32
        } else {
            0u32
        })) | (if b & 0x0001_0000u32 == 0x0001_0000u32 {
            0x0001_0000u32
        } else {
            0u32
        }),
    ensures
        v == b & 0xb71f_0000u32,
{
}

pub open spec fn is_upper(c: char) -> bool {
    'A' <= c && c <= 'Z'
}

pub open spec fn all_upper(s: Seq<char>) -> bool {
    forall|i: int| 0 <= i < s.len() ==> is_upper(#[trigger] s[i])
}

proof fn lemma_upper_concat(a: Seq<char>, b: Seq<char>)
    requires
        all_upper(a),
        all_upper(b),
    ensures
        all_upper(a + b),
{
    assert forall|i: int| 0 <= i < (a + b).len() implies is_upper(#[trigger] (a + b)[i]) by {
        if i < a.len() {
            assert((a + b)[i] == a[i]);
        } else {
            assert((a + b)[i] == b[i - a.len()]);
        }
    }
}

proof fn lemma_code_if_upper(present: bool, a: char, b: char)
    requires
        is_upper(a),
        is_upper(b),
    ensures
        all_upper(code_if(present, a, b)),
{
}

proof fn lemma_rights_letters(mask: AccessMask)
    ensures
        all_upper(mask.rights_text()),
{
    let t1 = code_if(mask.has(GENERIC_READ), 'G', 'R');
    let t2 = t1 + code_if(mask.has(GENERIC_WRITE), 'G', 'W');
    let t3 = t2 + code_if(mask.has(GENERIC_EXECUTE), 'G', 'X');
    let t4 = t3 + code_if(mask.has(GENERIC_ALL), 'G', 'A');
    let t5 = t4 + code_if(mask.has(MAXIMUM_ALLOWED), 'M', 'A');
    let t6 = t5 + code_if(mask.has(ACCESS_SYSTEM_SECURITY), 'A', 'S');
    let t7 = t6 + code_if(mask.has(SYNCHRONIZE), 'S', 'Y');
    let t8 = t7 + code_if(mask.has(WRITE_OWNER), 'W', 'O');
    let t9 = t8 + code_if(mask.has(WRITE_DACL), 'W', 'D');
    let t10 = t9 + code_if(mask.has(READ_CONTROL), 'R', 'C');
    lemma_code_if_upper(mask.has(GENERIC_READ), 'G', 'R');
    lemma_code_if_upper(mask.has(GENERIC_WRITE), 'G', 'W');
    lemma_code_if_upper(mask.has(GENERIC_EXECUTE), 'G', 'X');
    lemma_code_if_upper(mask.has(GENERIC_ALL), 'G', 'A');
    lemma_code_if_upper(mask.has(MAXIMUM_ALLOWED), 'M', 'A');
    lemma_code_if_upper(mask.has(ACCESS_SYSTEM_SECURITY), 'A', 'S');
    lemma_code_if_upper(mask.has(SYNCHRONIZE), 'S', 'Y');
    lemma_code_if_upper(mask.has(WRITE_OWNER), 'W', 'O');
    lemma_code_if_upper(mask.has(WRITE_DACL), 'W', 'D');
    lemma_code_if_upper(mask.has(READ_CONTROL), 'R', 'C');
    lemma_code_if_upper(mask.has(DELETE), 'S', 'D');
    lemma_upper_concat(t1, code_if(mask.has(GENERIC_WRITE), 'G', 'W'));
    lemma_upper_concat(t2, code_if(mask.has(GENERIC_EXECUTE), 'G', 'X'));
    lemma_upper_concat(t3, code_if(mask.has(GENERIC_ALL), 'G', 'A'));
    lemma_upper_concat(t4, code_if(mask.has(MAXIMUM_ALLOWED), 'M', 'A'));
    lemma_upper_concat(t5, code_if(mask.has(ACCESS_SYSTEM_SECURITY), 'A', 'S'));
    lemma_upper_concat(t6, code_if(mask.has(SYNCHRONIZE), 'S', 'Y'));
    lemma_upper_concat(t7, code_if(mask.has(WRITE_OWNER), 'W', 'O'));
    lemma_upper_concat(t8, code_if(mask.has(WRITE_DACL), 'W', 'D'));
    lemma_upper_concat(t9, code_if(mask.has(READ_CONTROL), 'R', 'C'));
    lemma_upper_concat(t10, code_if(mask.has(DELETE), 'S', 'D'));
}

/// Reading rights as they are written gives the rights back, where all of
/// them are written: for the sets of file and key rights, and for generic and
/// standard rights. The text is plain.
pub proof fn lemma_rights_text_round_trip(mask: AccessMask)
    requires
        rights_have_text(mask.bits),
    ensures
        rights_of_text(mask.sddl_text()) == Some(mask.bits),
        all_plain(mask.sddl_text()),
{
    let b = mask.bits;
    if b == FILE_ALL {
        lemma_one_code('F', 'A', FILE_ALL);
    } else if b == FILE_READ {
        lemma_one_code('F', 'R', FILE_READ);
    } else if b == FILE_WRITE {
        lemma_one_code('F', 'W', FILE_WRITE);
    } else if b == FILE_EXECUTE {
        lemma_one_code('F', 'X', FILE_EXECUTE);
    } else if b == KEY_ALL {
        lemma_one_code('K', 'A', KEY_ALL);
    } else if b == KEY_READ {
        lemma_one_code('K', 'R', KEY_READ);
    } else if b == KEY_WRITE {
        lemma_one_code('K', 'W', KEY_WRITE);
    } else {
        lemma_rights_text(mask);
        lemma_rights_letters(mask);
        let t = mask.rights_text();
        assert(mask.sddl_text() == t);
        if t.len() > 0 {
            assert(is_upper(t[0]));
        }
        assert(!is_hex_literal(t));
        assert forall|i: int| 0 <= i < t.len() implies is_plain(#[trigger] t[i]) by {
            assert(is_upper(t[i]));
        }
    }
}

/// Plain pieces joined with `-` are a plain text, at least as long as the
/// pieces are many.
pub proof fn lemma_join_plain(parts: Seq<Seq<char>>)
    requires
        forall|i: int| 0 <= i < parts.len() ==> all_plain(#[trigger] parts[i]),
    ensures
        all_plain(join(parts, '-')),
        join(parts, '-').len() + 1 >= parts.len(),
    decreases parts.len(),
{
    if parts.len() == 1 {
        assert(all_plain(parts[0]));
    } else if parts.len() > 1 {
        let rest = parts.drop_first();
        assert forall|i: int| 0 <= i < rest.len() implies all_plain(#[trigger] rest[i]) by {
            assert(rest[i] == parts[i + 1]);
        }
        lemma_join_plain(rest);
        assert(all_plain(parts[0]));
        assert(all_plain(seq!['-'])) by {
            assert forall|i: int| 0 <= i < seq!['-'].len() implies is_plain(
                #[trigger] seq!['-'][i],
            ) by {}
        }
        lemma_plain_concat(parts[0], seq!['-']);
        lemma_plain_concat(parts[0] + seq!['-'], join(rest, '-'));
    }
}

/// The canonical text of a SID is plain and longer than an alias.
pub proof fn lemma_sid_text_plain(v: SidView)
    requires
        v.wf(),
    ensures
        all_plain(v.text()),
        v.text().len() >= 5,
{
    let fields = v.text_fields();
    let number = authority_number(v.authority);
    lemma_decimal_text(number);
    assert forall|i: int| 0 <= i < fields.len() implies all_plain(#[trigger] fields[i]) by {
        let f = fields[i];
        if i == 0 {
            assert forall|j: int| 0 <= j < f.len() implies is_plain(#[trigger] f[j]) by {}
        } else if i == 1 {
            assert forall|j: int| 0 <= j < f.len() implies is_plain(#[trigger] f[j]) by {
                assert(is_digit(f[j]));
            }
        } else if v.sub_authority.len() > 0 {
            let n = v.sub_authority[i - 2] as nat;
            lemma_decimal_text(n);
            lemma_padded_decimal_text(n, 9);
            assert(f == sub_authority_texts(v.sub_authority)[i - 2]);
            assert forall|j: int| 0 <= j < f.len() implies is_plain(#[trigger] f[j]) by {
                assert(is_digit(f[j]));
            }
        }
    }
    lemma_join_plain(fields);
    let head = seq!['S', '-'];
    assert(all_plain(head)) by {
        assert forall|j: int| 0 <= j < head.len() implies is_plain(#[trigger] head[j]) by {}
    }
    lemma_plain_concat(head, join(fields, '-'));
    assert(fields.len() >= 3);
    assert(join(fields, '-').len() >= 3) by {
        lemma_join_len(fields);
    }
}

/// Three pieces or more, the first two not empty, join to three characters
/// or more.
proof fn lemma_join_len(parts: Seq<Seq<char>>)
    requires
        parts.len() >= 3,
        parts[0].len() >= 1,
        parts[1].len() >= 1,
    ensures
        join(parts, '-').len() >= 3,
{
    let rest = parts.drop_first();
    assert(rest[0] == parts[1]);
    let rest2 = rest.drop_first();
    assert(join(rest, '-') == rest[0] + seq!['-'] + join(rest2, '-'));
    assert(join(parts, '-') == parts[0] + seq!['-'] + join(rest, '-'));
}

/// What the alias of a SID says of the SID: the alias stands for the
/// authority and the sub-authorities of the SID, or, where it is the alias of
/// an account or group of a domain, for the last sub-authority after the 21 and
/// the sub-authorities of some domain.
pub proof fn lemma_alias_meaning(v: SidView)
    requires
        v.wf(),
    ensures
        v.alias() matches Some(a) ==> match a.target() {
            AliasTarget::WellKnown { authority, sub_authority } => v.authority == authority_bytes(
                authority as nat,
            ) && v.sub_authority == sub_authority,
            AliasTarget::Builtin { rid } => v.authority == authority_bytes(5) && v.sub_authority
                == seq![32u32, rid],
            AliasTarget::Domain { rid } => v.authority == authority_bytes(5)
                && v.sub_authority.len() >= 2 && v.sub_authority[0] == 21
                && v.sub_authority.last() == rid,
            AliasTarget::Unresolved => false,
        },
{
    lemma_authority_bytes_number(v.authority);
    let s = v.sub_authority;
    match v.alias() {
        Some(a) => {
            match a.target() {
                AliasTarget::WellKnown { authority, sub_authority } => {
                    assert(s =~= sub_authority);
                },
                AliasTarget::Builtin { rid } => {
                    assert(s =~= seq![32u32, rid]);
                },
                AliasTarget::Domain { rid } => {},
                AliasTarget::Unresolved => {},
            }
        },
        None => {},
    }
}

/// The sub-authorities of the domain of a SID: those between the first and
/// the last.
pub open spec fn domain_of(v: SidView) -> Seq<u32> {
    v.sub_authority.subrange(1, v.sub_authority.len() - 1)
}

/// Whether reading what is written of a SID gives the SID back: it has one
/// sub-authority or more, and where it is written by the alias of an account or
/// group of a domain, the domain at hand is its domain.
pub open spec fn sid_has_text(v: SidView, domain: Option<Seq<u32>>) -> bool {
    &&& v.wf()
    &&& v.sub_authority.len() >= 1
    &&& (v.alias() matches Some(a) ==> (a.target() is Domain ==> domain == Some(domain_of(v))))
}

/// Reading a SID as SDDL writes it gives the SID back. The text is plain.
pub proof fn lemma_sid_sddl_round_trip(v: SidView, domain: Option<Seq<u32>>)
    requires
        sid_has_text(v, domain),
    ensures
        sid_of_sddl(v.sddl_text(), domain) == Ok::<SidView, Failure>(v),
        all_plain(v.sddl_text()),
        v.sddl_text().len() >= 2,
{
    match v.alias() {
        Some(a) => {
            let t = seq![a.letters().0, a.letters().1];
            assert(t[0] == a.letters().0 && t[1] == a.letters().1);
            crate::laws::lemma_letters_name_alias(a);
            lemma_alias_meaning(v);
            lemma_alias_letters_upper(a);
            assert forall|j: int| 0 <= j < t.len() implies is_plain(#[trigger] t[j]) by {}
            match a.target() {
                AliasTarget::Domain { rid } => {
                    let d = domain_of(v);
                    assert(seq![21u32] + d + seq![rid] =~= v.sub_authority);
                },
                _ => {},
            }
        },
        None => {
            lemma_sid_text_plain(v);
            crate::laws::lemma_sid_text_round_trip(v);
        },
    }
}

/// The letters of an alias are capital letters.
pub proof fn lemma_alias_letters_upper(a: SidAlias)
    ensures
        is_upper(a.letters().0),
        is_upper(a.letters().1),
{
}

/// Whether reading what is written of an entry gives the entry back: the
/// entry is of a kind that has a textual form, holds neither object types nor
/// application data, and its rights and its trustee are written in full.
pub open spec fn ace_has_text(v: AceView, domain: Option<Seq<u32>>) -> bool {
    &&& v.wf()
    &&& has_textual_form(v.ace_type)
    &&& v.object_type is None
    &&& v.inherited_object_type is None
    &&& v.application_data.len() == 0
    &&& rights_have_text(v.header.mask.bits)
    &&& sid_has_text(v.sid, domain)
}

/// A plain character or `;`: the characters of an entry.
pub open spec fn is_entry_char(c: char) -> bool {
    is_plain(c) || c == ';'
}

pub open spec fn all_entry_chars(s: Seq<char>) -> bool {
    forall|i: int| 0 <= i < s.len() ==> is_entry_char(#[trigger] s[i])
}

pub proof fn lemma_entry_concat(a: Seq<char>, b: Seq<char>)
    requires
        all_entry_chars(a),
        all_entry_chars(b),
    ensures
        all_entry_chars(a + b),
{
    assert forall|i: int| 0 <= i < (a + b).len() implies is_entry_char(#[trigger] (a + b)[i]) by {
        if i < a.len() {
            assert((a + b)[i] == a[i]);
        } else {
            assert((a + b)[i] == b[i - a.len()]);
        }
    }
}

pub proof fn lemma_plain_is_entry(s: Seq<char>)
    requires
        all_plain(s),
    ensures
        all_entry_chars(s),
{
    assert forall|i: int| 0 <= i < s.len() implies is_entry_char(#[trigger] s[i]) by {
        assert(is_plain(s[i]));
    }
}

/// The text of an entry holds neither brackets nor `:`.
pub proof fn lemma_entry_free_of(s: Seq<char>)
    requires
        all_entry_chars(s),
    ensures
        free_of(s, ':'),
        free_of(s, '('),
        free_of(s, ')'),
{
    assert forall|i: int| 0 <= i < s.len() implies #[trigger] s[i] != ':' && s[i] != '(' && s[i]
        != ')' by {
        assert(is_entry_char(s[i]));
    }
}

/// The letters of a kind of entry that has a textual form stand for the
/// kind, and are plain.
pub proof fn lemma_ace_type_text(v: AceView)
    requires
        has_textual_form(v.ace_type),
    ensures
        ace_type_of_text(v.type_text()) == Ok::<AceType, SyntaxCause>(v.ace_type),
        all_plain(v.type_text()),
{
    let t = v.type_text();
    assert(t.len() >= 1);
    assert(seq!['A'].len() == 1 && seq!['D'].len() == 1);
    assert(seq!['A'][0] == 'A' && seq!['D'][0] == 'D');
    if t.len() == 2 {
        let a = t[0];
        let b = t[1];
        assert(t =~= seq![a, b]);
        lemma_pair_differs(a, b, 'A', 'U');
        lemma_pair_differs(a, b, 'O', 'A');
        lemma_pair_differs(a, b, 'O', 'D');
        lemma_pair_differs(a, b, 'O', 'U');
        lemma_pair_differs(a, b, 'M', 'L');
        lemma_pair_differs(a, b, 'S', 'P');
    }
    assert forall|i: int| 0 <= i < t.len() implies is_plain(#[trigger] t[i]) by {}
}

/// Two texts of two characters are the same only if their characters are.
proof fn lemma_pair_differs(a: char, b: char, c: char, d: char)
    ensures
        (seq![a, b] == seq![c, d]) <==> (a == c && b == d),
{
    let x = seq![a, b];
    let y = seq![c, d];
    assert(x[0] == a && x[1] == b && y[0] == c && y[1] == d);
    if a == c && b == d {
        assert(x =~= y);
    }
}

/// The six fields of an entry as they are written.
pub open spec fn ace_text_fields(v: AceView) -> Seq<Seq<char>> {
    seq![
        v.type_text(),
        v.header.ace_flags.sddl_text(),
        v.header.mask.sddl_text(),
        Seq::<char>::empty(),
        Seq::<char>::empty(),
        v.sid.sddl_text(),
    ]
}

/// What is written of an entry is its six fields with `;` between them.
pub proof fn lemma_ace_text_is_join(v: AceView)
    ensures
        v.sddl_text() == join(ace_text_fields(v), ';'),
{
    let f = ace_text_fields(v);
    let e = Seq::<char>::empty();
    let at1 = seq![f[0]];
    let at2 = at1.push(f[1]);
    let at3 = at2.push(f[2]);
    let at4 = at3.push(e);
    let at5 = at4.push(e);
    let at6 = at5.push(f[5]);
    assert(at6 =~= f);
    assert(join(at1, ';') == f[0]);
    lemma_join_push(at1, f[1], ';');
    lemma_join_push(at2, f[2], ';');
    lemma_join_push(at3, e, ';');
    lemma_join_push(at4, e, ';');
    lemma_join_push(at5, f[5], ';');
    assert(join(at6, ';') =~= v.sddl_text());
}

/// Reading an entry as SDDL writes it gives the entry back. The text holds
/// neither brackets nor `:`.
#[verifier::rlimit(30)]
pub proof fn lemma_ace_text_round_trip(v: AceView, domain: Option<Seq<u32>>)
    requires
        ace_has_text(v, domain),
    ensures
        ace_of_text(v.sddl_text(), domain) == Ok::<AceView, Failure>(v),
        all_entry_chars(v.sddl_text()),
{
    let f = ace_text_fields(v);
    lemma_ace_text_is_join(v);
    lemma_ace_type_text(v);
    lemma_ace_flags_text_round_trip(v.header.ace_flags);
    lemma_rights_text_round_trip(v.header.mask);
    lemma_sid_sddl_round_trip(v.sid, domain);
    assert forall|i: int| 0 <= i < f.len() implies all_plain(#[trigger] f[i]) by {}
    assert forall|i: int| 0 <= i < f.len() implies free_of(#[trigger] f[i], ';') by {
        assert(all_plain(f[i]));
        lemma_plain_semicolon_free(f[i]);
    }
    lemma_split_join(f, ';');
    assert(split(v.sddl_text(), ';') == f);
    let read = ace_of_parts(
        v.ace_type,
        v.header.ace_flags,
        v.header.mask,
        None,
        None,
        v.sid,
    );
    assert(read.application_data =~= v.application_data);
    assert(read.header == v.header);
    assert(read == v);
    // the characters
    lemma_entry_fields(f);
}

proof fn lemma_plain_semicolon_free(s: Seq<char>)
    requires
        all_plain(s),
    ensures
        free_of(s, ';'),
{
    lemma_plain_free_of(s);
}

/// Plain fields with `;` between them are a text of the characters of
/// entries.
proof fn lemma_entry_fields(f: Seq<Seq<char>>)
    requires
        forall|i: int| 0 <= i < f.len() ==> all_plain(#[trigger] f[i]),
    ensures
        all_entry_chars(join(f, ';')),
    decreases f.len(),
{
    if f.len() == 1 {
        lemma_plain_is_entry(f[0]);
    } else if f.len() > 1 {
        let rest = f.drop_first();
        assert forall|i: int| 0 <= i < rest.len() implies all_plain(#[trigger] rest[i]) by {
            assert(rest[i] == f[i + 1]);
        }
        lemma_entry_fields(rest);
        lemma_plain_is_entry(f[0]);
        assert(all_entry_chars(seq![';'])) by {
            assert forall|i: int| 0 <= i < seq![';'].len() implies is_entry_char(
                #[trigger] seq![';'][i],
            ) by {}
        }
        lemma_entry_concat(f[0], seq![';']);
        lemma_entry_concat(f[0] + seq![';'], join(rest, ';'));
    }
}

/// The control flags that say of an ACL of the given kind what `P`, `AR`
/// and `AI` say: those among `flags` that belong to that kind.
pub open spec fn written_acl_flags(flags: ControlFlags, acl_type: AclType) -> u16 {
    match acl_type {
        AclType::SACL => acl_flag_bits(
            acl_type,
            flags.has(SYSTEM_ACL_PROTECTED),
            flags.has(SYSTEM_ACL_AUTO_INHERIT_REQUIRED),
            flags.has(SYSTEM_ACL_AUTO_INHERITED),
        ),
        AclType::DACL => acl_flag_bits(
            acl_type,
            flags.has(DISCRETIONARY_ACL_PROTECTED),
            flags.has(DISCRETIONARY_ACL_AUTO_INHERIT_REQUIRED),
            flags.has(DISCRETIONARY_ACL_AUTO_INHERITED),
        ),
    }
}

/// Reading the three flags of an ACL that may be there gives them back.
proof fn lemma_acl_flags_of_three(acl_type: AclType, p: bool, r: bool, i: bool)
    ensures
        acl_flags_of_text(code_if_one(p, 'P') + code_if(r, 'A', 'R') + code_if(i, 'A', 'I'), acl_type)
            == Some(acl_flag_bits(acl_type, p, r, i)),
        all_plain(code_if_one(p, 'P') + code_if(r, 'A', 'R') + code_if(i, 'A', 'I')),
{
    let c1 = code_if_one(p, 'P');
    let c2 = code_if(r, 'A', 'R');
    let c3 = code_if(i, 'A', 'I');
    let s = c1 + c2 + c3;
    assert(s.len() <= 5);
    assert(null_acl_text().len() == 17);
    assert(s != null_acl_text());
    let s1 = if p {
        s.skip(1)
    } else {
        s
    };
    assert(s1 =~= c2 + c3);
    if p {
        assert(s[0] == 'P');
    } else if s.len() >= 1 {
        assert(s[0] == 'A');
    }
    let s2 = if r {
        s1.skip(2)
    } else {
        s1
    };
    assert(s2 =~= c3);
    if r {
        assert(s1[0] == 'A' && s1[1] == 'R');
    } else if s1.len() >= 2 {
        assert(s1[1] == 'I');
    }
    let s3 = if i {
        s2.skip(2)
    } else {
        s2
    };
    if i {
        assert(s2[0] == 'A' && s2[1] == 'I');
    }
    assert(s3 =~= Seq::<char>::empty());
    assert forall|j: int| 0 <= j < s.len() implies is_plain(#[trigger] s[j]) by {
        if j < c1.len() {
            assert(s[j] == c1[j]);
        } else if j < c1.len() + c2.len() {
            assert(s[j] == c2[j - c1.len()]);
        } else {
            assert(s[j] == c3[j - c1.len() - c2.len()]);
        }
    }
}

/// Reading the flags of an ACL as a descriptor writes them gives the flags
/// of the descriptor that belong to that ACL. The text is plain.
pub proof fn lemma_acl_flags_text_round_trip(flags: ControlFlags, acl_type: AclType)
    ensures
        acl_flags_of_text(flags.acl_flags_text(acl_type), acl_type) == Some(
            written_acl_flags(flags, acl_type),
        ),
        all_plain(flags.acl_flags_text(acl_type)),
{
    match acl_type {
        AclType::SACL => {
            lemma_acl_flags_of_three(
                acl_type,
                flags.has(SYSTEM_ACL_PROTECTED),
                flags.has(SYSTEM_ACL_AUTO_INHERIT_REQUIRED),
                flags.has(SYSTEM_ACL_AUTO_INHERITED),
            );
        },
        AclType::DACL => {
            lemma_acl_flags_of_three(
                acl_type,
                flags.has(DISCRETIONARY_ACL_PROTECTED),
                flags.has(DISCRETIONARY_ACL_AUTO_INHERIT_REQUIRED),
                flags.has(DISCRETIONARY_ACL_AUTO_INHERITED),
            );
        },
    }
}

pub open spec fn all_aces_have_text(l: Seq<AceView>, domain: Option<Seq<u32>>) -> bool {
    forall|i: int| 0 <= i < l.len() ==> ace_has_text(#[trigger] l[i], domain)
}

/// The entries as they are written, each with its opening bracket.
pub open spec fn ace_pieces(l: Seq<AceView>) -> Seq<Seq<char>> {
    Seq::new(l.len(), |i: int| seq!['('] + l[i].sddl_text())
}

/// What is written of one entry or more is the entries, each with its
/// opening bracket, and an empty text, with `)` between them.
pub proof fn lemma_aces_text_is_join(l: Seq<AceView>)
    requires
        l.len() >= 1,
    ensures
        aces_text(l) == join(ace_pieces(l).push(Seq::<char>::empty()), ')'),
        aces_text(l).len() >= 1,
        aces_text(l)[0] == '(',
    decreases l.len(),
{
    let e = Seq::<char>::empty();
    let p = ace_pieces(l);
    let last = p.last();
    assert(last == seq!['('] + l.last().sddl_text());
    lemma_join_push(p, e, ')');
    if l.len() == 1 {
        assert(l.drop_last() =~= Seq::<AceView>::empty());
        assert(aces_text(l.drop_last()) =~= e);
        assert(p =~= seq![last]);
        assert(join(p, ')') == last);
        assert(aces_text(l) =~= last + seq![')']);
        assert(aces_text(l)[0] == last[0]);
    } else {
        let head = l.drop_last();
        let q = ace_pieces(head);
        lemma_aces_text_is_join(head);
        lemma_join_push(q, e, ')');
        assert(p =~= q.push(last));
        lemma_join_push(q, last, ')');
        assert(aces_text(l) =~= join(p, ')') + seq![')'] + e);
        assert(aces_text(l)[0] == aces_text(head)[0]);
    }
}

/// Reading the entries that the pieces hold gives the entries back.
pub proof fn lemma_aces_of_pieces(l: Seq<AceView>, domain: Option<Seq<u32>>)
    requires
        all_aces_have_text(l, domain),
    ensures
        aces_of_pieces(ace_pieces(l), domain) == Ok::<Seq<AceView>, Failure>(l),
    decreases l.len(),
{
    let p = ace_pieces(l);
    if l.len() == 0 {
        assert(l =~= Seq::<AceView>::empty());
    } else {
        let head = l.drop_last();
        assert forall|i: int| 0 <= i < head.len() implies ace_has_text(#[trigger] head[i], domain) by {
            assert(head[i] == l[i]);
        }
        lemma_aces_of_pieces(head, domain);
        assert(p.drop_last() =~= ace_pieces(head));
        let x = p.last();
        let t = l.last().sddl_text();
        assert(x == seq!['('] + t);
        assert(x[0] == '(');
        assert(x.skip(1) =~= t);
        assert(ace_has_text(l.last(), domain));
        lemma_ace_text_round_trip(l.last(), domain);
        assert(head.push(l.last()) =~= l);
    }
}

/// Reading entries as they are written gives the entries back. The text is
/// empty or begins with a bracket, and holds no `:`.
pub proof fn lemma_aces_text_round_trip(l: Seq<AceView>, domain: Option<Seq<u32>>)
    requires
        all_aces_have_text(l, domain),
    ensures
        aces_of_text(aces_text(l), domain) == Ok::<Seq<AceView>, Failure>(l),
        l.len() == 0 ==> aces_text(l).len() == 0,
        l.len() > 0 ==> aces_text(l).len() > 0 && aces_text(l)[0] == '(',
        free_of(aces_text(l), ':'),
{
    let e = Seq::<char>::empty();
    if l.len() == 0 {
        assert(l =~= Seq::<AceView>::empty());
    } else {
        let p = ace_pieces(l);
        let all = p.push(e);
        lemma_aces_text_is_join(l);
        assert forall|i: int| 0 <= i < all.len() implies free_of(#[trigger] all[i], ')')
            && free_of(all[i], ':') by {
            if i < p.len() {
                lemma_ace_text_round_trip(l[i], domain);
                lemma_entry_free_of(l[i].sddl_text());
                let x = all[i];
                let t = l[i].sddl_text();
                assert(x == seq!['('] + t);
                assert forall|j: int| 0 <= j < x.len() implies #[trigger] x[j] != ')' && x[j]
                    != ':' by {
                    if j > 0 {
                        assert(x[j] == t[j - 1]);
                    }
                }
            }
        }
        lemma_split_join(all, ')');
        assert(all.last() == e);
        assert(all.drop_last() =~= p);
        lemma_aces_of_pieces(l, domain);
        lemma_join_free_of(all, ')', ':');
    }
}

/// A text of pieces without a character, joined by another character, is
/// without the first.
pub proof fn lemma_join_free_of(parts: Seq<Seq<char>>, sep: char, c: char)
    requires
        sep != c,
        forall|i: int| 0 <= i < parts.len() ==> free_of(#[trigger] parts[i], c),
    ensures
        free_of(join(parts, sep), c),
    decreases parts.len(),
{
    if parts.len() == 1 {
        assert(free_of(parts[0], c));
    } else if parts.len() > 1 {
        let rest = parts.drop_first();
        assert forall|i: int| 0 <= i < rest.len() implies free_of(#[trigger] rest[i], c) by {
            assert(rest[i] == parts[i + 1]);
        }
        lemma_join_free_of(rest, sep, c);
        assert(free_of(parts[0], c));
        let s = join(parts, sep);
        let head = parts[0] + seq![sep];
        assert(s == head + join(rest, sep));
        assert forall|i: int| 0 <= i < s.len() implies #[trigger] s[i] != c by {
            if i < parts[0].len() {
                assert(s[i] == parts[0][i]);
            } else if i == parts[0].len() {
                assert(s[i] == sep);
            } else {
                assert(s[i] == join(rest, sep)[i - head.len()]);
            }
        }
    }
}

/// Whether reading what is written of an ACL gives the ACL back: each entry
/// is written in full, and the revision is that for directory service objects
/// exactly where an entry is object-specific.
pub open spec fn acl_has_text(a: AclView, domain: Option<Seq<u32>>) -> bool {
    &&& a.wf()
    &&& all_aces_have_text(a.ace_list, domain)
    &&& a.acl_revision == if has_object_ace(a.ace_list) {
        AclRevision::ACL_REVISION_DS
    } else {
        AclRevision::ACL_REVISION
    }
}

/// The ACL in the context that reading it from the text of a descriptor with
/// the given flags gives it.
pub open spec fn acl_as_read(a: AclView, flags: ControlFlags, acl_type: AclType) -> AclView {
    AclView {
        acl_type,
        control_flags: ControlFlags { bits: written_acl_flags(flags, acl_type) },
        ..a
    }
}

/// The content of the section of an ACL as a descriptor with the given flags
/// writes it: the flags of the ACL and the entries.
pub open spec fn acl_content(a: AclView, flags: ControlFlags, acl_type: AclType) -> Seq<char> {
    flags.acl_flags_text(acl_type) + aces_text(a.ace_list)
}

/// Reading flags and entries of an ACL gives the ACL back, in the context
/// of the flags that were read, where the text of the flags reads as flags and
/// holds neither a bracket nor `:`. The text holds no `:`.
proof fn lemma_acl_of_flags_and_aces(
    a: AclView,
    flags_text: Seq<char>,
    bits: u16,
    acl_type: AclType,
    domain: Option<Seq<u32>>,
)
    requires
        acl_has_text(a, domain),
        acl_flags_of_text(flags_text, acl_type) == Some(bits),
        free_of(flags_text, '('),
        free_of(flags_text, ':'),
    ensures
        acl_of_text(flags_text + aces_text(a.ace_list), acl_type, domain) == Ok::<AclView, Failure>(
            AclView { acl_type, control_flags: ControlFlags { bits }, ..a },
        ),
        free_of(flags_text + aces_text(a.ace_list), ':'),
{
    let ft = flags_text;
    let at = aces_text(a.ace_list);
    let s = ft + at;
    lemma_aces_text_round_trip(a.ace_list, domain);
    let k = ft.len() as int;
    assert forall|i: int| 0 <= i < k implies #[trigger] s[i] != '(' by {
        assert(s[i] == ft[i]);
    }
    if k < s.len() {
        assert(s[k] == at[0]);
    }
    lemma_find_is(s, '(', k);
    assert(s.take(k) =~= ft);
    assert(s.skip(k) =~= at);
    assert forall|i: int| 0 <= i < s.len() implies #[trigger] s[i] != ':' by {
        if i < k {
            assert(s[i] == ft[i]);
        } else {
            assert(s[i] == at[i - k]);
        }
    }
}

/// Reading the content of the section of an ACL as a descriptor writes it
/// gives the ACL back, in the context of the flags that were written. The
/// content holds no `:`.
pub proof fn lemma_acl_text_round_trip(
    a: AclView,
    flags: ControlFlags,
    acl_type: AclType,
    domain: Option<Seq<u32>>,
)
    requires
        acl_has_text(a, domain),
    ensures
        acl_of_text(acl_content(a, flags, acl_type), acl_type, domain) == Ok::<AclView, Failure>(
            acl_as_read(a, flags, acl_type),
        ),
        free_of(acl_content(a, flags, acl_type), ':'),
{
    let ft = flags.acl_flags_text(acl_type);
    lemma_acl_flags_text_round_trip(flags, acl_type);
    lemma_plain_free_of(ft);
    lemma_acl_of_flags_and_aces(a, ft, written_acl_flags(flags, acl_type), acl_type, domain);
}

/// The ACL in the context that reading it from what `sddl_string` writes of
/// it gives it: of its own kind, and with those of its control flags that
/// `P`, `AR` and `AI` stand for.
pub open spec fn acl_as_read_alone(a: AclView) -> AclView {
    AclView {
        control_flags: ControlFlags {
            bits: if a.control_flags.bits == 0 {
                0
            } else {
                written_acl_flags(a.control_flags, a.acl_type)
            },
        },
        ..a
    }
}

/// Reading an ACL as `sddl_string` writes it gives the ACL back: the same
/// revision, size and entries, in the context of the flags that were written.
pub proof fn lemma_acl_sddl_round_trip(a: AclView, domain: Option<Seq<u32>>)
    requires
        acl_has_text(a, domain),
    ensures
        acl_of_sddl(a.sddl_text(), domain) == Ok::<AclView, Failure>(acl_as_read_alone(a)),
{
    let tag = a.acl_type.tag();
    let ft = a.control_flags.sddl_text(a.acl_type);
    let content = ft + aces_text(a.ace_list);
    if a.control_flags.bits == 0 {
        let w = null_acl_text();
        assert forall|i: int| 0 <= i < w.len() implies #[trigger] w[i] != '(' && w[i] != ':' by {}
        lemma_acl_of_flags_and_aces(a, ft, 0, a.acl_type, domain);
    } else {
        lemma_acl_flags_text_round_trip(a.control_flags, a.acl_type);
        lemma_plain_free_of(ft);
        lemma_acl_of_flags_and_aces(
            a,
            ft,
            written_acl_flags(a.control_flags, a.acl_type),
            a.acl_type,
            domain,
        );
    }
    let secs = seq![(tag, content)];
    assert(secs.drop_last() =~= Seq::<(char, Seq<char>)>::empty());
    assert(sections_text(secs.drop_last()) =~= Seq::<char>::empty());
    assert(sections_text(secs) =~= a.sddl_text());
    assert(sections_free_of_colon(secs));
    lemma_sections_split(secs);
    let p = split(a.sddl_text(), ':');
    assert(p == section_pieces(secs));
    assert(p.len() == 2);
    assert(p[0] == seq![tag]);
    assert(p[0][0] == tag);
    assert(p[1] == content);
}

/// The text of a row of sections, each a tag, `:` and a content.
pub open spec fn sections_text(secs: Seq<(char, Seq<char>)>) -> Seq<char>
    decreases secs.len(),
{
    if secs.len() == 0 {
        Seq::empty()
    } else {
        sections_text(secs.drop_last()) + seq![secs.last().0, ':'] + secs.last().1
    }
}

/// The pieces that the text of a row of sections falls into at its colons:
/// the first tag; each content but the last with the next tag after it; the
/// last content.
pub open spec fn section_pieces(secs: Seq<(char, Seq<char>)>) -> Seq<Seq<char>> {
    Seq::new(
        secs.len() + 1,
        |i: int|
            if i == 0 {
                seq![secs[0].0]
            } else if i < secs.len() {
                secs[i - 1].1 + seq![secs[i].0]
            } else {
                secs[i - 1].1
            },
    )
}

/// The parts that a row of sections gives.
pub open spec fn sections_value(secs: Seq<(char, Seq<char>)>, domain: Option<Seq<u32>>) -> Result<
    Sections,
    Failure,
>
    decreases secs.len(),
{
    if secs.len() == 0 {
        Ok(Sections { owner: None, group: None, dacl: None, sacl: None })
    } else {
        match sections_value(secs.drop_last(), domain) {
            Err(e) => Err(e),
            Ok(parts) => with_section(parts, secs.last().0, secs.last().1, domain),
        }
    }
}

/// Appending to the last of several pieces appends to what they join to.
proof fn lemma_join_last_append(q: Seq<Seq<char>>, y: Seq<char>, z: Seq<char>, sep: char)
    requires
        q.len() >= 1,
    ensures
        join(q.push(y + z), sep) == join(q.push(y), sep) + z,
{
    lemma_join_push(q, y + z, sep);
    lemma_join_push(q, y, sep);
    assert(join(q, sep) + seq![sep] + (y + z) =~= join(q, sep) + seq![sep] + y + z);
}

/// The text of one section or more is its pieces with `:` between them.
#[verifier::rlimit(30)]
pub proof fn lemma_sections_text_is_join(secs: Seq<(char, Seq<char>)>)
    requires
        secs.len() >= 1,
    ensures
        sections_text(secs) == join(section_pieces(secs), ':'),
    decreases secs.len(),
{
    let n = secs.len() as int;
    let p = section_pieces(secs);
    let tag = secs.last().0;
    let content = secs.last().1;
    if n == 1 {
        assert(secs.drop_last() =~= Seq::<(char, Seq<char>)>::empty());
        assert(sections_text(secs.drop_last()) =~= Seq::<char>::empty());
        let at1 = seq![seq![tag]];
        assert(p =~= at1.push(content));
        assert(join(at1, ':') == seq![tag]);
        lemma_join_push(at1, content, ':');
        assert(sections_text(secs) =~= seq![tag] + seq![':'] + content);
    } else {
        let head = secs.drop_last();
        let ph = section_pieces(head);
        lemma_sections_text_is_join(head);
        let q = ph.drop_last();
        let y = head.last().1;
        assert(ph.last() == y);
        assert(ph =~= q.push(y));
        let x = y + seq![tag];
        assert(p =~= q.push(x).push(content)) by {
            let r = q.push(x).push(content);
            assert(r.len() == p.len());
            assert forall|i: int| 0 <= i < p.len() implies p[i] == r[i] by {
                if i < n - 1 {
                    assert(r[i] == q[i]);
                    assert(q[i] == ph[i]);
                    if i > 0 {
                        assert(head[i - 1] == secs[i - 1]);
                        assert(head[i] == secs[i]);
                    } else {
                        assert(head[0] == secs[0]);
                    }
                } else if i == n - 1 {
                    assert(head[n - 2] == secs[n - 2]);
                }
            }
        }
        lemma_join_push(q.push(x), content, ':');
        lemma_join_last_append(q, y, seq![tag], ':');
        assert(sections_text(secs) =~= join(q.push(y), ':') + seq![tag] + seq![':'] + content);
    }
}

/// Whether no content of the sections holds a `:`, and no tag is one.
pub open spec fn sections_free_of_colon(secs: Seq<(char, Seq<char>)>) -> bool {
    forall|i: int| 0 <= i < secs.len() ==> (#[trigger] secs[i]).0 != ':' && free_of(secs[i].1, ':')
}

/// Parting the text of one section or more at its colons gives the pieces of
/// the sections.
pub proof fn lemma_sections_split(secs: Seq<(char, Seq<char>)>)
    requires
        secs.len() >= 1,
        sections_free_of_colon(secs),
    ensures
        split(sections_text(secs), ':') == section_pieces(secs),
        sections_text(secs).len() > 0,
{
    let p = section_pieces(secs);
    lemma_sections_text_is_join(secs);
    assert forall|i: int| 0 <= i < p.len() implies free_of(#[trigger] p[i], ':') by {
        let x = p[i];
        if i == 0 {
            assert(secs[0].0 != ':');
            assert forall|j: int| 0 <= j < x.len() implies #[trigger] x[j] != ':' by {}
        } else if i < secs.len() {
            let c = secs[i - 1].1;
            assert(free_of(c, ':'));
            assert(secs[i].0 != ':');
            assert forall|j: int| 0 <= j < x.len() implies #[trigger] x[j] != ':' by {
                if j < c.len() {
                    assert(x[j] == c[j]);
                }
            }
        } else {
            assert(free_of(secs[i - 1].1, ':'));
        }
    }
    lemma_split_join(p, ':');
    let t = sections_text(secs);
    assert(t == sections_text(secs.drop_last()) + seq![secs.last().0, ':'] + secs.last().1);
}

/// Reading the first `k` sections from the pieces of a row of sections
/// gives what the first `k` sections give.
pub proof fn lemma_sections_of_pieces(
    secs: Seq<(char, Seq<char>)>,
    k: nat,
    domain: Option<Seq<u32>>,
)
    requires
        k <= secs.len(),
    ensures
        sections_of_pieces(section_pieces(secs), k, domain) == sections_value(
            secs.take(k as int),
            domain,
        ),
    decreases k,
{
    reveal(section_step);
    let p = section_pieces(secs);
    if k == 0 {
        assert(secs.take(0) =~= Seq::<(char, Seq<char>)>::empty());
    } else {
        let i = k - 1;
        lemma_sections_of_pieces(secs, i as nat, domain);
        let now = secs.take(k as int);
        assert(now.drop_last() =~= secs.take(i));
        assert(now.last() == secs[i]);
        assert(p[0].len() == 1);
        if i > 0 {
            assert(p[i] == secs[i - 1].1 + seq![secs[i].0]);
            assert(p[i].last() == secs[i].0);
        } else {
            assert(p[0][0] == secs[0].0);
        }
        assert(section_tag(p, i) == secs[i].0);
        if i + 2 == p.len() {
            assert(p[i + 1] == secs[i].1);
        } else {
            assert(p[i + 1] == secs[i].1 + seq![secs[i + 1].0]);
            assert(p[i + 1].drop_last() =~= secs[i].1);
        }
        assert(section_content(p, i) == secs[i].1);
    }
}

/// Whether reading what is written of a descriptor gives the descriptor
/// back: owner and group, where they are there, have one sub-authority or
/// more; each ACL is written in full; and the control flags are those that
/// `new` gives a descriptor with these ACLs.
pub open spec fn descriptor_has_text(v: SecurityDescriptorView, domain: Option<Seq<u32>>) -> bool {
    &&& v.wf()
    &&& (v.owner matches Some(s) ==> s.sub_authority.len() >= 1)
    &&& (v.group matches Some(s) ==> s.sub_authority.len() >= 1)
    &&& (v.sacl matches Some(a) ==> acl_has_text(a, domain))
    &&& (v.dacl matches Some(a) ==> acl_has_text(a, domain))
    &&& v.flags.bits == flags_of_parts(descriptor_as_read(v).dacl, descriptor_as_read(v).sacl)
}

/// The descriptor as reading its text gives it: each ACL in the context of
/// the flags that were written for it.
pub open spec fn descriptor_as_read(v: SecurityDescriptorView) -> SecurityDescriptorView {
    SecurityDescriptorView {
        sacl: match v.sacl {
            Some(a) => Some(acl_as_read(a, v.flags, AclType::SACL)),
            None => None,
        },
        dacl: match v.dacl {
            Some(a) => Some(acl_as_read(a, v.flags, AclType::DACL)),
            None => None,
        },
        ..v
    }
}

/// Reading the canonical text of a SID as a SID of SDDL gives the SID back.
proof fn lemma_owner_round_trip(v: SidView, domain: Option<Seq<u32>>)
    requires
        v.wf(),
        v.sub_authority.len() >= 1,
    ensures
        sid_of_sddl(v.text(), domain) == Ok::<SidView, Failure>(v),
        free_of(v.text(), ':'),
{
    lemma_sid_text_plain(v);
    lemma_plain_free_of(v.text());
    crate::laws::lemma_sid_text_round_trip(v);
}

/// Whether the sections give the parts and make up the text, and hold no
/// `:` but after their tags.
pub open spec fn sections_make(
    secs: Seq<(char, Seq<char>)>,
    parts: Sections,
    text: Seq<char>,
    domain: Option<Seq<u32>>,
) -> bool {
    &&& sections_value(secs, domain) == Ok::<Sections, Failure>(parts)
    &&& sections_text(secs) == text
    &&& sections_free_of_colon(secs)
}

/// One more section after a row of sections adds its content to the parts
/// and its text to the text.
proof fn lemma_add_section(
    secs: Seq<(char, Seq<char>)>,
    parts: Sections,
    text: Seq<char>,
    tag: char,
    content: Seq<char>,
    more: Sections,
    domain: Option<Seq<u32>>,
)
    requires
        sections_make(secs, parts, text, domain),
        tag != ':',
        free_of(content, ':'),
        with_section(parts, tag, content, domain) == Ok::<Sections, Failure>(more),
    ensures
        sections_make(secs.push((tag, content)), more, text + (seq![tag, ':'] + content), domain),
{
    let next = secs.push((tag, content));
    assert(next.drop_last() =~= secs);
    assert(next.last() == (tag, content));
    assert(sections_text(next) =~= text + (seq![tag, ':'] + content));
    assert forall|i: int| 0 <= i < next.len() implies (#[trigger] next[i]).0 != ':' && free_of(
        next[i].1,
        ':',
    ) by {
        if i < secs.len() {
            assert(next[i] == secs[i]);
        }
    }
}

/// The section of an owner or a group after sections without one adds the
/// SID to the parts.
proof fn lemma_with_sid(parts: Sections, tag: char, sid: SidView, domain: Option<Seq<u32>>)
    requires
        sid.wf(),
        sid.sub_authority.len() >= 1,
        tag == 'O' || tag == 'G',
        tag == 'O' ==> parts.owner is None,
        tag == 'G' ==> parts.group is None,
    ensures
        free_of(sid.text(), ':'),
        with_section(parts, tag, sid.text(), domain) == Ok::<Sections, Failure>(
            if tag == 'O' {
                Sections { owner: Some(sid), ..parts }
            } else {
                Sections { group: Some(sid), ..parts }
            },
        ),
{
    reveal(with_section);
    lemma_owner_round_trip(sid, domain);
}

/// The section of an ACL after sections without one of its kind adds the
/// ACL to the parts.
proof fn lemma_with_acl(
    parts: Sections,
    a: AclView,
    flags: ControlFlags,
    acl_type: AclType,
    domain: Option<Seq<u32>>,
)
    requires
        acl_has_text(a, domain),
        acl_type == AclType::SACL ==> parts.sacl is None,
        acl_type == AclType::DACL ==> parts.dacl is None,
    ensures
        free_of(acl_content(a, flags, acl_type), ':'),
        with_section(parts, acl_type.tag(), acl_content(a, flags, acl_type), domain) == Ok::<
            Sections,
            Failure,
        >(
            match acl_type {
                AclType::SACL => Sections {
                    sacl: Some(acl_as_read(a, flags, acl_type)),
                    ..parts
                },
                AclType::DACL => Sections {
                    dacl: Some(acl_as_read(a, flags, acl_type)),
                    ..parts
                },
            },
        ),
{
    reveal(with_section);
    lemma_acl_text_round_trip(a, flags, acl_type, domain);
}

/// The sections so far and, where it is there, the section of an owner or a
/// group.
proof fn lemma_optional_sid_section(
    secs: Seq<(char, Seq<char>)>,
    parts: Sections,
    text: Seq<char>,
    tag: char,
    sid: Option<SidView>,
    domain: Option<Seq<u32>>,
) -> (r: (Seq<(char, Seq<char>)>, Sections))
    requires
        sections_make(secs, parts, text, domain),
        tag == 'O' || tag == 'G',
        tag == 'O' ==> parts.owner is None,
        tag == 'G' ==> parts.group is None,
        sid matches Some(s) ==> s.wf() && s.sub_authority.len() >= 1,
    ensures
        sections_make(r.0, r.1, text + optional_sid_text(tag, sid), domain),
        r.1 == if tag == 'O' {
            Sections { owner: sid, ..parts }
        } else {
            Sections { group: sid, ..parts }
        },
{
    match sid {
        Some(s) => {
            lemma_with_sid(parts, tag, s, domain);
            let more = if tag == 'O' {
                Sections { owner: sid, ..parts }
            } else {
                Sections { group: sid, ..parts }
            };
            lemma_add_section(secs, parts, text, tag, s.text(), more, domain);
            assert(text + (seq![tag, ':'] + s.text()) =~= text + optional_sid_text(tag, sid));
            (secs.push((tag, s.text())), more)
        },
        None => {
            assert(text + optional_sid_text(tag, sid) =~= text);
            (secs, parts)
        },
    }
}

/// The sections so far and, where it is there, the section of an ACL.
proof fn lemma_optional_acl_section(
    secs: Seq<(char, Seq<char>)>,
    parts: Sections,
    text: Seq<char>,
    acl: Option<AclView>,
    flags: ControlFlags,
    acl_type: AclType,
    domain: Option<Seq<u32>>,
) -> (r: (Seq<(char, Seq<char>)>, Sections))
    requires
        sections_make(secs, parts, text, domain),
        acl_type == AclType::SACL ==> parts.sacl is None,
        acl_type == AclType::DACL ==> parts.dacl is None,
        acl matches Some(a) ==> acl_has_text(a, domain),
    ensures
        sections_make(r.0, r.1, text + optional_acl_text(flags, acl_type, acl), domain),
        r.1 == match acl_type {
            AclType::SACL => Sections {
                sacl: match acl {
                    Some(a) => Some(acl_as_read(a, flags, acl_type)),
                    None => None,
                },
                ..parts
            },
            AclType::DACL => Sections {
                dacl: match acl {
                    Some(a) => Some(acl_as_read(a, flags, acl_type)),
                    None => None,
                },
                ..parts
            },
        },
{
    match acl {
        Some(a) => {
            lemma_with_acl(parts, a, flags, acl_type, domain);
            let more = match acl_type {
                AclType::SACL => Sections {
                    sacl: Some(acl_as_read(a, flags, acl_type)),
                    ..parts
                },
                AclType::DACL => Sections {
                    dacl: Some(acl_as_read(a, flags, acl_type)),
                    ..parts
                },
            };
            let content = acl_content(a, flags, acl_type);
            lemma_add_section(secs, parts, text, acl_type.tag(), content, more, domain);
            assert(text + (seq![acl_type.tag(), ':'] + content) =~= text + optional_acl_text(
                flags,
                acl_type,
                acl,
            ));
            (secs.push((acl_type.tag(), content)), more)
        },
        None => {
            assert(text + optional_acl_text(flags, acl_type, acl) =~= text);
            (secs, parts)
        },
    }
}

/// The sections of a descriptor, as far as they are there.
#[verifier::rlimit(30)]
proof fn lemma_all_sections(v: SecurityDescriptorView, domain: Option<Seq<u32>>) -> (r: (
    Seq<(char, Seq<char>)>,
    Sections,
))
    requires
        v.wf(),
        v.owner matches Some(s) ==> s.sub_authority.len() >= 1,
        v.group matches Some(s) ==> s.sub_authority.len() >= 1,
        v.sacl matches Some(a) ==> acl_has_text(a, domain),
        v.dacl matches Some(a) ==> acl_has_text(a, domain),
    ensures
        sections_make(r.0, r.1, v.sddl_text(), domain),
        r.1 == (Sections {
            owner: v.owner,
            group: v.group,
            dacl: descriptor_as_read(v).dacl,
            sacl: descriptor_as_read(v).sacl,
        }),
{
    let e = Seq::<(char, Seq<char>)>::empty();
    let none = Sections { owner: None, group: None, dacl: None, sacl: None };
    let t0 = Seq::<char>::empty();
    assert(sections_make(e, none, t0, domain));
    let (s1, at1) = lemma_optional_sid_section(e, none, t0, 'O', v.owner, domain);
    let t1 = t0 + optional_sid_text('O', v.owner);
    let (s2, at2) = lemma_optional_sid_section(s1, at1, t1, 'G', v.group, domain);
    let t2 = t1 + optional_sid_text('G', v.group);
    let (s3, at3) = lemma_optional_acl_section(s2, at2, t2, v.sacl, v.flags, AclType::SACL, domain);
    let t3 = t2 + optional_acl_text(v.flags, AclType::SACL, v.sacl);
    let (s4, at4) = lemma_optional_acl_section(s3, at3, t3, v.dacl, v.flags, AclType::DACL, domain);
    let t4 = t3 + optional_acl_text(v.flags, AclType::DACL, v.dacl);
    assert(t4 =~= v.sddl_text());
    (s4, at4)
}

/// Reading a descriptor as SDDL writes it gives the descriptor back, for
/// every descriptor that SDDL as written here expresses in full. What is read
/// differs from what was written only in the context that each ACL carries,
/// which is no part of what the ACL says.
pub proof fn lemma_sddl_round_trip(v: SecurityDescriptorView, domain: Option<Seq<u32>>)
    requires
        descriptor_has_text(v, domain),
    ensures
        security_descriptor_of_sddl(v.sddl_text(), domain) == Ok::<SecurityDescriptorView, Failure>(
            descriptor_as_read(v),
        ),
{
    let (secs, parts) = lemma_all_sections(v, domain);
    let text = v.sddl_text();
    if secs.len() == 0 {
        assert(text.len() == 0);
    } else {
        lemma_sections_split(secs);
        lemma_sections_of_pieces(secs, secs.len(), domain);
        assert(secs.take(secs.len() as int) =~= secs);
        assert(section_pieces(secs).len() == secs.len() + 1);
    }
}

} // verus!
