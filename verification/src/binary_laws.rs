//! Reading the binary form that the library writes gives back what was
//! written.
use crate::ace::{
    decode_ace, decode_ace_body, decode_ace_tail, guid_at, optional_guid_bytes, optional_guid_len,
    AceView,
};

use crate::ace_header::{round_up_4, AceType};
use crate::acl::{
    aces_bytes, aces_size, all_aces_wf, decode_acl, decode_aces, AclRevision, AclType, AclView,
};
use crate::bytes::{
    holds_at, lemma_holds_at_concat, lemma_holds_at_index, lemma_u16_at_bytes, lemma_u32_at_bytes,
    u16_at, u16_bytes, u32_at, u32_bytes, zero_bytes,
};
use crate::control_flags::{ControlFlags, DISCRETIONARY_ACL_PRESENT, SYSTEM_ACL_PRESENT};
use crate::error::DecodeError;
use crate::guid::{flip_fields, lemma_flip_fields_twice};
use crate::security_descriptor::{
    decode_acl_at, decode_security_descriptor, decode_sid_at, optional_acl_bytes, optional_acl_len,
    optional_sid_bytes, optional_sid_len, SecurityDescriptorView,
};
use crate::sid::{decode_sid, words_at, words_bytes, SidView};
use vstd::prelude::*;

verus! {

/// The bytes of a row of 32-bit numbers are four for each number, and hold
/// the bytes of each number at four times its index.
pub proof fn lemma_words_bytes(w: Seq<u32>)
    ensures
        words_bytes(w).len() == 4 * w.len(),
        forall|i: int| 0 <= i < w.len() ==> holds_at(words_bytes(w), 4 * i, u32_bytes(#[trigger] w[i] as int)),
    decreases w.len(),
{
    if w.len() > 0 {
        let head = w.drop_last();
        lemma_words_bytes(head);
        let all = words_bytes(w);
        assert(all == words_bytes(head) + u32_bytes(w.last() as int));
        assert forall|i: int| 0 <= i < w.len() implies holds_at(
            all,
            4 * i,
            u32_bytes(#[trigger] w[i] as int),
        ) by {
            if i < head.len() {
                assert(head[i] == w[i]);
                assert(holds_at(words_bytes(head), 4 * i, u32_bytes(w[i] as int)));
                assert(all.subrange(4 * i, 4 * i + 4) =~= words_bytes(head).subrange(
                    4 * i,
                    4 * i + 4,
                ));
            } else {
                assert(all.subrange(4 * i, 4 * i + 4) =~= u32_bytes(w[i] as int));
            }
        }
    }
}

/// Where a buffer holds a part, and the part holds a piece, the buffer holds
/// the piece.
pub proof fn lemma_holds_at_within(b: Seq<u8>, pos: int, part: Seq<u8>, at: int, piece: Seq<u8>)
    requires
        holds_at(b, pos, part),
        holds_at(part, at, piece),
    ensures
        holds_at(b, pos + at, piece),
{
    assert(b.subrange(pos + at, pos + at + piece.len()) =~= piece) by {
        assert forall|i: int| 0 <= i < piece.len() implies b[pos + at + i] == piece[i] by {
            lemma_holds_at_index(part, at, piece, i);
            lemma_holds_at_index(b, pos, part, at + i);
        }
    }
}

/// Where the bytes at `pos` are the binary form of a SID, reading at `pos`
/// gives that SID and the position after it.
pub proof fn lemma_decode_sid_encoding(b: Seq<u8>, pos: int, v: SidView)
    requires
        v.wf(),
        holds_at(b, pos, v.encoding()),
    ensures
        v.encoding().len() == v.raw_len(),
        decode_sid(b, pos) == Ok::<(SidView, int), DecodeError>((v, pos + v.raw_len())),
{
    let n = v.sub_authority.len();
    let e = v.encoding();
    let head = seq![1u8, n as u8] + v.authority;
    let words = words_bytes(v.sub_authority);
    lemma_words_bytes(v.sub_authority);
    assert(e == head + words);
    assert(e.len() == 8 + 4 * n);
    lemma_holds_at_concat(b, pos, head, words);
    lemma_holds_at_concat(b, pos, seq![1u8, n as u8], v.authority);
    lemma_holds_at_index(b, pos, seq![1u8, n as u8], 0);
    lemma_holds_at_index(b, pos, seq![1u8, n as u8], 1);
    assert(b[pos] == 1 && b[pos + 1] == n);
    assert(b.subrange(pos + 2, pos + 8) == v.authority);
    let read = words_at(b, pos + 8, n);
    assert forall|i: int| 0 <= i < n implies read[i] == v.sub_authority[i] by {
        lemma_holds_at_within(b, pos + 8, words, 4 * i, u32_bytes(v.sub_authority[i] as int));
        lemma_u32_at_bytes(b, pos + 8 + 4 * i, v.sub_authority[i] as int);
    }
    assert(read =~= v.sub_authority);
}

/// What is read as a SID is well-formed, and its binary form has the length
/// that was read.
pub proof fn lemma_decode_sid_wf(b: Seq<u8>, pos: int)
    requires
        0 <= pos,
    ensures
        decode_sid(b, pos) matches Ok(found) ==> found.0.wf() && found.1 == pos
            + found.0.raw_len() && found.1 <= b.len(),
{
}

/// A type tag stands for the kind that it is the tag of.
pub proof fn lemma_ace_type_code(t: AceType)
    ensures
        AceType::spec_from_code(t.spec_code()) == Some(t),
{
}

/// The parts of the binary form of a well-formed entry have the lengths that
/// the entry counts for them.
pub proof fn lemma_ace_part_lens(v: AceView)
    requires
        v.wf(),
    ensures
        v.head_bytes().len() == 8,
        v.object_bytes().len() == v.object_part_len(),
        v.sid.encoding().len() == v.sid.raw_len(),
        v.encoding().len() == 8 + v.payload_len() + v.padding_len(),
{
    match v.object_type {
        Some(g) => {
            lemma_flip_fields_twice(g);
        },
        None => {},
    }
    match v.inherited_object_type {
        Some(g) => {
            lemma_flip_fields_twice(g);
        },
        None => {},
    }
    crate::binary_laws::lemma_words_bytes(v.sid.sub_authority);
    assert(v.object_bytes().len() == v.object_part_len());
}

/// Rounding up to a multiple of 4 adds less than 4, gives a multiple of 4,
/// and leaves a multiple of 4 as it is.
pub proof fn lemma_round_up_4(n: int)
    requires
        n >= 0,
    ensures
        round_up_4(n) % 4 == 0,
        n <= round_up_4(n) < n + 4,
        n % 4 == 0 ==> round_up_4(n) == n,
        round_up_4(round_up_4(n)) == round_up_4(n),
{
}

/// The binary form of a well-formed entry has the size in its head, and
/// reading the entry changes nothing but the application data, which takes the
/// padding in.
#[verifier::rlimit(30)]
pub proof fn lemma_ace_encoding_len(v: AceView)
    requires
        v.wf(),
    ensures
        v.head_bytes().len() == 8,
        v.object_bytes().len() == v.object_part_len(),
        v.encoding().len() == v.header.ace_size,
        v.normalized().wf(),
        v.normalized().header == v.header,
        !v.ace_type.spec_has_application_data() ==> v.normalized() == v,
        v.payload_len() % 4 == 0 ==> v.normalized() == v,
{
    let n = v.normalized();
    let payload = v.payload_len() as int;
    lemma_ace_part_lens(v);
    lemma_round_up_4(payload);
    assert(v.padding_len() == round_up_4(payload) - payload);
    assert(n.application_data.len() == v.application_data.len() + v.padding_len());
    assert(n.object_part_len() == v.object_part_len());
    assert(n.payload_len() == round_up_4(payload));
    if !v.ace_type.spec_has_application_data() {
        assert(v.object_part_len() % 4 == 0);
        assert(v.sid.raw_len() % 4 == 0);
        assert(payload % 4 == 0);
    }
    if payload % 4 == 0 {
        assert(v.padding_len() == 0);
        assert(n.application_data =~= v.application_data);
    }
}

/// Where the bytes at `pos` are the head of an entry, they hold its kind,
/// its flags, its size and its rights.
pub proof fn lemma_ace_head_at(b: Seq<u8>, pos: int, v: AceView)
    requires
        holds_at(b, pos, v.head_bytes()),
    ensures
        b[pos] == v.ace_type.spec_code(),
        b[pos + 1] == v.header.ace_flags.bits,
        u16_at(b, pos + 2) == v.header.ace_size,
        u32_at(b, pos + 4) == v.header.mask.bits,
{
    let size = v.header.ace_size as int;
    let h1 = seq![v.ace_type.spec_code(), v.header.ace_flags.bits];
    let h2 = h1 + u16_bytes(size);
    assert(v.head_bytes() == h2 + u32_bytes(v.header.mask.bits as int));
    lemma_holds_at_concat(b, pos, h2, u32_bytes(v.header.mask.bits as int));
    lemma_holds_at_concat(b, pos, h1, u16_bytes(size));
    lemma_holds_at_index(b, pos, h1, 0);
    lemma_holds_at_index(b, pos, h1, 1);
    lemma_u16_at_bytes(b, pos + 2, size);
    lemma_u32_at_bytes(b, pos + 4, v.header.mask.bits as int);
}

/// Where the bytes at `p` are the object part of an object-specific entry,
/// they hold its object flags and its object types.
pub proof fn lemma_ace_object_at(b: Seq<u8>, p: int, v: AceView)
    requires
        v.wf(),
        v.ace_type.spec_has_object_fields(),
        holds_at(b, p, v.object_bytes()),
    ensures
        u32_at(b, p) == v.object_flags(),
        v.object_type matches Some(g) ==> guid_at(b, p + 4) == g,
        v.inherited_object_type matches Some(g) ==> guid_at(
            b,
            p + 4 + optional_guid_len(v.object_type),
        ) == g,
{
    let flags = v.object_flags() as int;
    let g1 = optional_guid_bytes(v.object_type);
    let g2 = optional_guid_bytes(v.inherited_object_type);
    let o2 = u32_bytes(flags) + g1;
    assert(v.object_bytes() == o2 + g2);
    lemma_holds_at_concat(b, p, o2, g2);
    lemma_holds_at_concat(b, p, u32_bytes(flags), g1);
    lemma_u32_at_bytes(b, p, flags);
    match v.object_type {
        Some(g) => {
            lemma_flip_fields_twice(g);
            assert(b.subrange(p + 4, p + 20) == flip_fields(g));
        },
        None => {},
    }
    let at1 = p + 4 + optional_guid_len(v.object_type);
    match v.inherited_object_type {
        Some(g) => {
            lemma_flip_fields_twice(g);
            assert(b.subrange(at1, at1 + 16) == flip_fields(g));
        },
        None => {},
    }
}

/// Where the bytes at `pos` are the binary form of a well-formed entry, each
/// part of the entry stands at its place.
#[verifier::rlimit(30)]
pub proof fn lemma_ace_layout(b: Seq<u8>, pos: int, v: AceView)
    requires
        v.wf(),
        holds_at(b, pos, v.encoding()),
    ensures
        pos + v.header.ace_size <= b.len(),
        holds_at(b, pos, v.head_bytes()),
        holds_at(b, pos + 8, v.object_bytes()),
        holds_at(b, pos + 8 + v.object_part_len(), v.sid.encoding()),
        b.subrange(
            pos + 8 + v.object_part_len() + v.sid.raw_len(),
            pos + v.header.ace_size,
        ) == v.application_data + zero_bytes(v.padding_len()),
{
    lemma_ace_encoding_len(v);
    lemma_ace_part_lens(v);
    let head = v.head_bytes();
    let obj = v.object_bytes();
    let sid = v.sid.encoding();
    let app = v.application_data;
    let pad = zero_bytes(v.padding_len());
    let x2 = head + obj;
    let x3 = x2 + sid;
    let x4 = x3 + app;
    assert(v.encoding() == x4 + pad);
    lemma_holds_at_concat(b, pos, x4, pad);
    lemma_holds_at_concat(b, pos, x3, app);
    lemma_holds_at_concat(b, pos, x2, sid);
    lemma_holds_at_concat(b, pos, head, obj);
    let q = pos + 8 + v.object_part_len() + v.sid.raw_len();
    assert(b.subrange(q, pos + v.header.ace_size) =~= app + pad) by {
        assert forall|i: int| 0 <= i < app.len() + pad.len() implies b[q + i] == (app + pad)[i] by {
            if i < app.len() {
                lemma_holds_at_index(b, q, app, i);
            } else {
                lemma_holds_at_index(b, q + app.len(), pad, i - app.len());
            }
        }
    }
}

/// Where the bytes at `pos` are the binary form of a well-formed entry,
/// reading its trustee and what follows gives the entry as reading gives it.
#[verifier::rlimit(30)]
pub proof fn lemma_decode_ace_tail_encoding(b: Seq<u8>, pos: int, v: AceView)
    requires
        v.wf(),
        holds_at(b, pos, v.encoding()),
    ensures
        decode_ace_tail(
            b,
            pos,
            v.ace_type,
            v.header.ace_size as int,
            v.object_type,
            v.inherited_object_type,
            pos + 8 + v.object_part_len(),
        ) == Ok::<(AceView, int), DecodeError>((v.normalized(), pos + v.header.ace_size)),
{
    lemma_ace_encoding_len(v);
    lemma_ace_layout(b, pos, v);
    lemma_ace_head_at(b, pos, v);
    let t = v.ace_type;
    let size = v.header.ace_size as int;
    let at2 = pos + 8 + v.object_part_len();
    lemma_decode_sid_encoding(b, at2, v.sid);
    let q = at2 + v.sid.raw_len();
    let n = v.normalized();
    if !t.spec_has_application_data() {
        assert(n.application_data =~= Seq::<u8>::empty());
        assert(q - pos == size);
    }
    let read = decode_ace_tail(b, pos, t, size, v.object_type, v.inherited_object_type, at2);
    assert(read is Ok);
    let r = read->Ok_0.0;
    assert(r.ace_type == n.ace_type);
    assert(r.header.ace_flags == n.header.ace_flags);
    assert(r.header.mask == n.header.mask);
    assert(r.header.ace_size == n.header.ace_size);
    assert(r.header == n.header);
    assert(r.object_type == n.object_type);
    assert(r.inherited_object_type == n.inherited_object_type);
    assert(r.sid == n.sid);
    assert(r.application_data == n.application_data);
    assert(r == n);
}

/// Where the bytes at `pos` are the binary form of a well-formed entry,
/// reading what follows its head gives the entry as reading gives it.
#[verifier::rlimit(30)]
pub proof fn lemma_decode_ace_body_encoding(b: Seq<u8>, pos: int, v: AceView)
    requires
        v.wf(),
        holds_at(b, pos, v.encoding()),
    ensures
        decode_ace_body(b, pos, v.ace_type, v.header.ace_size as int) == Ok::<
            (AceView, int),
            DecodeError,
        >((v.normalized(), pos + v.header.ace_size)),
{
    lemma_decode_ace_tail_encoding(b, pos, v);
    lemma_ace_layout(b, pos, v);
    lemma_ace_encoding_len(v);
    if v.ace_type.spec_has_object_fields() {
        lemma_ace_object_at(b, pos + 8, v);
        let flags = u32_at(b, pos + 8);
        assert(flags == v.object_flags());
        assert((flags == 1 || flags == 3) == (v.object_type is Some));
        assert((flags >= 2) == (v.inherited_object_type is Some));
    }
}

/// Where the bytes at `pos` are the binary form of a well-formed entry,
/// reading at `pos` gives the entry, with the padding as part of its
/// application data, and the position after it.
#[verifier::rlimit(30)]
pub proof fn lemma_decode_ace_encoding(b: Seq<u8>, pos: int, v: AceView)
    requires
        v.wf(),
        holds_at(b, pos, v.encoding()),
    ensures
        decode_ace(b, pos) == Ok::<(AceView, int), DecodeError>(
            (v.normalized(), pos + v.header.ace_size),
        ),
{
    lemma_decode_ace_body_encoding(b, pos, v);
    lemma_ace_type_code(v.ace_type);
    lemma_ace_layout(b, pos, v);
    lemma_ace_head_at(b, pos, v);
    lemma_round_up_4(v.payload_len() as int);
}

/// The entries as reading their binary forms gives them.
pub open spec fn normalized_aces(l: Seq<AceView>) -> Seq<AceView> {
    l.map_values(|a: AceView| a.normalized())
}

/// The binary forms of well-formed entries take as many bytes as the sizes
/// of the entries add up to; reading the entries changes neither their sizes
/// nor that they are well-formed.
pub proof fn lemma_aces_bytes_len(l: Seq<AceView>)
    requires
        all_aces_wf(l),
    ensures
        aces_bytes(l).len() == aces_size(l),
        aces_size(normalized_aces(l)) == aces_size(l),
        all_aces_wf(normalized_aces(l)),
    decreases l.len(),
{
    let n = normalized_aces(l);
    if l.len() > 0 {
        let head = l.drop_last();
        assert forall|i: int| 0 <= i < head.len() implies (#[trigger] head[i]).wf() by {
            assert(head[i] == l[i]);
        }
        lemma_aces_bytes_len(head);
        assert(l.last().wf());
        lemma_ace_encoding_len(l.last());
        assert(n.drop_last() =~= normalized_aces(head));
        assert(n.last() == l.last().normalized());
    }
    assert forall|i: int| 0 <= i < n.len() implies (#[trigger] n[i]).wf() by {
        assert(l[i].wf());
        lemma_ace_encoding_len(l[i]);
    }
}

/// Where the bytes at `pos` are the binary forms of well-formed entries,
/// reading as many entries at `pos` gives them, each as reading gives it.
#[verifier::rlimit(30)]
pub proof fn lemma_decode_aces_encoding(b: Seq<u8>, pos: int, l: Seq<AceView>)
    requires
        all_aces_wf(l),
        holds_at(b, pos, aces_bytes(l)),
    ensures
        decode_aces(b, pos, l.len()) == Ok::<(Seq<AceView>, int), DecodeError>(
            (normalized_aces(l), pos + aces_size(l)),
        ),
    decreases l.len(),
{
    lemma_aces_bytes_len(l);
    if l.len() == 0 {
        assert(normalized_aces(l) =~= Seq::<AceView>::empty());
    } else {
        let head = l.drop_last();
        assert forall|i: int| 0 <= i < head.len() implies (#[trigger] head[i]).wf() by {
            assert(head[i] == l[i]);
        }
        lemma_aces_bytes_len(head);
        lemma_holds_at_concat(b, pos, aces_bytes(head), l.last().encoding());
        lemma_decode_aces_encoding(b, pos, head);
        assert(l.last().wf());
        lemma_decode_ace_encoding(b, pos + aces_size(head), l.last());
        assert(normalized_aces(l) =~= normalized_aces(head).push(l.last().normalized()));
        assert(head.len() == l.len() - 1);
    }
}

/// A byte stands for the revision that it is the byte of.
pub proof fn lemma_acl_revision_code(r: AclRevision)
    ensures
        AclRevision::spec_from_code(r.spec_code()) == Some(r),
{
}

/// Where the bytes at `pos` are the binary form of a well-formed ACL,
/// reading at `pos` in a context gives the ACL, each entry as reading gives it,
/// in that context, and the position after it.
pub proof fn lemma_decode_acl_encoding(
    b: Seq<u8>,
    pos: int,
    v: AclView,
    control_flags: ControlFlags,
    acl_type: AclType,
)
    requires
        v.wf(),
        holds_at(b, pos, v.encoding()),
    ensures
        v.encoding().len() == v.acl_size,
        v.normalized(control_flags, acl_type).wf(),
        decode_acl(b, pos, control_flags, acl_type) == Ok::<(AclView, int), DecodeError>(
            (v.normalized(control_flags, acl_type), pos + v.acl_size),
        ),
{
    lemma_aces_bytes_len(v.ace_list);
    lemma_acl_revision_code(v.acl_revision);
    let h1 = seq![v.acl_revision.spec_code(), 0u8];
    let h2 = h1 + u16_bytes(v.acl_size as int);
    let h3 = h2 + u16_bytes(v.ace_count as int);
    let h4 = h3 + seq![0u8, 0u8];
    let entries = aces_bytes(v.ace_list);
    assert(v.encoding() == h4 + entries);
    lemma_holds_at_concat(b, pos, h4, entries);
    lemma_holds_at_concat(b, pos, h3, seq![0u8, 0u8]);
    lemma_holds_at_concat(b, pos, h2, u16_bytes(v.ace_count as int));
    lemma_holds_at_concat(b, pos, h1, u16_bytes(v.acl_size as int));
    lemma_holds_at_index(b, pos, h1, 0);
    lemma_u16_at_bytes(b, pos + 2, v.acl_size as int);
    lemma_u16_at_bytes(b, pos + 4, v.ace_count as int);
    assert(b[pos] == v.acl_revision.spec_code());
    lemma_decode_aces_encoding(b, pos + 8, v.ace_list);
    assert(v.normalized(control_flags, acl_type).ace_list == normalized_aces(v.ace_list));
}

/// Where the bytes at `base` are the head of a descriptor, they hold the
/// revision 1, its control flags and the offsets of its parts.
pub proof fn lemma_descriptor_head_at(b: Seq<u8>, base: int, v: SecurityDescriptorView)
    requires
        v.wf(),
        optional_acl_len(v.sacl) <= u16::MAX,
        optional_acl_len(v.dacl) <= u16::MAX,
        holds_at(b, base, v.head_bytes()),
    ensures
        v.head_bytes().len() == 20,
        b[base] == 1,
        u16_at(b, base + 2) == v.flags.bits,
        u32_at(b, base + 4) == v.owner_offset(),
        u32_at(b, base + 8) == v.group_offset(),
        u32_at(b, base + 12) == v.sacl_offset(),
        u32_at(b, base + 16) == v.dacl_offset(),
{
    let flags = v.flags;
    let h1 = seq![1u8, 0u8];
    let h2 = h1 + u16_bytes(flags.bits as int);
    let h3 = h2 + u32_bytes(v.owner_offset() as int);
    let h4 = h3 + u32_bytes(v.group_offset() as int);
    let h5 = h4 + u32_bytes(v.sacl_offset() as int);
    assert(v.head_bytes() == h5 + u32_bytes(v.dacl_offset() as int));
    lemma_holds_at_concat(b, base, h5, u32_bytes(v.dacl_offset() as int));
    lemma_holds_at_concat(b, base, h4, u32_bytes(v.sacl_offset() as int));
    lemma_holds_at_concat(b, base, h3, u32_bytes(v.group_offset() as int));
    lemma_holds_at_concat(b, base, h2, u32_bytes(v.owner_offset() as int));
    lemma_holds_at_concat(b, base, h1, u16_bytes(flags.bits as int));
    lemma_holds_at_index(b, base, h1, 0);
    lemma_u16_at_bytes(b, base + 2, flags.bits as int);
    lemma_u32_at_bytes(b, base + 4, v.owner_offset() as int);
    lemma_u32_at_bytes(b, base + 8, v.group_offset() as int);
    lemma_u32_at_bytes(b, base + 12, v.sacl_offset() as int);
    lemma_u32_at_bytes(b, base + 16, v.dacl_offset() as int);
}

/// The binary form of a part of a descriptor that may be missing has the
/// length that the descriptor counts for it.
pub proof fn lemma_optional_part_lens(v: SecurityDescriptorView)
    requires
        v.wf(),
    ensures
        optional_acl_bytes(v.sacl).len() == optional_acl_len(v.sacl),
        optional_acl_bytes(v.dacl).len() == optional_acl_len(v.dacl),
        optional_sid_bytes(v.owner).len() == optional_sid_len(v.owner),
        optional_sid_bytes(v.group).len() == optional_sid_len(v.group),
{
    match v.sacl {
        Some(a) => {
            lemma_aces_bytes_len(a.ace_list);
        },
        None => {},
    }
    match v.dacl {
        Some(a) => {
            lemma_aces_bytes_len(a.ace_list);
        },
        None => {},
    }
    match v.owner {
        Some(sid) => {
            crate::binary_laws::lemma_words_bytes(sid.sub_authority);
        },
        None => {},
    }
    match v.group {
        Some(sid) => {
            crate::binary_laws::lemma_words_bytes(sid.sub_authority);
        },
        None => {},
    }
}

/// Where the bytes at `base` are the binary form of a well-formed
/// descriptor, each part of the descriptor stands at its offset.
pub proof fn lemma_descriptor_layout(b: Seq<u8>, base: int, v: SecurityDescriptorView)
    requires
        v.wf(),
        holds_at(b, base, v.encoding()),
    ensures
        holds_at(b, base, v.head_bytes()),
        v.sacl matches Some(a) ==> holds_at(b, base + v.sacl_offset(), a.encoding()),
        v.dacl matches Some(a) ==> holds_at(b, base + v.dacl_offset(), a.encoding()),
        v.owner matches Some(s) ==> holds_at(b, base + v.owner_offset(), s.encoding()),
        v.group matches Some(s) ==> holds_at(b, base + v.group_offset(), s.encoding()),
        base + v.owner_offset() <= b.len(),
        base + v.group_offset() <= b.len(),
        base + v.sacl_offset() <= b.len(),
        base + v.dacl_offset() <= b.len(),
{
    lemma_optional_part_lens(v);
    let head = v.head_bytes();
    let s = optional_acl_bytes(v.sacl);
    let d = optional_acl_bytes(v.dacl);
    let o = optional_sid_bytes(v.owner);
    let g = optional_sid_bytes(v.group);
    let x1 = head + s;
    let x2 = x1 + d;
    let x3 = x2 + o;
    assert(v.encoding() == x3 + g);
    assert(head.len() == 20);
    lemma_holds_at_concat(b, base, x3, g);
    lemma_holds_at_concat(b, base, x2, o);
    lemma_holds_at_concat(b, base, x1, d);
    lemma_holds_at_concat(b, base, head, s);
}

/// Where the bytes at `base` are the binary form of a well-formed
/// descriptor, reading at `base` gives the descriptor, with each list as
/// reading gives it.
#[verifier::rlimit(40)]
pub proof fn lemma_decode_security_descriptor_encoding(
    b: Seq<u8>,
    base: int,
    v: SecurityDescriptorView,
)
    requires
        v.wf(),
        holds_at(b, base, v.encoding()),
    ensures
        v.normalized().wf(),
        decode_security_descriptor(b, base) == Ok::<SecurityDescriptorView, DecodeError>(
            v.normalized(),
        ),
{
    let flags = v.flags;
    lemma_descriptor_layout(b, base, v);
    lemma_descriptor_head_at(b, base, v);
    assert(ControlFlags { bits: u16_at(b, base + 2) as u16 } == flags);
    match v.sacl {
        Some(a) => {
            lemma_decode_acl_encoding(b, base + v.sacl_offset(), a, flags, AclType::SACL);
        },
        None => {},
    }
    match v.dacl {
        Some(a) => {
            lemma_decode_acl_encoding(b, base + v.dacl_offset(), a, flags, AclType::DACL);
        },
        None => {},
    }
    match v.owner {
        Some(sid) => {
            lemma_decode_sid_encoding(b, base + v.owner_offset(), sid);
        },
        None => {},
    }
    match v.group {
        Some(sid) => {
            lemma_decode_sid_encoding(b, base + v.group_offset(), sid);
        },
        None => {},
    }
    assert(decode_sid_at(b, base, v.owner_offset() as int) == Ok::<Option<SidView>, DecodeError>(
        v.owner,
    ));
    assert(decode_sid_at(b, base, v.group_offset() as int) == Ok::<Option<SidView>, DecodeError>(
        v.group,
    ));
    assert(decode_acl_at(
        b,
        base,
        v.sacl_offset() as int,
        flags,
        AclType::SACL,
        flags.has(SYSTEM_ACL_PRESENT),
    ) == Ok::<Option<AclView>, DecodeError>(v.normalized().sacl));
    assert(decode_acl_at(
        b,
        base,
        v.dacl_offset() as int,
        flags,
        AclType::DACL,
        flags.has(DISCRETIONARY_ACL_PRESENT),
    ) == Ok::<Option<AclView>, DecodeError>(v.normalized().dacl));
}

/// Reading the binary form of a well-formed descriptor gives the descriptor,
/// with each list as reading gives it.
pub proof fn lemma_encode_decode(v: SecurityDescriptorView)
    requires
        v.wf(),
    ensures
        decode_security_descriptor(v.encoding(), 0) == Ok::<SecurityDescriptorView, DecodeError>(
            v.normalized(),
        ),
{
    let e = v.encoding();
    assert(e.subrange(0, e.len() as int) =~= e);
    lemma_decode_security_descriptor_encoding(e, 0, v);
}

/// An entry that was read is well-formed, and reading its binary form
/// changes nothing of it.
pub proof fn lemma_decoded_ace_is_normal(b: Seq<u8>, pos: int)
    requires
        0 <= pos,
    ensures
        decode_ace(b, pos) matches Ok(found) ==> found.0.wf() && found.0.normalized() == found.0,
{
    if decode_ace(b, pos) is Ok {
        let v = decode_ace(b, pos)->Ok_0.0;
        crate::ace::lemma_decode_ace_wf(b, pos);
        let size = u16_at(b, pos + 2);
        if v.ace_type.spec_has_application_data() {
            assert(v.header.ace_size == size);
            lemma_round_up_4(v.payload_len() as int);
            assert(v.payload_len() % 4 == 0);
        }
        lemma_ace_encoding_len(v);
    }
}

/// Entries that were read are well-formed, and reading their binary forms
/// changes nothing of them.
pub proof fn lemma_decoded_aces_are_normal(b: Seq<u8>, pos: int, n: nat)
    requires
        0 <= pos,
    ensures
        decode_aces(b, pos, n) matches Ok(found) ==> all_aces_wf(found.0) && normalized_aces(
            found.0,
        ) == found.0 && found.0.len() == n && found.1 >= pos + aces_size(found.0),
    decreases n,
{
    crate::acl::lemma_decode_aces(b, pos, n);
    if n > 0 && decode_aces(b, pos, n) is Ok {
        lemma_decoded_aces_are_normal(b, pos, (n - 1) as nat);
        let before = decode_aces(b, pos, (n - 1) as nat)->Ok_0;
        lemma_decoded_ace_is_normal(b, before.1);
        let l = decode_aces(b, pos, n)->Ok_0.0;
        assert(l.drop_last() =~= before.0);
        assert(normalized_aces(l) =~= normalized_aces(before.0).push(l.last().normalized()));
        assert(normalized_aces(l) =~= l);
    } else if decode_aces(b, pos, n) is Ok {
        assert(normalized_aces(Seq::<AceView>::empty()) =~= Seq::<AceView>::empty());
    }
}

/// An ACL that was read is well-formed, and reading its binary form in the
/// same context changes nothing of it.
pub proof fn lemma_decoded_acl_is_normal(
    b: Seq<u8>,
    pos: int,
    control_flags: ControlFlags,
    acl_type: AclType,
)
    requires
        0 <= pos,
    ensures
        decode_acl(b, pos, control_flags, acl_type) matches Ok(found) ==> found.0.wf()
            && found.0.normalized(control_flags, acl_type) == found.0,
{
    if decode_acl(b, pos, control_flags, acl_type) is Ok {
        let count = u16_at(b, pos + 4);
        lemma_decoded_aces_are_normal(b, pos + 8, count as nat);
        let v = decode_acl(b, pos, control_flags, acl_type)->Ok_0.0;
        assert(v.normalized(control_flags, acl_type).ace_list == normalized_aces(v.ace_list));
    }
}

/// A descriptor that was read is well-formed, and reading its binary form
/// changes nothing of it.
pub proof fn lemma_decoded_descriptor_is_normal(b: Seq<u8>, base: int)
    requires
        0 <= base,
    ensures
        decode_security_descriptor(b, base) matches Ok(v) ==> v.wf() && v.normalized() == v,
{
    if decode_security_descriptor(b, base) is Ok {
        let v = decode_security_descriptor(b, base)->Ok_0;
        let flags = v.flags;
        lemma_decode_sid_wf(b, base + u32_at(b, base + 4));
        lemma_decode_sid_wf(b, base + u32_at(b, base + 8));
        lemma_decoded_acl_is_normal(b, base + u32_at(b, base + 12), flags, AclType::SACL);
        lemma_decoded_acl_is_normal(b, base + u32_at(b, base + 16), flags, AclType::DACL);
    }
}

/// Reading, writing and reading again gives what the first reading gave:
/// where bytes hold a descriptor, the binary form of that descriptor holds
/// the same descriptor. The binary form that is written may differ from the
/// bytes that were read: it has its parts in a fixed order without gaps, and
/// zeros where bytes have no meaning.
pub proof fn lemma_binary_round_trip(b: Seq<u8>)
    ensures
        decode_security_descriptor(b, 0) matches Ok(v) ==> decode_security_descriptor(
            v.encoding(),
            0,
        ) == Ok::<SecurityDescriptorView, DecodeError>(v),
{
    if decode_security_descriptor(b, 0) is Ok {
        let v = decode_security_descriptor(b, 0)->Ok_0;
        lemma_decoded_descriptor_is_normal(b, 0);
        lemma_encode_decode(v);
    }
}

} // verus!
