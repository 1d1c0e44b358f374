//! What holds of the library as a whole: how reading and writing go
//! together, and what the sizes in entries and lists are.
use crate::ace::AceView;
use crate::ace_header::{round_up_4, ACE_HEADER_SIZE};
use crate::acl::{aces_size, AclView, ACL_HEADER_SIZE};
use crate::parser::{sid_of_alias, sid_of_sddl};
use crate::sid::identifier_authority::{
    authority_number, lemma_authority_bytes_number, lemma_authority_number_bytes,
};
use crate::sid::sid_alias::{alias_of_letters, SidAlias};
use crate::sid::{
    all_numbers, sid_of_text, sub_authorities_fit, sub_authority_texts, SidView,
    MAX_SUB_AUTHORITIES,
};
use crate::text::{
    all_digits, decimal_text, decimal_value, free_of, join, lemma_decimal_text,
    lemma_digits_free_of, lemma_padded_decimal_text, lemma_split_join, split,
};
use vstd::prelude::*;

verus! {

/// The size in the head of a well-formed entry is a multiple of 4: the 8
/// bytes of the head and the bytes of the parts after it, rounded up to the
/// next multiple of 4.
pub proof fn lemma_ace_size(v: AceView)
    requires
        v.wf(),
    ensures
        v.header.ace_size % 4 == 0,
        v.header.ace_size == ACE_HEADER_SIZE + round_up_4(v.payload_len() as int),
        v.header.ace_size >= ACE_HEADER_SIZE + v.payload_len(),
        v.header.ace_size < ACE_HEADER_SIZE + v.payload_len() + 4,
{
}

/// The size of a well-formed ACL is the 8 bytes of its head and the sizes of
/// its entries.
pub proof fn lemma_acl_size(v: AclView)
    requires
        v.wf(),
    ensures
        v.acl_size == ACL_HEADER_SIZE + aces_size(v.ace_list),
        v.ace_count == v.ace_list.len(),
{
}

/// A text with more than 15 sub-authorities, or with a part after `S-` that
/// is not a decimal number, is not the text of a SID.
pub proof fn lemma_malformed_sid_text(s: Seq<char>)
    requires
        s.len() >= 2,
        split(s.skip(2), '-').len() > 2 + MAX_SUB_AUTHORITIES || !all_numbers(split(s.skip(2), '-')),
    ensures
        sid_of_text(s) is Err,
{
}

/// Every alias that the grammar takes for a SID is the alias that the SID
/// has: where two letters stand for a SID, under any domain, `alias` of that SID
/// gives the same two letters.
pub proof fn lemma_alias_coverage(a: char, b: char, domain: Option<Seq<u32>>)
    ensures
        sid_of_sddl(seq![a, b], domain) matches Ok(sid) ==> sid.wf() && (sid.alias() matches Some(
            alias,
        ) && alias.letters() == (a, b)),
{
    let s = seq![a, b];
    assert(s.len() == 2 && s[0] == a && s[1] == b);
    if sid_of_sddl(s, domain) is Ok {
        let alias = alias_of_letters(a, b)->0;
        lemma_alias_has_letters(a, b);
        lemma_alias_round_trip(alias, domain);
    }
}

/// The alias that two letters name has these letters.
pub proof fn lemma_alias_has_letters(a: char, b: char)
    ensures
        alias_of_letters(a, b) matches Some(alias) ==> alias.letters() == (a, b),
{
}

/// The two letters of an alias name the alias.
pub proof fn lemma_letters_name_alias(alias: SidAlias)
    ensures
        alias_of_letters(alias.letters().0, alias.letters().1) == Some(alias),
{
}

/// The SID that an alias stands for, under any domain, has that alias.
pub proof fn lemma_alias_round_trip(alias: SidAlias, domain: Option<Seq<u32>>)
    ensures
        sid_of_alias(alias, domain) matches Ok(sid) ==> sid.wf() && sid.alias() == Some(alias),
{
    lemma_authority_number_bytes(1);
    lemma_authority_number_bytes(3);
    lemma_authority_number_bytes(5);
    lemma_authority_number_bytes(15);
    lemma_authority_number_bytes(16);
    lemma_authority_number_bytes(18);
}

/// The decimal text of a number is free of `-`, is one digit or more, and
/// denotes the number.
proof fn lemma_sub_authority_text(subs: Seq<u32>, i: int)
    requires
        0 <= i < subs.len(),
    ensures
        sub_authority_texts(subs)[i].len() > 0,
        all_digits(sub_authority_texts(subs)[i]),
        free_of(sub_authority_texts(subs)[i], '-'),
        decimal_value(sub_authority_texts(subs)[i]) == subs[i],
{
    lemma_decimal_text(subs[i] as nat);
    lemma_padded_decimal_text(subs[i] as nat, 9);
    lemma_digits_free_of(sub_authority_texts(subs)[i], '-');
}

/// Reading the canonical text of a SID gives the SID back: for every SID with
/// one sub-authority or more, `try_from` of its `to_string` is the SID. So
/// every text that `to_string` can give reads as a SID whose text it is.
pub proof fn lemma_sid_text_round_trip(v: SidView)
    requires
        v.wf(),
        v.sub_authority.len() >= 1,
    ensures
        sid_of_text(v.text()) == Ok::<SidView, crate::error::SidFormatCause>(v),
{
    let s = v.text();
    let fields = v.text_fields();
    let subs = sub_authority_texts(v.sub_authority);
    let n = v.sub_authority.len() as int;
    let number = authority_number(v.authority);
    lemma_authority_bytes_number(v.authority);
    lemma_decimal_text(number);
    lemma_decimal_text(1);
    assert(decimal_text(1) =~= seq!['1']);
    assert(fields.len() == 2 + n);
    assert(fields[0] == seq!['1']);
    assert(fields[1] == decimal_text(number));
    assert forall|i: int| 0 <= i < fields.len() implies (#[trigger] fields[i]).len() > 0
        && all_digits(fields[i]) && free_of(fields[i], '-') by {
        if i >= 2 {
            assert(fields[i] == subs[i - 2]);
            lemma_sub_authority_text(v.sub_authority, i - 2);
        } else {
            lemma_digits_free_of(fields[i], '-');
        }
    }
    lemma_split_join(fields, '-');
    assert(s.skip(2) =~= join(fields, '-'));
    assert(s[0] == 'S' && s[1] == '-');
    let f = split(s.skip(2), '-');
    assert(f == fields);
    assert(all_numbers(f));
    assert(decimal_value(f[1]) == number);
    assert forall|i: int| 2 <= i < f.len() implies decimal_value(#[trigger] f[i]) <= u32::MAX by {
        assert(f[i] == subs[i - 2]);
        lemma_sub_authority_text(v.sub_authority, i - 2);
    }
    assert(sub_authorities_fit(f));
    let read = Seq::new((f.len() - 2) as nat, |i: int| decimal_value(f[i + 2]) as u32);
    assert forall|i: int| 0 <= i < n implies read[i] == v.sub_authority[i] by {
        assert(f[i + 2] == subs[i]);
        lemma_sub_authority_text(v.sub_authority, i);
    }
    assert(read =~= v.sub_authority);
}

} // verus!
