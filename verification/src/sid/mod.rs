//! Security identifiers: their binary form, their canonical text, and the
//! aliases that SDDL has for the well-known ones.
pub mod identifier_authority;
pub mod sid_alias;

use crate::bytes::{push_bytes, push_u32, read_u32, u32_at, u32_bytes};
use crate::error::{DecodeError, Error, Failure, SidFormatCause};
use crate::text::{
    all_digits, chars_of, decimal_text, decimal_value, is_number, join, lemma_join_push,
    padded_decimal_text, parse_decimal, push_all, push_decimal, push_padded_decimal, ranges_mark,
    split, split_ranges, string_of,
};
use identifier_authority::{
    authority_bytes, authority_number, IdentifierAuthority, APPLICATION_PACKAGE_AUTHORITY,
    AUTHENTICATION_AUTHORITY, AUTHORITY_LIMIT, MANDATORY_LABEL_AUTHORITY,
    SECURITY_CREATOR_SID_AUTHORITY, SECURITY_NT_AUTHORITY, SECURITY_WORLD_SID_AUTHORITY,
};
use sid_alias::{alias_of, SidAlias};
use vstd::prelude::*;

verus! {

/// The most sub-authorities that a SID can hold.
pub const MAX_SUB_AUTHORITIES: u8 = 15;

/// A SID as contracts see it: the six bytes of its authority and its
/// sub-authorities. The revision is always 1.
pub struct SidView {
    pub authority: Seq<u8>,
    pub sub_authority: Seq<u32>,
}

/// The bytes of a row of 32-bit numbers, each with its low byte first.
pub open spec fn words_bytes(w: Seq<u32>) -> Seq<u8>
    decreases w.len(),
{
    if w.len() == 0 {
        Seq::empty()
    } else {
        words_bytes(w.drop_last()) + u32_bytes(w.last() as int)
    }
}

/// The `n` 32-bit numbers that the bytes from `pos` on hold, each with its
/// low byte first.
pub open spec fn words_at(b: Seq<u8>, pos: int, n: nat) -> Seq<u32> {
    Seq::new(n, |i: int| u32_at(b, pos + 4 * i) as u32)
}

/// The texts of the sub-authorities in the canonical text of a SID: the first
/// and the last in their shortest decimal form, the others filled with zeros to
/// nine digits.
pub open spec fn sub_authority_texts(subs: Seq<u32>) -> Seq<Seq<char>> {
    Seq::new(
        subs.len(),
        |i: int|
            if i == 0 || i == subs.len() - 1 {
                decimal_text(subs[i] as nat)
            } else {
                padded_decimal_text(subs[i] as nat, 9)
            },
    )
}

impl SidView {
    /// Six bytes of authority and at most 15 sub-authorities.
    pub open spec fn wf(self) -> bool {
        self.authority.len() == 6 && self.sub_authority.len() <= 15
    }

    /// Bytes that the binary form takes.
    pub open spec fn raw_len(self) -> nat {
        8 + 4 * self.sub_authority.len()
    }

    /// The binary form: revision 1, the number of sub-authorities, the six
    /// bytes of the authority, and the sub-authorities with their low bytes
    /// first.
    pub open spec fn encoding(self) -> Seq<u8> {
        seq![1u8, self.sub_authority.len() as u8] + self.authority + words_bytes(
            self.sub_authority,
        )
    }

    /// The alias that SDDL has for the SID, if it has one.
    pub open spec fn alias(self) -> Option<SidAlias> {
        alias_of(authority_number(self.authority), self.sub_authority)
    }

    /// The numbers of the canonical text, from the revision on. Where there
    /// is no sub-authority, the last of them is empty.
    pub open spec fn text_fields(self) -> Seq<Seq<char>> {
        seq![seq!['1'], decimal_text(authority_number(self.authority))] + (if self.sub_authority.len()
            == 0 {
            seq![Seq::<char>::empty()]
        } else {
            sub_authority_texts(self.sub_authority)
        })
    }

    /// The canonical text: `S-1-`, the authority, and the sub-authorities,
    /// each after a `-`.
    pub open spec fn text(self) -> Seq<char> {
        seq!['S', '-'] + join(self.text_fields(), '-')
    }

    /// The SID as SDDL writes it: by its alias where it has one, and by its
    /// canonical text otherwise.
    pub open spec fn sddl_text(self) -> Seq<char> {
        match self.alias() {
            Some(a) => seq![a.letters().0, a.letters().1],
            None => self.text(),
        }
    }
}

/// The SID that the bytes from `pos` on hold, and the position after it.
pub open spec fn decode_sid(b: Seq<u8>, pos: int) -> Result<(SidView, int), DecodeError> {
    if pos + 8 > b.len() {
        Err(DecodeError::UnexpectedEnd)
    } else if b[pos] != 1 {
        Err(DecodeError::IllegalSidRevision)
    } else if b[pos + 1] > MAX_SUB_AUTHORITIES {
        Err(DecodeError::TooManySubAuthorities)
    } else if pos + 8 + 4 * b[pos + 1] > b.len() {
        Err(DecodeError::UnexpectedEnd)
    } else {
        Ok(
            (
                SidView {
                    authority: b.subrange(pos + 2, pos + 8),
                    sub_authority: words_at(b, pos + 8, b[pos + 1] as nat),
                },
                pos + 8 + 4 * b[pos + 1],
            ),
        )
    }
}

/// Whether each of the pieces is one digit or more, and digits only.
pub open spec fn all_numbers(f: Seq<Seq<char>>) -> bool {
    forall|i: int| 0 <= i < f.len() ==> (#[trigger] f[i]).len() > 0 && all_digits(f[i])
}

/// Whether each of the pieces from the third on denotes a number of 32 bits.
pub open spec fn sub_authorities_fit(f: Seq<Seq<char>>) -> bool {
    forall|i: int| 2 <= i < f.len() ==> decimal_value(#[trigger] f[i]) <= u32::MAX
}

/// The SID that a canonical text stands for, or why the text is none: the
/// text is `S-`, then the revision 1, the authority and one to fifteen
/// sub-authorities, all in decimal with `-` between them; the authority fits
/// in six bytes and each sub-authority in 32 bits.
pub open spec fn sid_of_text(s: Seq<char>) -> Result<SidView, SidFormatCause> {
    if !(s.len() >= 2 && s[0] == 'S' && s[1] == '-') {
        Err(SidFormatCause::PatternMismatch)
    } else {
        let f = split(s.skip(2), '-');
        if f.len() < 2 || !all_numbers(f) || f[0] != seq!['1'] {
            Err(SidFormatCause::PatternMismatch)
        } else if decimal_value(f[1]) >= AUTHORITY_LIMIT {
            Err(SidFormatCause::IllegalAuthority)
        } else if f.len() < 3 {
            Err(SidFormatCause::TooFewSubAuthorities)
        } else if !sub_authorities_fit(f) {
            Err(SidFormatCause::IllegalSubAuthority)
        } else if f.len() - 2 > MAX_SUB_AUTHORITIES {
            Err(SidFormatCause::TooManySubAuthorities)
        } else {
            Ok(
                SidView {
                    authority: authority_bytes(decimal_value(f[1])),
                    sub_authority: Seq::new(
                        (f.len() - 2) as nat,
                        |i: int| decimal_value(f[i + 2]) as u32,
                    ),
                },
            )
        }
    }
}

/// A security identifier: an authority and up to 15 sub-authorities.
#[derive(Debug, PartialEq, Eq)]
pub struct Sid {
    identifier_authority: IdentifierAuthority,
    sub_authority: Vec<u32>,
}

impl Sid {
    pub closed spec fn view(&self) -> SidView {
        SidView { authority: self.identifier_authority@, sub_authority: self.sub_authority@ }
    }

    #[verifier::type_invariant]
    pub closed spec fn inv(&self) -> bool {
        self.sub_authority@.len() <= 15
    }

    /// What the invariant of the type means for the view.
    pub proof fn lemma_inv(&self)
        requires
            self.inv(),
        ensures
            self@.wf(),
    {
        self.identifier_authority.lemma_view();
    }

    /// The SID with the given authority and sub-authorities.
    pub fn new(identifier_authority: IdentifierAuthority, sub_authority: &[u32]) -> (r: Sid)
        requires
            sub_authority@.len() <= MAX_SUB_AUTHORITIES,
        ensures
            r@ == (SidView { authority: identifier_authority@, sub_authority: sub_authority@ }),
            r@.wf(),
    {
        let mut subs: Vec<u32> = Vec::new();
        let mut i: usize = 0;
        while i < sub_authority.len()
            invariant
                i <= sub_authority.len(),
                subs@ == sub_authority@.take(i as int),
            decreases sub_authority.len() - i,
        {
            subs.push(sub_authority[i]);
            assert(sub_authority@.take(i + 1) =~= sub_authority@.take(i as int).push(
                sub_authority@[i as int],
            ));
            i += 1;
        }
        assert(sub_authority@.take(sub_authority.len() as int) =~= sub_authority@);
        proof {
            identifier_authority.lemma_view();
        }
        Sid { identifier_authority, sub_authority: subs }
    }

    /// The SID of the account or group with relative identifier `rid` in the
    /// domain with the given sub-authorities: under the NT authority, the
    /// sub-authority 21, those of the domain, and `rid`.
    pub fn new_with_domain(rid: u32, domain: &[u32]) -> (r: Sid)
        requires
            domain@.len() + 2 <= MAX_SUB_AUTHORITIES,
        ensures
            r@ == (SidView {
                authority: authority_bytes(SECURITY_NT_AUTHORITY as nat),
                sub_authority: seq![21u32] + domain@ + seq![rid],
            }),
            r@.wf(),
    {
        let mut d: Vec<u32> = Vec::new();
        d.push(21);
        let mut i: usize = 0;
        while i < domain.len()
            invariant
                i <= domain.len(),
                d@ == seq![21u32] + domain@.take(i as int),
            decreases domain.len() - i,
        {
            d.push(domain[i]);
            assert(seq![21u32] + domain@.take(i + 1) =~= (seq![21u32] + domain@.take(i as int)).push(
                domain@[i as int],
            ));
            i += 1;
        }
        assert(domain@.take(domain.len() as int) =~= domain@);
        d.push(rid);
        assert(d@ =~= seq![21u32] + domain@ + seq![rid]);
        let authority = IdentifierAuthority::from(SECURITY_NT_AUTHORITY);
        assert(authority@ =~= authority_bytes(SECURITY_NT_AUTHORITY as nat));
        Self::new(authority, d.as_slice())
    }

    /// The SID of the local group with relative identifier `rid`: under the
    /// NT authority, the sub-authorities 32 and `rid`.
    pub fn new_builtin(rid: u32) -> (r: Sid)
        ensures
            r@ == (SidView {
                authority: authority_bytes(SECURITY_NT_AUTHORITY as nat),
                sub_authority: seq![32u32, rid],
            }),
            r@.wf(),
    {
        let mut d: Vec<u32> = Vec::new();
        d.push(32);
        d.push(rid);
        assert(d@ =~= seq![32u32, rid]);
        let authority = IdentifierAuthority::from(SECURITY_NT_AUTHORITY);
        assert(authority@ =~= authority_bytes(SECURITY_NT_AUTHORITY as nat));
        Self::new(authority, d.as_slice())
    }

    /// The revision, which is 1.
    pub fn revision(&self) -> (r: u8)
        ensures
            r == 1,
    {
        1
    }

    pub fn sub_authority_count(&self) -> (r: u8)
        ensures
            r == self@.sub_authority.len(),
            self@.wf(),
    {
        proof {
            use_type_invariant(self);
            self.lemma_inv();
        }
        self.sub_authority.len() as u8
    }

    pub fn identifier_authority(&self) -> (r: &IdentifierAuthority)
        ensures
            r@ == self@.authority,
    {
        &self.identifier_authority
    }

    pub fn sub_authority(&self) -> (r: &Vec<u32>)
        ensures
            r@ == self@.sub_authority,
    {
        &self.sub_authority
    }

    /// Bytes that the binary form takes.
    #[allow(clippy::len_without_is_empty)]
    pub fn len(&self) -> (r: usize)
        ensures
            r == self@.raw_len(),
            r % 4 == 0,
            r <= 68,
            self@.wf(),
    {
        proof {
            use_type_invariant(self);
            self.lemma_inv();
        }
        8 + self.sub_authority.len() * 4
    }

    /// Bytes that the binary form takes.
    pub fn raw_size(&self) -> (r: u16)
        ensures
            r == self@.raw_len(),
            r % 4 == 0,
            r <= 68,
            self@.wf(),
    {
        self.len() as u16
    }

    /// The alias of the SID with the given authority and sub-authorities.
    pub fn alias_for(identifier_authority: &IdentifierAuthority, sub_authority: &[u32]) -> (r:
        Option<SidAlias>)
        ensures
            r == alias_of(identifier_authority.number(), sub_authority@),
    {
        let authority: u64 = identifier_authority.to_number();
        let n: usize = sub_authority.len();
        if authority == SECURITY_WORLD_SID_AUTHORITY as u64 {
            if n == 1 && sub_authority[0] == 0 {
                Some(SidAlias::WD)
            } else {
                None
            }
        } else if authority == SECURITY_CREATOR_SID_AUTHORITY as u64 {
            if n == 1 && sub_authority[0] == 0 {
                Some(SidAlias::CO)
            } else if n == 1 && sub_authority[0] == 1 {
                Some(SidAlias::CG)
            } else if n == 1 && sub_authority[0] == 4 {
                Some(SidAlias::OW)
            } else {
                None
            }
        } else if authority == SECURITY_NT_AUTHORITY as u64 {
            if n == 1 {
                match SidAlias::of_nt_sub_authority(sub_authority[0]) {
                    Some(a) => {
                        return Some(a);
                    },
                    None => {},
                }
            }
            if n == 6 && sub_authority[0] == 84 && sub_authority[1] == 0 && sub_authority[2] == 0
                && sub_authority[3] == 0 && sub_authority[4] == 0 && sub_authority[5] == 0 {
                Some(SidAlias::UD)
            } else if n >= 1 && sub_authority[0] == 21 {
                Self::domain_alias_for(sub_authority)
            } else if n == 2 && sub_authority[0] == 32 {
                Self::builtin_alias_for(sub_authority)
            } else {
                None
            }
        } else if authority == APPLICATION_PACKAGE_AUTHORITY as u64 {
            if n == 2 && sub_authority[0] == 2 && sub_authority[1] == 1 {
                Some(SidAlias::AC)
            } else {
                None
            }
        } else if authority == MANDATORY_LABEL_AUTHORITY as u64 {
            if n == 1 {
                SidAlias::of_label(sub_authority[0])
            } else {
                None
            }
        } else if authority == AUTHENTICATION_AUTHORITY as u64 {
            if n == 1 && sub_authority[0] == 1 {
                Some(SidAlias::AS)
            } else if n == 1 && sub_authority[0] == 2 {
                Some(SidAlias::SS)
            } else {
                None
            }
        } else {
            None
        }
    }

    /// The alias of a SID of a domain: that of its last sub-authority.
    pub fn domain_alias_for(sub_authority: &[u32]) -> (r: Option<SidAlias>)
        requires
            sub_authority@.len() >= 1,
            sub_authority@[0] == 21,
        ensures
            r == sid_alias::domain_alias_of(sub_authority@.last()),
    {
        SidAlias::of_domain_rid(sub_authority[sub_authority.len() - 1])
    }

    /// The alias of the SID of a local group: that of its second
    /// sub-authority.
    pub fn builtin_alias_for(sub_authority: &[u32]) -> (r: Option<SidAlias>)
        requires
            sub_authority@.len() == 2,
            sub_authority@[0] == 32,
        ensures
            r == sid_alias::builtin_alias_of(sub_authority@.last()),
    {
        SidAlias::of_builtin_rid(sub_authority[1])
    }

    /// The two letters that SDDL has for the SID with the given authority
    /// and sub-authorities, if it has an alias.
    pub fn sddl_alias(identifier_authority: &IdentifierAuthority, sub_authority: &[u32]) -> (r:
        Option<&'static str>)
        ensures
            match r {
                Some(name) => alias_of(identifier_authority.number(), sub_authority@) matches Some(
                    a,
                ) && name@ == seq![a.letters().0, a.letters().1],
                None => alias_of(identifier_authority.number(), sub_authority@) is None,
            },
    {
        match Self::alias_for(identifier_authority, sub_authority) {
            Some(a) => Some(a.short_name()),
            None => None,
        }
    }

    /// The two letters that SDDL has for a SID of a domain.
    pub fn sddl_domain_alias(sub_authority: &[u32]) -> (r: Option<&'static str>)
        requires
            sub_authority@.len() >= 1,
            sub_authority@[0] == 21,
        ensures
            match r {
                Some(name) => sid_alias::domain_alias_of(sub_authority@.last()) matches Some(a)
                    && name@ == seq![a.letters().0, a.letters().1],
                None => sid_alias::domain_alias_of(sub_authority@.last()) is None,
            },
    {
        match Self::domain_alias_for(sub_authority) {
            Some(a) => Some(a.short_name()),
            None => None,
        }
    }

    /// The two letters that SDDL has for the SID of a local group.
    pub fn sddl_builtin_alias(sub_authority: &[u32]) -> (r: Option<&'static str>)
        requires
            sub_authority@.len() == 2,
            sub_authority@[0] == 32,
        ensures
            match r {
                Some(name) => sid_alias::builtin_alias_of(sub_authority@.last()) matches Some(a)
                    && name@ == seq![a.letters().0, a.letters().1],
                None => sid_alias::builtin_alias_of(sub_authority@.last()) is None,
            },
    {
        match Self::builtin_alias_for(sub_authority) {
            Some(a) => Some(a.short_name()),
            None => None,
        }
    }

    /// The alias that SDDL has for the SID, if it has one.
    pub fn known_alias(&self) -> (r: Option<SidAlias>)
        ensures
            r == self@.alias(),
    {
        Self::alias_for(&self.identifier_authority, self.sub_authority.as_slice())
    }

    /// The two letters that SDDL has for the SID, if it has an alias.
    pub fn alias(&self) -> (r: Option<&'static str>)
        ensures
            match r {
                Some(name) => self@.alias() matches Some(a) && name@ == seq![
                    a.letters().0,
                    a.letters().1,
                ],
                None => self@.alias() is None,
            },
    {
        Self::sddl_alias(&self.identifier_authority, self.sub_authority.as_slice())
    }

    /// Appends the canonical text.
#[verifier::rlimit(30)]
    pub fn push_text(&self, out: &mut Vec<char>)
        ensures
            final(out)@ == old(out)@ + self@.text(),
    {
        proof {
            use_type_invariant(self);
        }
        let ghost v = self@;
        let ghost fields = v.text_fields();
        let ghost head = seq![seq!['1'], decimal_text(authority_number(v.authority))];
        let mut text: Vec<char> = Vec::new();
        text.push('1');
        text.push('-');
        push_decimal(&mut text, self.identifier_authority.to_number());
        proof {
            assert(head.drop_first() =~= seq![decimal_text(authority_number(v.authority))]);
            assert(join(head.drop_first(), '-') == decimal_text(authority_number(v.authority)));
            assert(text@ =~= join(head, '-'));
        }
        let n: usize = self.sub_authority.len();
        if n == 0 {
            text.push('-');
            proof {
                lemma_join_push(head, Seq::<char>::empty(), '-');
                assert(fields =~= head.push(Seq::<char>::empty()));
                assert(text@ =~= join(fields, '-'));
            }
        } else {
            let ghost subs = sub_authority_texts(v.sub_authority);
            let mut i: usize = 0;
            while i < n
                invariant
                    i <= n,
                    n == self.sub_authority@.len(),
                    v == self@,
                    subs == sub_authority_texts(v.sub_authority),
                    head.len() == 2,
                    text@ == join(head + subs.take(i as int), '-'),
                decreases n - i,
            {
                let ghost before = head + subs.take(i as int);
                text.push('-');
                if i == 0 || i == n - 1 {
                    push_decimal(&mut text, self.sub_authority[i] as u64);
                } else {
                    push_padded_decimal(&mut text, self.sub_authority[i] as u64, 9);
                }
                proof {
                    lemma_join_push(before, subs[i as int], '-');
                    assert(head + subs.take(i + 1) =~= before.push(subs[i as int]));
                    assert(text@ =~= join(before, '-') + seq!['-'] + subs[i as int]);
                }
                i += 1;
            }
            proof {
                assert(subs.take(n as int) =~= subs);
                assert(fields =~= head + subs);
            }
        }
        out.push('S');
        out.push('-');
        push_all(out, text.as_slice());
        assert(out@ =~= old(out)@ + v.text());
    }

    /// The canonical text: `S-1-`, the authority, and the sub-authorities,
    /// each after a `-`. All sub-authorities but the first and the last are
    /// filled with zeros to nine digits.
    pub fn to_string(&self) -> (r: String)
        ensures
            r@ == self@.text(),
    {
        let mut out: Vec<char> = Vec::new();
        self.push_text(&mut out);
        assert(out@ =~= self@.text());
        string_of(out.as_slice())
    }

    /// Appends the SID as SDDL writes it: its alias where it has one, and
    /// its canonical text otherwise.
    pub fn push_sddl(&self, out: &mut Vec<char>)
        ensures
            final(out)@ == old(out)@ + self@.sddl_text(),
    {
        match self.known_alias() {
            Some(a) => {
                let pair = a.letter_pair();
                out.push(pair.0);
                out.push(pair.1);
                assert(out@ =~= old(out)@ + self@.sddl_text());
            },
            None => {
                self.push_text(out);
            },
        }
    }

    /// The SID that the characters from `start` up to `end` are the
    /// canonical text of.
#[verifier::rlimit(30)]
    pub fn from_text(s: &[char], start: usize, end: usize) -> (r: Result<Sid, SidFormatCause>)
        requires
            start <= end <= s@.len(),
        ensures
            match r {
                Ok(sid) => sid_of_text(s@.subrange(start as int, end as int)) == Ok::<
                    SidView,
                    SidFormatCause,
                >(sid@) && sid@.wf(),
                Err(cause) => sid_of_text(s@.subrange(start as int, end as int)) == Err::<
                    SidView,
                    SidFormatCause,
                >(cause),
            },
    {
        let ghost t = s@.subrange(start as int, end as int);
        if !(end - start >= 2 && s[start] == 'S' && s[start + 1] == '-') {
            proof {
                if end - start >= 2 {
                    assert(t[0] == s@[start as int] && t[1] == s@[start + 1]);
                }
            }
            return Err(SidFormatCause::PatternMismatch);
        }
        assert(t[0] == s@[start as int] && t[1] == s@[start + 1]);
        assert(t.skip(2) =~= s@.subrange(start + 2, end as int));
        let ghost f = split(t.skip(2), '-');
        let ranges = split_ranges(s, start + 2, end, '-');
        let count: usize = ranges.len();
        if count < 2 {
            return Err(SidFormatCause::PatternMismatch);
        }
        let mut i: usize = 0;
        while i < count
            invariant
                i <= count,
                2 <= count == ranges@.len(),
                ranges_mark(s@, ranges@, f),
                t == s@.subrange(start as int, end as int),
                t.len() >= 2 && t[0] == 'S' && t[1] == '-',
                f == split(t.skip(2), '-'),
                forall|j: int| 0 <= j < i ==> (#[trigger] f[j]).len() > 0 && all_digits(f[j]),
            decreases count - i,
        {
            let range = ranges[i];
            assert(f[i as int] == s@.subrange(range.0 as int, range.1 as int));
            if !is_number(s, range.0, range.1) {
                assert(!all_numbers(f)) by {
                    assert(!(f[i as int].len() > 0 && all_digits(f[i as int])));
                }
                return Err(SidFormatCause::PatternMismatch);
            }
            i += 1;
        }
        assert(all_numbers(f));
        let first = ranges[0];
        assert(f[0] == s@.subrange(first.0 as int, first.1 as int));
        if !(first.1 - first.0 == 1 && s[first.0] == '1') {
            proof {
                if first.1 - first.0 == 1 {
                    assert(f[0][0] == s@[first.0 as int]);
                    assert(seq!['1'][0] == '1');
                } else {
                    assert(seq!['1'].len() == 1);
                }
            }
            return Err(SidFormatCause::PatternMismatch);
        }
        proof {
            assert(f[0][0] == s@[first.0 as int]);
            assert(f[0] =~= seq!['1']);
        }
        let second = ranges[1];
        assert(f[1] == s@.subrange(second.0 as int, second.1 as int));
        let authority: u64 = match parse_decimal(s, second.0, second.1, AUTHORITY_LIMIT - 1) {
            Some(v) => v,
            None => {
                assert(f[1].len() > 0 && all_digits(f[1]));
                return Err(SidFormatCause::IllegalAuthority);
            },
        };
        assert(decimal_value(f[1]) == authority);
        if count < 3 {
            return Err(SidFormatCause::TooFewSubAuthorities);
        }
        let mut subs: Vec<u32> = Vec::new();
        let mut k: usize = 2;
        while k < count
            invariant
                2 <= k <= count,
                count == ranges@.len(),
                ranges_mark(s@, ranges@, f),
                all_numbers(f),
                f.len() >= 3,
                f[0] == seq!['1'],
                decimal_value(f[1]) == authority,
                authority < AUTHORITY_LIMIT,
                t == s@.subrange(start as int, end as int),
                t.len() >= 2 && t[0] == 'S' && t[1] == '-',
                f == split(t.skip(2), '-'),
                subs@.len() == k - 2,
                forall|j: int| 2 <= j < k ==> decimal_value(#[trigger] f[j]) <= u32::MAX,
                forall|j: int| 0 <= j < k - 2 ==> #[trigger] subs@[j] == decimal_value(f[j + 2]),
            decreases count - k,
        {
            let range = ranges[k];
            assert(f[k as int] == s@.subrange(range.0 as int, range.1 as int));
            match parse_decimal(s, range.0, range.1, 0xffff_ffff) {
                Some(v) => {
                    subs.push(v as u32);
                },
                None => {
                    assert(f[k as int].len() > 0 && all_digits(f[k as int]));
                    assert(!sub_authorities_fit(f)) by {
                        assert(!(decimal_value(f[k as int]) <= u32::MAX));
                    }
                    return Err(SidFormatCause::IllegalSubAuthority);
                },
            }
            k += 1;
        }
        assert(sub_authorities_fit(f));
        if count - 2 > MAX_SUB_AUTHORITIES as usize {
            return Err(SidFormatCause::TooManySubAuthorities);
        }
        let identifier_authority = IdentifierAuthority::from_number(authority);
        proof {
            identifier_authority.lemma_view();
            assert(subs@ =~= Seq::new((f.len() - 2) as nat, |i: int| decimal_value(f[i + 2]) as u32));
        }
        Ok(Sid { identifier_authority, sub_authority: subs })
    }

    /// The SID that a canonical text stands for.
    pub fn try_from(value: &str) -> (r: Result<Sid, Error>)
        ensures
            match r {
                Ok(sid) => sid_of_text(value@) == Ok::<SidView, SidFormatCause>(sid@) && sid@.wf(),
                Err(e) => sid_of_text(value@) matches Err(cause) && e@ == Failure::IllegalSidFormat(
                    value@,
                    cause,
                ),
            },
    {
        let chars = chars_of(value);
        assert(chars@.subrange(0, chars@.len() as int) =~= chars@);
        match Self::from_text(chars.as_slice(), 0, chars.len()) {
            Ok(sid) => Ok(sid),
            Err(cause) => Err(Error::IllegalSidFormat(value.to_owned(), cause)),
        }
    }

    /// The SID that the bytes from `pos` on hold, and the position after it.
    pub fn read_from(bytes: &[u8], pos: usize) -> (r: Result<(Sid, usize), Error>)
        requires
            pos <= bytes@.len(),
        ensures
            match r {
                Ok((sid, next)) => decode_sid(bytes@, pos as int) == Ok::<
                    (SidView, int),
                    DecodeError,
                >((sid@, next as int)) && sid@.wf() && next <= bytes@.len(),
                Err(e) => decode_sid(bytes@, pos as int) matches Err(cause) && e@
                    == Failure::Decode(cause),
            },
    {
        let total: usize = bytes.len();
        if total - pos < 8 {
            return Err(Error::decode(DecodeError::UnexpectedEnd));
        }
        if bytes[pos] != 1 {
            return Err(Error::decode(DecodeError::IllegalSidRevision));
        }
        let count: u8 = bytes[pos + 1];
        if count > MAX_SUB_AUTHORITIES {
            return Err(Error::decode(DecodeError::TooManySubAuthorities));
        }
        let n: usize = count as usize;
        if total - pos - 8 < 4 * n {
            return Err(Error::decode(DecodeError::UnexpectedEnd));
        }
        let authority: [u8; 6] = [
            bytes[pos + 2],
            bytes[pos + 3],
            bytes[pos + 4],
            bytes[pos + 5],
            bytes[pos + 6],
            bytes[pos + 7],
        ];
        assert(authority@ =~= bytes@.subrange(pos + 2, pos + 8));
        let mut subs: Vec<u32> = Vec::new();
        let mut i: usize = 0;
        while i < n
            invariant
                i <= n <= 15,
                pos + 8 + 4 * n <= bytes.len(),
                subs@ == words_at(bytes@, pos + 8, i as nat),
            decreases n - i,
        {
            let word: u32 = read_u32(bytes, pos + 8 + 4 * i);
            subs.push(word);
            assert(subs@ =~= words_at(bytes@, pos + 8, (i + 1) as nat));
            i += 1;
        }
        let identifier_authority = IdentifierAuthority::from_bytes(authority);
        Ok((Sid { identifier_authority, sub_authority: subs }, pos + 8 + 4 * n))
    }

    /// The SID that the bytes begin with.
    pub fn from_bytes(bytes: &[u8]) -> (r: Result<Sid, Error>)
        ensures
            match r {
                Ok(sid) => decode_sid(bytes@, 0) matches Ok(found) && found.0 == sid@ && sid@.wf(),
                Err(e) => decode_sid(bytes@, 0) matches Err(cause) && e@ == Failure::Decode(cause),
            },
    {
        match Self::read_from(bytes, 0) {
            Ok((sid, _)) => Ok(sid),
            Err(e) => Err(e),
        }
    }

    /// Appends the binary form.
    pub fn write_to(&self, out: &mut Vec<u8>)
        ensures
            final(out)@ == old(out)@ + self@.encoding(),
            self@.wf(),
    {
        proof {
            use_type_invariant(self);
            self.lemma_inv();
        }
        let n: usize = self.sub_authority.len();
        out.push(1u8);
        out.push(n as u8);
        push_bytes(out, self.identifier_authority.value().as_slice());
        let ghost head = old(out)@ + (seq![1u8, n as u8] + self@.authority);
        assert(out@ =~= head);
        let mut i: usize = 0;
        while i < n
            invariant
                i <= n,
                n == self.sub_authority@.len(),
                out@ == head + words_bytes(self.sub_authority@.take(i as int)),
            decreases n - i,
        {
            push_u32(out, self.sub_authority[i]);
            proof {
                let next = self.sub_authority@.take(i + 1);
                assert(next.drop_last() =~= self.sub_authority@.take(i as int));
                assert(out@ =~= head + words_bytes(next));
            }
            i += 1;
        }
        assert(self.sub_authority@.take(n as int) =~= self.sub_authority@);
        assert(out@ =~= old(out)@ + self@.encoding());
    }

    /// The binary form.
    pub fn to_bytes(&self) -> (r: Vec<u8>)
        ensures
            r@ == self@.encoding(),
    {
        let mut out: Vec<u8> = Vec::new();
        self.write_to(&mut out);
        assert(out@ =~= self@.encoding());
        out
    }
}

impl Clone for Sid {
    fn clone(&self) -> (r: Sid)
        ensures
            r@ == self@,
    {
        proof {
            use_type_invariant(self);
        }
        Sid {
            identifier_authority: self.identifier_authority,
            sub_authority: self.sub_authority.clone(),
        }
    }
}

} // verus!
