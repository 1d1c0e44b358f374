//! Access control lists.
use crate::ace::{decode_ace, lemma_decode_ace_wf, Ace, AceView};
use crate::bytes::{push_u16, read_u16, u16_at, u16_bytes};
use crate::control_flags::{push_null_acl, ControlFlags};
use crate::error::{DecodeError, Error, Failure};
use crate::parser::{acl_of_sddl, acl_sddl_error_position, domain_view, parse_acl_sddl};
use crate::text::string_of;
use vstd::prelude::*;
use vstd::std_specs::cmp::PartialEqSpecImpl;

verus! {

/// Which of the two lists of a descriptor an ACL is.
#[derive(Clone, Copy, Debug, PartialEq, Eq, Structural)]
pub enum AclType {
    SACL,
    DACL,
}

impl AclType {
    /// The tag of the section: `S` or `D`.
    pub open spec fn tag(&self) -> char {
        match self {
            AclType::SACL => 'S',
            AclType::DACL => 'D',
        }
    }

    pub fn sddl_string(&self) -> (r: &'static str)
        ensures
            r@ == seq![self.tag()],
    {
        proof {
            reveal_strlit("S");
            reveal_strlit("D");
        }
        match self {
            AclType::SACL => {
                assert("S"@ =~= seq!['S']);
                "S"
            },
            AclType::DACL => {
                assert("D"@ =~= seq!['D']);
                "D"
            },
        }
    }
}

pub const ACL_HEADER_SIZE: u16 = 8;

/// The revision of an ACL.
#[derive(Clone, Copy, Debug, PartialEq, Eq, Structural)]
#[allow(non_camel_case_types)]
pub enum AclRevision {
    /// Revision 2: for lists without object-specific entries.
    ACL_REVISION,
    /// Revision 4: for lists of directory service objects, which may hold
    /// object-specific entries.
    ACL_REVISION_DS,
}

impl AclRevision {
    pub open spec fn spec_code(&self) -> u8 {
        match self {
            AclRevision::ACL_REVISION => 0x02,
            AclRevision::ACL_REVISION_DS => 0x04,
        }
    }

    pub open spec fn spec_from_code(code: u8) -> Option<AclRevision> {
        if code == 0x02 {
            Some(AclRevision::ACL_REVISION)
        } else if code == 0x04 {
            Some(AclRevision::ACL_REVISION_DS)
        } else {
            None
        }
    }

    /// The byte that stands for the revision.
    pub fn code(&self) -> (r: u8)
        ensures
            r == self.spec_code(),
    {
        match self {
            AclRevision::ACL_REVISION => 0x02,
            AclRevision::ACL_REVISION_DS => 0x04,
        }
    }

    /// The revision that a byte stands for.
    pub fn from_code(code: u8) -> (r: Option<AclRevision>)
        ensures
            r == Self::spec_from_code(code),
    {
        if code == 0x02 {
            Some(AclRevision::ACL_REVISION)
        } else if code == 0x04 {
            Some(AclRevision::ACL_REVISION_DS)
        } else {
            None
        }
    }
}

impl Default for AclRevision {
    fn default() -> (r: AclRevision)
        ensures
            r == AclRevision::ACL_REVISION,
    {
        AclRevision::ACL_REVISION
    }
}


/// What an ACL knows of the descriptor it belongs to: which of the two lists
/// it is there, and the control flags of the descriptor. This is needed to
/// write the ACL as SDDL and is no part of what the ACL says: any two contexts
/// count as equal.
#[derive(Clone, Copy, Debug)]
pub struct AclContext {
    pub acl_type: AclType,
    pub control_flags: ControlFlags,
}

impl PartialEq for AclContext {
    fn eq(&self, other: &AclContext) -> (r: bool) {
        true
    }
}

impl Eq for AclContext {

}

impl PartialEqSpecImpl for AclContext {
    open spec fn obeys_eq_spec() -> bool {
        true
    }

    open spec fn eq_spec(&self, other: &AclContext) -> bool {
        true
    }
}

/// An ACL as contracts see it.
pub struct AclView {
    pub acl_revision: AclRevision,
    pub acl_size: u16,
    pub ace_count: u16,
    pub ace_list: Seq<AceView>,
    pub acl_type: AclType,
    pub control_flags: ControlFlags,
}

/// The sizes of the entries, added up.
pub open spec fn aces_size(l: Seq<AceView>) -> nat
    decreases l.len(),
{
    if l.len() == 0 {
        0
    } else {
        aces_size(l.drop_last()) + l.last().header.ace_size as nat
    }
}

/// The binary forms of the entries, one after the other.
pub open spec fn aces_bytes(l: Seq<AceView>) -> Seq<u8>
    decreases l.len(),
{
    if l.len() == 0 {
        Seq::empty()
    } else {
        aces_bytes(l.drop_last()) + l.last().encoding()
    }
}

/// The entries as SDDL writes them: each in brackets, one after the other.
pub open spec fn aces_text(l: Seq<AceView>) -> Seq<char>
    decreases l.len(),
{
    if l.len() == 0 {
        Seq::empty()
    } else {
        aces_text(l.drop_last()) + seq!['('] + l.last().sddl_text() + seq![')']
    }
}

pub open spec fn all_aces_wf(l: Seq<AceView>) -> bool {
    forall|i: int| 0 <= i < l.len() ==> (#[trigger] l[i]).wf()
}

impl AclView {
    /// The count is that of the entries, each entry is well-formed, and the
    /// size is 8 for the head and the sizes of the entries.
    pub open spec fn wf(self) -> bool {
        &&& self.ace_count == self.ace_list.len()
        &&& all_aces_wf(self.ace_list)
        &&& self.acl_size == ACL_HEADER_SIZE + aces_size(self.ace_list)
    }

    /// The binary form: revision, a zero byte, size, count, two zero bytes,
    /// and the entries.
    pub open spec fn encoding(self) -> Seq<u8> {
        seq![self.acl_revision.spec_code(), 0u8] + u16_bytes(self.acl_size as int) + u16_bytes(
            self.ace_count as int,
        ) + seq![0u8, 0u8] + aces_bytes(self.ace_list)
    }

    /// The ACL as SDDL writes it by itself: the tag of its kind, `:`, the
    /// flags of its context, and the entries.
    pub open spec fn sddl_text(self) -> Seq<char> {
        seq![self.acl_type.tag(), ':'] + self.control_flags.sddl_text(self.acl_type) + aces_text(
            self.ace_list,
        )
    }

    /// The ACL as reading its binary form gives it: with each entry as
    /// reading gives it, and in the given context.
    pub open spec fn normalized(self, control_flags: ControlFlags, acl_type: AclType) -> AclView {
        AclView {
            ace_list: self.ace_list.map_values(|a: AceView| a.normalized()),
            acl_type,
            control_flags,
            ..self
        }
    }
}

/// The first `n` entries that the bytes from `pos` on hold, and the position
/// after them.
pub open spec fn decode_aces(b: Seq<u8>, pos: int, n: nat) -> Result<
    (Seq<AceView>, int),
    DecodeError,
>
    decreases n,
{
    if n == 0 {
        Ok((Seq::empty(), pos))
    } else {
        match decode_aces(b, pos, (n - 1) as nat) {
            Err(e) => Err(e),
            Ok((l, q)) => match decode_ace(b, q) {
                Err(e) => Err(e),
                Ok((a, next)) => Ok((l.push(a), next)),
            },
        }
    }
}

/// The ACL that the bytes from `pos` on hold, in the given context, and the
/// position after its last entry. As many entries are read as the head
/// counts, each where the one before it ends; together with the head they may
/// not take more room than the size in the head says. The ACL that is read has
/// the size of its head and its entries.
pub open spec fn decode_acl(
    b: Seq<u8>,
    pos: int,
    control_flags: ControlFlags,
    acl_type: AclType,
) -> Result<(AclView, int), DecodeError> {
    if pos + 8 > b.len() {
        Err(DecodeError::UnexpectedEnd)
    } else {
        match AclRevision::spec_from_code(b[pos]) {
            None => Err(DecodeError::IllegalAclRevision),
            Some(acl_revision) => {
                let size = u16_at(b, pos + 2);
                let count = u16_at(b, pos + 4);
                match decode_aces(b, pos + 8, count as nat) {
                    Err(e) => Err(e),
                    Ok((l, next)) => if next - pos > size {
                        Err(DecodeError::IllegalAclSize)
                    } else {
                        Ok(
                            (
                                AclView {
                                    acl_revision,
                                    acl_size: (ACL_HEADER_SIZE + aces_size(l)) as u16,
                                    ace_count: count as u16,
                                    ace_list: l,
                                    acl_type,
                                    control_flags,
                                },
                                next,
                            ),
                        )
                    },
                }
            },
        }
    }
}

/// Once an entry cannot be read, no longer row of entries can.
pub proof fn lemma_decode_aces_fails(b: Seq<u8>, pos: int, k: nat, n: nat)
    requires
        k <= n,
        decode_aces(b, pos, k) is Err,
    ensures
        decode_aces(b, pos, n) == decode_aces(b, pos, k),
    decreases n,
{
    if k < n {
        lemma_decode_aces_fails(b, pos, k, (n - 1) as nat);
    }
}

/// The entries that are read lie one after the other from `pos` on, and each
/// is well-formed.
pub proof fn lemma_decode_aces(b: Seq<u8>, pos: int, n: nat)
    requires
        0 <= pos,
    ensures
        decode_aces(b, pos, n) matches Ok(found) ==> found.0.len() == n && all_aces_wf(found.0)
            && found.1 >= pos + aces_size(found.0) && found.1 <= b.len() + pos,
    decreases n,
{
    if n > 0 {
        lemma_decode_aces(b, pos, (n - 1) as nat);
        match decode_aces(b, pos, (n - 1) as nat) {
            Err(e) => {},
            Ok((l, q)) => {
                match decode_ace(b, q) {
                    Err(e) => {},
                    Ok((a, next)) => {
                        lemma_decode_ace_wf(b, q);
                        let all = l.push(a);
                        assert(all.drop_last() =~= l);
                        assert forall|i: int| 0 <= i < all.len() implies (#[trigger] all[i]).wf() by {
                            if i < l.len() {
                                assert(all[i] == l[i]);
                            }
                        }
                    },
                }
            },
        }
    }
}

/// Adding up the sizes of a shorter row of entries gives no more.
pub proof fn lemma_aces_size_take(l: Seq<AceView>, k: int)
    requires
        0 <= k <= l.len(),
    ensures
        aces_size(l.take(k)) <= aces_size(l),
    decreases l.len() - k,
{
    if k < l.len() {
        lemma_aces_size_take(l, k + 1);
        assert(l.take(k + 1).drop_last() =~= l.take(k));
    } else {
        assert(l.take(k) =~= l);
    }
}

pub open spec fn ace_views(l: Seq<Ace>) -> Seq<AceView> {
    l.map_values(|a: Ace| a@)
}

/// An access control list: entries in order, under a revision.
#[derive(Debug, PartialEq, Eq)]
pub struct Acl {
    acl_revision: AclRevision,
    acl_size: u16,
    ace_count: u16,
    ace_list: Vec<Ace>,
    context: AclContext,
}

impl Acl {
    pub closed spec fn view(&self) -> AclView {
        AclView {
            acl_revision: self.acl_revision,
            acl_size: self.acl_size,
            ace_count: self.ace_count,
            ace_list: ace_views(self.ace_list@),
            acl_type: self.context.acl_type,
            control_flags: self.context.control_flags,
        }
    }

    #[verifier::type_invariant]
    pub closed spec fn inv(&self) -> bool {
        self@.wf()
    }

    /// What the invariant of the type means for the view.
    pub proof fn lemma_inv(&self)
        requires
            self.inv(),
        ensures
            self@.wf(),
    {
    }

    /// Whether `new` takes the entries: they are at most 65535, and their
    /// sizes and the 8 bytes of the head add up to at most 65535.
    pub open spec fn spec_fits(l: Seq<AceView>) -> bool {
        l.len() <= u16::MAX && ACL_HEADER_SIZE + aces_size(l) <= u16::MAX
    }

    /// The sizes of the entries and of the head, added up; nothing where the
    /// entries do not fit in one ACL.
    pub fn total_size(ace_list: &Vec<Ace>) -> (r: Option<u16>)
        ensures
            match r {
                Some(size) => Self::spec_fits(ace_views(ace_list@)) && size == ACL_HEADER_SIZE
                    + aces_size(ace_views(ace_list@)) && all_aces_wf(ace_views(ace_list@)),
                None => !Self::spec_fits(ace_views(ace_list@)),
            },
    {
        let ghost l = ace_views(ace_list@);
        let n: usize = ace_list.len();
        let mut total: u32 = 8;
        let mut i: usize = 0;
        while i < n
            invariant
                i <= n,
                n == ace_list@.len(),
                l == ace_views(ace_list@),
                total == ACL_HEADER_SIZE + aces_size(l.take(i as int)),
                total <= u16::MAX,
                forall|j: int| 0 <= j < i ==> (#[trigger] l[j]).wf(),
            decreases n - i,
        {
            let size: u16 = ace_list[i].raw_size();
            proof {
                assert(l[i as int] == ace_list@[i as int]@);
                assert(l.take(i + 1).drop_last() =~= l.take(i as int));
                lemma_aces_size_take(l, i + 1);
            }
            if total + size as u32 > 0xffff {
                return None;
            }
            total = total + size as u32;
            i += 1;
        }
        assert(l.take(n as int) =~= l);
        if n > 0xffff {
            return None;
        }
        Some(total as u16)
    }

    /// The ACL with the given entries. Its size is 8 for the head and the
    /// sizes of the entries.
    pub fn new(
        acl_revision: AclRevision,
        acl_type: AclType,
        control_flags: ControlFlags,
        ace_list: Vec<Ace>,
    ) -> (r: Acl)
        requires
            Self::spec_fits(ace_views(ace_list@)),
        ensures
            r@.wf(),
            r@ == (AclView {
                acl_revision,
                acl_size: (ACL_HEADER_SIZE + aces_size(ace_views(ace_list@))) as u16,
                ace_count: ace_list@.len() as u16,
                ace_list: ace_views(ace_list@),
                acl_type,
                control_flags,
            }),
    {
        let acl_size: u16 = Self::total_size(&ace_list).unwrap();
        let ace_count: u16 = ace_list.len() as u16;
        Acl {
            acl_revision,
            acl_size,
            ace_count,
            ace_list,
            context: AclContext { acl_type, control_flags },
        }
    }

    pub fn acl_revision(&self) -> (r: &AclRevision)
        ensures
            *r == self@.acl_revision,
    {
        &self.acl_revision
    }

    pub fn acl_size(&self) -> (r: &u16)
        ensures
            *r == self@.acl_size,
            *r == ACL_HEADER_SIZE + aces_size(self@.ace_list),
            self@.wf(),
    {
        proof {
            use_type_invariant(self);
        }
        &self.acl_size
    }

    pub fn ace_count(&self) -> (r: &u16)
        ensures
            *r == self@.ace_count,
            *r == self@.ace_list.len(),
            self@.wf(),
    {
        proof {
            use_type_invariant(self);
        }
        &self.ace_count
    }

    pub fn ace_list(&self) -> (r: &Vec<Ace>)
        ensures
            ace_views(r@) == self@.ace_list,
    {
        &self.ace_list
    }

    pub fn acl_type(&self) -> (r: &AclType)
        ensures
            *r == self@.acl_type,
    {
        &self.context.acl_type
    }

    pub fn control_flags(&self) -> (r: &ControlFlags)
        ensures
            *r == self@.control_flags,
    {
        &self.context.control_flags
    }

    /// The ACL that an SDDL text of one section stands for: `D:` or `S:`,
    /// the flags and the entries.
    pub fn from_sddl(value: &str, domain_rid: Option<&[u32]>) -> (r: Result<Acl, Error>)
        ensures
            match r {
                Ok(acl) => acl_of_sddl(value@, domain_view(domain_rid)) == Ok::<AclView, Failure>(
                    acl@,
                ) && acl@.wf(),
                Err(e) => acl_of_sddl(value@, domain_view(domain_rid)) == Err::<AclView, Failure>(
                    e@,
                ) && (e matches Error::ParseError(at) ==> at.position == acl_sddl_error_position(
                    value@,
                    domain_view(domain_rid),
                )),
            },
    {
        parse_acl_sddl(value, domain_rid)
    }

    /// Appends the entries as SDDL writes them: each in brackets.
    pub fn push_aces(&self, out: &mut Vec<char>)
        ensures
            final(out)@ == old(out)@ + aces_text(self@.ace_list),
    {
        let ghost l = self@.ace_list;
        let n: usize = self.ace_list.len();
        let mut i: usize = 0;
        assert(aces_text(l.take(0)) =~= Seq::<char>::empty());
        while i < n
            invariant
                i <= n,
                n == self.ace_list@.len(),
                l == self@.ace_list,
                out@ == old(out)@ + aces_text(l.take(i as int)),
            decreases n - i,
        {
            out.push('(');
            self.ace_list[i].push_sddl(out);
            out.push(')');
            proof {
                assert(l[i as int] == self.ace_list@[i as int]@);
                let next = l.take(i + 1);
                assert(next.drop_last() =~= l.take(i as int));
                assert(next.last() == l[i as int]);
                assert(out@ =~= old(out)@ + aces_text(next));
            }
            i += 1;
        }
        assert(l.take(n as int) =~= l);
    }

    /// The entries as SDDL writes them: each in brackets, one after the
    /// other.
    pub fn to_string(&self) -> (r: String)
        ensures
            r@ == aces_text(self@.ace_list),
    {
        let mut out: Vec<char> = Vec::new();
        self.push_aces(&mut out);
        assert(out@ =~= aces_text(self@.ace_list));
        string_of(out.as_slice())
    }

    /// The ACL as SDDL writes it by itself: the tag of its kind, `:`, the
    /// flags of its context, and the entries.
    pub fn sddl_string(&self) -> (r: String)
        ensures
            r@ == self@.sddl_text(),
    {
        let ghost v = self@;
        let mut out: Vec<char> = Vec::new();
        match self.context.acl_type {
            AclType::SACL => {
                out.push('S');
            },
            AclType::DACL => {
                out.push('D');
            },
        }
        out.push(':');
        assert(out@ =~= seq![v.acl_type.tag(), ':']);
        if self.context.control_flags.bits() == 0 {
            push_null_acl(&mut out);
        } else {
            self.context.control_flags.push_acl_flags(&mut out, self.context.acl_type);
        }
        assert(out@ =~= seq![v.acl_type.tag(), ':'] + v.control_flags.sddl_text(v.acl_type));
        self.push_aces(&mut out);
        assert(out@ =~= v.sddl_text());
        string_of(out.as_slice())
    }

    /// The ACL that the bytes from `pos` on hold, in the given context, and
    /// the position after its last entry.
#[verifier::rlimit(30)]
    pub fn read_from(bytes: &[u8], pos: usize, control_flags: ControlFlags, acl_type: AclType) -> (r:
        Result<(Acl, usize), Error>)
        requires
            pos <= bytes@.len(),
        ensures
            match r {
                Ok((acl, next)) => decode_acl(bytes@, pos as int, control_flags, acl_type) == Ok::<
                    (AclView, int),
                    DecodeError,
                >((acl@, next as int)) && acl@.wf() && next <= bytes@.len(),
                Err(e) => decode_acl(bytes@, pos as int, control_flags, acl_type) matches Err(cause)
                    && e@ == Failure::Decode(cause),
            },
    {
        let total: usize = bytes.len();
        if total - pos < 8 {
            return Err(Error::decode(DecodeError::UnexpectedEnd));
        }
        let acl_revision: AclRevision = match AclRevision::from_code(bytes[pos]) {
            Some(revision) => revision,
            None => {
                return Err(Error::decode(DecodeError::IllegalAclRevision));
            },
        };
        let size: u16 = read_u16(bytes, pos + 2);
        let count: u16 = read_u16(bytes, pos + 4);
        let mut ace_list: Vec<Ace> = Vec::new();
        let mut q: usize = pos + 8;
        let mut i: u16 = 0;
        assert(ace_views(ace_list@) =~= Seq::<AceView>::empty());
        while i < count
            invariant
                i <= count,
                pos + 8 <= q <= bytes.len(),
                count == u16_at(bytes@, pos + 4),
                AclRevision::spec_from_code(bytes@[pos as int]) == Some(acl_revision),
                decode_aces(bytes@, pos + 8, i as nat) == Ok::<(Seq<AceView>, int), DecodeError>(
                    (ace_views(ace_list@), q as int),
                ),
                ace_list@.len() == i,
            decreases count - i,
        {
            let (ace, next) = match Ace::read_from(bytes, q) {
                Ok(found) => found,
                Err(e) => {
                    proof {
                        let cause = decode_ace(bytes@, q as int)->Err_0;
                        assert(decode_aces(bytes@, pos + 8, i as nat) is Ok);
                        assert(decode_aces(bytes@, pos + 8, (i + 1) as nat) == Err::<
                            (Seq<AceView>, int),
                            DecodeError,
                        >(cause));
                        lemma_decode_aces_fails(bytes@, pos + 8, (i + 1) as nat, count as nat);
                        assert(u16_at(bytes@, pos + 4) == count);
                    }
                    return Err(e);
                },
            };
            proof {
                assert(ace_views(ace_list@.push(ace)) =~= ace_views(ace_list@).push(ace@));
            }
            ace_list.push(ace);
            q = next;
            i += 1;
        }
        proof {
            lemma_decode_aces(bytes@, pos + 8, count as nat);
        }
        if q - pos > size as usize {
            return Err(Error::decode(DecodeError::IllegalAclSize));
        }
        let acl_size: u16 = Self::total_size(&ace_list).unwrap();
        let acl = Acl {
            acl_revision,
            acl_size,
            ace_count: count,
            ace_list,
            context: AclContext { acl_type, control_flags },
        };
        Ok((acl, q))
    }

    /// Appends the binary form.
    pub fn write_to(&self, out: &mut Vec<u8>)
        ensures
            final(out)@ == old(out)@ + self@.encoding(),
            self@.wf(),
    {
        proof {
            use_type_invariant(self);
        }
        let ghost v = self@;
        let ghost base = out@;
        out.push(self.acl_revision.code());
        out.push(0u8);
        push_u16(out, self.acl_size);
        push_u16(out, self.ace_count);
        out.push(0u8);
        out.push(0u8);
        let ghost head = seq![v.acl_revision.spec_code(), 0u8] + u16_bytes(v.acl_size as int)
            + u16_bytes(v.ace_count as int) + seq![0u8, 0u8];
        assert(out@ =~= base + head);
        let ghost l = v.ace_list;
        let n: usize = self.ace_list.len();
        let mut i: usize = 0;
        assert(aces_bytes(l.take(0)) =~= Seq::<u8>::empty());
        while i < n
            invariant
                i <= n,
                n == self.ace_list@.len(),
                l == ace_views(self.ace_list@),
                out@ == base + head + aces_bytes(l.take(i as int)),
            decreases n - i,
        {
            self.ace_list[i].write_to(out);
            proof {
                assert(l[i as int] == self.ace_list@[i as int]@);
                let next = l.take(i + 1);
                assert(next.drop_last() =~= l.take(i as int));
                assert(next.last() == l[i as int]);
                assert(out@ =~= base + head + aces_bytes(next));
            }
            i += 1;
        }
        assert(l.take(n as int) =~= l);
        assert(out@ =~= base + v.encoding());
    }

    /// The binary form.
    pub fn to_bytes(&self) -> (r: Vec<u8>)
        ensures
            r@ == self@.encoding(),
    {
        let mut out: Vec<u8> = Vec::new();
        self.write_to(&mut out);
        assert(out@ =~= self@.encoding());
        out
    }
}

impl Clone for Acl {
    fn clone(&self) -> (r: Acl)
        ensures
            r@ == self@,
    {
        proof {
            use_type_invariant(self);
        }
        let mut ace_list: Vec<Ace> = Vec::new();
        let n: usize = self.ace_list.len();
        let mut i: usize = 0;
        while i < n
            invariant
                i <= n,
                n == self.ace_list@.len(),
                ace_list@.len() == i,
                ace_views(ace_list@) == ace_views(self.ace_list@).take(i as int),
            decreases n - i,
        {
            let ace = self.ace_list[i].clone();
            proof {
                let done = ace_views(ace_list@);
                let next = ace_views(ace_list@.push(ace));
                let all = ace_views(self.ace_list@);
                assert forall|j: int| 0 <= j < next.len() implies next[j] == all.take(i + 1)[j] by {
                    if j < i {
                        assert(next[j] == done[j]);
                        assert(done[j] == all.take(i as int)[j]);
                    }
                }
                assert(next =~= all.take(i + 1));
            }
            ace_list.push(ace);
            i += 1;
        }
        assert(ace_views(self.ace_list@).take(n as int) =~= ace_views(self.ace_list@));
        Acl {
            acl_revision: self.acl_revision,
            acl_size: self.acl_size,
            ace_count: self.ace_count,
            ace_list,
            context: self.context,
        }
    }
}

} // verus!
