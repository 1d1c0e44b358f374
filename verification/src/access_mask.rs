//! The rights that an access control entry speaks of.
use crate::text::{chars_of, code_if, hex_field, parse_hex, push_code_after, push_code_if, string_of};
use crate::error::{Error, SyntaxCause, SyntaxError};
use vstd::prelude::*;

verus! {

pub const GENERIC_READ: u32 = 0x8000_0000;

pub const GENERIC_WRITE: u32 = 0x0400_0000;

pub const GENERIC_EXECUTE: u32 = 0x2000_0000;

pub const GENERIC_ALL: u32 = 0x1000_0000;

pub const MAXIMUM_ALLOWED: u32 = 0x0200_0000;

pub const ACCESS_SYSTEM_SECURITY: u32 = 0x0100_0000;

/// The right to wait on the object.
pub const SYNCHRONIZE: u32 = 0x0010_0000;

/// The right to change the owner of the object.
pub const WRITE_OWNER: u32 = 0x0008_0000;

/// The right to change the DACL of the object.
pub const WRITE_DACL: u32 = 0x0004_0000;

/// The right to read the security descriptor of the object.
pub const READ_CONTROL: u32 = 0x0002_0000;

/// The right to delete the object.
pub const DELETE: u32 = 0x0001_0000;

pub const CONTROL_ACCESS: u32 = 0x0000_0100;

pub const LIST_OBJECT: u32 = 0x0000_0080;

pub const DELETE_TREE: u32 = 0x0000_0040;

pub const WRITE_PROPERTY: u32 = 0x0000_0020;

pub const READ_PROPERTY: u32 = 0x0000_0010;

pub const SELF_WRITE: u32 = 0x0000_0008;

pub const LIST_CHILDREN: u32 = 0x0000_0004;

pub const DELETE_CHILD: u32 = 0x0000_0002;

pub const CREATE_CHILD: u32 = 0x0000_0001;

/// A principal with a lower mandatory level than the object cannot write to
/// the object.
pub const SYSTEM_MANDATORY_LABEL_NO_WRITE_UP: u32 = 0x0000_0001;

/// A principal with a lower mandatory level than the object cannot read the
/// object.
pub const SYSTEM_MANDATORY_LABEL_NO_READ_UP: u32 = 0x0000_0002;

/// A principal with a lower mandatory level than the object cannot execute
/// the object.
pub const SYSTEM_MANDATORY_LABEL_NO_EXECUTE_UP: u32 = 0x0000_0004;

pub const ADS_RIGHT_DS_CREATE_CHILD: u32 = 0x0000_0001;

pub const ADS_RIGHT_DS_DELETE_CHILD: u32 = 0x0000_0002;

pub const ADS_RIGHT_ACTRL_DS_LIST: u32 = 0x0000_0004;

pub const ADS_RIGHT_DS_SELF: u32 = 0x0000_0008;

pub const ADS_RIGHT_DS_READ_PROP: u32 = 0x0000_0010;

pub const ADS_RIGHT_DS_WRITE_PROP: u32 = 0x0000_0020;

pub const ADS_RIGHT_DS_DELETE_TREE: u32 = 0x0000_0040;

pub const ADS_RIGHT_DS_LIST_OBJECT: u32 = 0x0000_0080;

pub const ADS_RIGHT_DS_CONTROL_ACCESS: u32 = 0x0000_0100;

/// Synchronize, the four standard rights that follow it, delete, and all
/// nine object-specific rights.
pub const FILE_ALL: u32 = 0x001F_01FF;

/// Synchronize, read control, list object, write property.
pub const FILE_EXECUTE: u32 = 0x0012_00A0;

/// Synchronize, read control, control access, read property, list children,
/// delete child.
pub const FILE_WRITE: u32 = 0x0012_0116;

/// Synchronize, read control, list object, self write, create child.
pub const FILE_READ: u32 = 0x0012_0089;

/// Write owner, write DACL, read control, delete, and the six lowest
/// object-specific rights.
pub const KEY_ALL: u32 = 0x000F_003F;

/// Read control, read property, self write, create child.
pub const KEY_READ: u32 = 0x0002_0019;

/// Read control, list children, delete child.
pub const KEY_WRITE: u32 = 0x0002_0006;

/// Read control, read property, self write, create child.
pub const KEY_EXECUTE: u32 = 0x0002_0019;

/// A set of rights. A source may set any bit, so every 32-bit value is a set
/// of rights.
#[derive(Clone, Copy, Debug, PartialEq, Eq, Structural)]
pub struct AccessMask {
    pub bits: u32,
}

/// The rights that a two-letter code of SDDL stands for.
pub open spec fn rights_of_code(a: char, b: char) -> Option<u32> {
    if a == 'G' && b == 'A' {
        Some(GENERIC_ALL)
    } else if a == 'G' && b == 'R' {
        Some(GENERIC_READ)
    } else if a == 'G' && b == 'W' {
        Some(GENERIC_WRITE)
    } else if a == 'G' && b == 'X' {
        Some(GENERIC_EXECUTE)
    } else if a == 'M' && b == 'A' {
        Some(MAXIMUM_ALLOWED)
    } else if a == 'A' && b == 'S' {
        Some(ACCESS_SYSTEM_SECURITY)
    } else if a == 'S' && b == 'Y' {
        Some(SYNCHRONIZE)
    } else if a == 'W' && b == 'O' {
        Some(WRITE_OWNER)
    } else if a == 'W' && b == 'D' {
        Some(WRITE_DACL)
    } else if a == 'R' && b == 'C' {
        Some(READ_CONTROL)
    } else if a == 'S' && b == 'D' {
        Some(DELETE)
    } else if a == 'C' && b == 'R' {
        Some(CONTROL_ACCESS)
    } else if a == 'L' && b == 'O' {
        Some(LIST_OBJECT)
    } else if a == 'D' && b == 'T' {
        Some(DELETE_TREE)
    } else if a == 'W' && b == 'P' {
        Some(WRITE_PROPERTY)
    } else if a == 'R' && b == 'P' {
        Some(READ_PROPERTY)
    } else if a == 'S' && b == 'W' {
        Some(SELF_WRITE)
    } else if a == 'L' && b == 'C' {
        Some(LIST_CHILDREN)
    } else if a == 'D' && b == 'C' {
        Some(DELETE_CHILD)
    } else if a == 'C' && b == 'C' {
        Some(CREATE_CHILD)
    } else if a == 'F' && b == 'A' {
        Some(FILE_ALL)
    } else if a == 'F' && b == 'R' {
        Some(FILE_READ)
    } else if a == 'F' && b == 'W' {
        Some(FILE_WRITE)
    } else if a == 'F' && b == 'X' {
        Some(FILE_EXECUTE)
    } else if a == 'K' && b == 'A' {
        Some(KEY_ALL)
    } else if a == 'K' && b == 'R' {
        Some(KEY_READ)
    } else if a == 'K' && b == 'W' {
        Some(KEY_WRITE)
    } else if a == 'K' && b == 'X' {
        Some(KEY_EXECUTE)
    } else if a == 'N' && b == 'W' {
        Some(SYSTEM_MANDATORY_LABEL_NO_WRITE_UP)
    } else if a == 'N' && b == 'R' {
        Some(SYSTEM_MANDATORY_LABEL_NO_READ_UP)
    } else if a == 'N' && b == 'X' {
        Some(SYSTEM_MANDATORY_LABEL_NO_EXECUTE_UP)
    } else {
        None
    }
}

/// The rights that a row of two-letter codes stands for, if the text is such
/// a row: the union of the rights of its codes.
pub open spec fn rights_of_codes(s: Seq<char>) -> Option<u32>
    decreases s.len(),
{
    if s.len() == 0 {
        Some(0u32)
    } else if s.len() == 1 {
        None
    } else {
        match (
            rights_of_codes(s.take(s.len() - 2)),
            rights_of_code(s[s.len() - 2], s[s.len() - 1]),
        ) {
            (Some(before), Some(rights)) => Some(before | rights),
            _ => None,
        }
    }
}

/// Whether a text begins with `0x`.
pub open spec fn is_hex_literal(s: Seq<char>) -> bool {
    s.len() >= 2 && s[0] == '0' && s[1] == 'x'
}

/// The rights that a text of SDDL stands for: the value of a `0x` number of
/// at most 32 bits, or the union of a row of two-letter codes.
pub open spec fn rights_of_text(s: Seq<char>) -> Option<u32> {
    if is_hex_literal(s) {
        match hex_field(s.skip(2), 0xffff_ffff) {
            Some(v) => Some(v as u32),
            None => None,
        }
    } else {
        rights_of_codes(s)
    }
}

impl AccessMask {
    pub open spec fn view(&self) -> u32 {
        self.bits
    }

    pub open spec fn has(&self, rights: u32) -> bool {
        self@ & rights == rights
    }

    /// The generic and standard rights as SDDL writes them: the two-letter
    /// codes of the rights that are set, in a fixed order.
    pub open spec fn rights_text(&self) -> Seq<char> {
        code_if(self.has(GENERIC_READ), 'G', 'R') + code_if(self.has(GENERIC_WRITE), 'G', 'W')
            + code_if(self.has(GENERIC_EXECUTE), 'G', 'X') + code_if(
            self.has(GENERIC_ALL),
            'G',
            'A',
        ) + code_if(self.has(MAXIMUM_ALLOWED), 'M', 'A') + code_if(
            self.has(ACCESS_SYSTEM_SECURITY),
            'A',
            'S',
        ) + code_if(self.has(SYNCHRONIZE), 'S', 'Y') + code_if(self.has(WRITE_OWNER), 'W', 'O')
            + code_if(self.has(WRITE_DACL), 'W', 'D') + code_if(
            self.has(READ_CONTROL),
            'R',
            'C',
        ) + code_if(self.has(DELETE), 'S', 'D')
    }

    /// What `sddl_string` returns: the code of the file or key rights that
    /// the set is equal to, and the generic and standard rights otherwise.
    pub open spec fn sddl_text(&self) -> Seq<char> {
        if self@ == FILE_ALL {
            seq!['F', 'A']
        } else if self@ == FILE_READ {
            seq!['F', 'R']
        } else if self@ == FILE_WRITE {
            seq!['F', 'W']
        } else if self@ == FILE_EXECUTE {
            seq!['F', 'X']
        } else if self@ == KEY_ALL {
            seq!['K', 'A']
        } else if self@ == KEY_READ {
            seq!['K', 'R']
        } else if self@ == KEY_WRITE {
            seq!['K', 'W']
        } else if self@ == KEY_EXECUTE {
            seq!['K', 'X']
        } else {
            self.rights_text()
        }
    }

    pub fn empty() -> (r: AccessMask)
        ensures
            r@ == 0,
    {
        AccessMask { bits: 0 }
    }

    pub fn from_bits(bits: u32) -> (r: AccessMask)
        ensures
            r@ == bits,
    {
        AccessMask { bits }
    }

    pub fn bits(&self) -> (r: u32)
        ensures
            r == self@,
    {
        self.bits
    }

    pub fn contains(&self, rights: u32) -> (r: bool)
        ensures
            r == self.has(rights),
    {
        self.bits & rights == rights
    }

    pub fn union(&self, other: AccessMask) -> (r: AccessMask)
        ensures
            r@ == self@ | other@,
    {
        AccessMask { bits: self.bits | other.bits }
    }

    /// The lower 16 bits: the rights whose meaning depends on the kind of
    /// object.
    pub fn object_specific_flags(&self) -> (r: u16)
        ensures
            r == self@ % 0x1_0000,
    {
        (self.bits % 0x1_0000) as u16
    }

    /// Appends what `sddl_string` returns.
    pub fn push_sddl(&self, out: &mut Vec<char>)
        ensures
            final(out)@ == old(out)@ + self.sddl_text(),
    {
        let bits: u32 = self.bits;
        if bits == FILE_ALL {
            push_code_if(out, true, 'F', 'A');
        } else if bits == FILE_READ {
            push_code_if(out, true, 'F', 'R');
        } else if bits == FILE_WRITE {
            push_code_if(out, true, 'F', 'W');
        } else if bits == FILE_EXECUTE {
            push_code_if(out, true, 'F', 'X');
        } else if bits == KEY_ALL {
            push_code_if(out, true, 'K', 'A');
        } else if bits == KEY_READ {
            push_code_if(out, true, 'K', 'R');
        } else if bits == KEY_WRITE {
            push_code_if(out, true, 'K', 'W');
        } else if bits == KEY_EXECUTE {
            push_code_if(out, true, 'K', 'X');
        } else {
            let ghost base = out@;
            let ghost t1 = code_if(self.has(GENERIC_READ), 'G', 'R');
            let ghost t2 = t1 + code_if(self.has(GENERIC_WRITE), 'G', 'W');
            let ghost t3 = t2 + code_if(self.has(GENERIC_EXECUTE), 'G', 'X');
            let ghost t4 = t3 + code_if(self.has(GENERIC_ALL), 'G', 'A');
            let ghost t5 = t4 + code_if(self.has(MAXIMUM_ALLOWED), 'M', 'A');
            let ghost t6 = t5 + code_if(self.has(ACCESS_SYSTEM_SECURITY), 'A', 'S');
            let ghost t7 = t6 + code_if(self.has(SYNCHRONIZE), 'S', 'Y');
            let ghost t8 = t7 + code_if(self.has(WRITE_OWNER), 'W', 'O');
            let ghost t9 = t8 + code_if(self.has(WRITE_DACL), 'W', 'D');
            let ghost t10 = t9 + code_if(self.has(READ_CONTROL), 'R', 'C');
            push_code_if(out, self.contains(GENERIC_READ), 'G', 'R');
            push_code_after(out, Ghost(base), Ghost(t1), self.contains(GENERIC_WRITE), 'G', 'W');
            push_code_after(out, Ghost(base), Ghost(t2), self.contains(GENERIC_EXECUTE), 'G', 'X');
            push_code_after(out, Ghost(base), Ghost(t3), self.contains(GENERIC_ALL), 'G', 'A');
            push_code_after(out, Ghost(base), Ghost(t4), self.contains(MAXIMUM_ALLOWED), 'M', 'A');
            push_code_after(out, Ghost(base), Ghost(t5), self.contains(ACCESS_SYSTEM_SECURITY), 'A', 'S');
            push_code_after(out, Ghost(base), Ghost(t6), self.contains(SYNCHRONIZE), 'S', 'Y');
            push_code_after(out, Ghost(base), Ghost(t7), self.contains(WRITE_OWNER), 'W', 'O');
            push_code_after(out, Ghost(base), Ghost(t8), self.contains(WRITE_DACL), 'W', 'D');
            push_code_after(out, Ghost(base), Ghost(t9), self.contains(READ_CONTROL), 'R', 'C');
            push_code_after(out, Ghost(base), Ghost(t10), self.contains(DELETE), 'S', 'D');
        }
    }

    /// The rights as SDDL writes them.
    pub fn sddl_string(&self) -> (r: String)
        ensures
            r@ == self.sddl_text(),
    {
        let mut out: Vec<char> = Vec::new();
        self.push_sddl(&mut out);
        string_of(out.as_slice())
    }

    /// The rights that the code `a`, `b` stands for.
    pub fn of_code(a: char, b: char) -> (r: Option<u32>)
        ensures
            r == rights_of_code(a, b),
    {
        if a == 'G' && b == 'A' {
            Some(GENERIC_ALL)
        } else if a == 'G' && b == 'R' {
            Some(GENERIC_READ)
        } else if a == 'G' && b == 'W' {
            Some(GENERIC_WRITE)
        } else if a == 'G' && b == 'X' {
            Some(GENERIC_EXECUTE)
        } else if a == 'M' && b == 'A' {
            Some(MAXIMUM_ALLOWED)
        } else if a == 'A' && b == 'S' {
            Some(ACCESS_SYSTEM_SECURITY)
        } else if a == 'S' && b == 'Y' {
            Some(SYNCHRONIZE)
        } else if a == 'W' && b == 'O' {
            Some(WRITE_OWNER)
        } else if a == 'W' && b == 'D' {
            Some(WRITE_DACL)
        } else if a == 'R' && b == 'C' {
            Some(READ_CONTROL)
        } else if a == 'S' && b == 'D' {
            Some(DELETE)
        } else if a == 'C' && b == 'R' {
            Some(CONTROL_ACCESS)
        } else if a == 'L' && b == 'O' {
            Some(LIST_OBJECT)
        } else if a == 'D' && b == 'T' {
            Some(DELETE_TREE)
        } else if a == 'W' && b == 'P' {
            Some(WRITE_PROPERTY)
        } else if a == 'R' && b == 'P' {
            Some(READ_PROPERTY)
        } else if a == 'S' && b == 'W' {
            Some(SELF_WRITE)
        } else if a == 'L' && b == 'C' {
            Some(LIST_CHILDREN)
        } else if a == 'D' && b == 'C' {
            Some(DELETE_CHILD)
        } else if a == 'C' && b == 'C' {
            Some(CREATE_CHILD)
        } else if a == 'F' && b == 'A' {
            Some(FILE_ALL)
        } else if a == 'F' && b == 'R' {
            Some(FILE_READ)
        } else if a == 'F' && b == 'W' {
            Some(FILE_WRITE)
        } else if a == 'F' && b == 'X' {
            Some(FILE_EXECUTE)
        } else if a == 'K' && b == 'A' {
            Some(KEY_ALL)
        } else if a == 'K' && b == 'R' {
            Some(KEY_READ)
        } else if a == 'K' && b == 'W' {
            Some(KEY_WRITE)
        } else if a == 'K' && b == 'X' {
            Some(KEY_EXECUTE)
        } else if a == 'N' && b == 'W' {
            Some(SYSTEM_MANDATORY_LABEL_NO_WRITE_UP)
        } else if a == 'N' && b == 'R' {
            Some(SYSTEM_MANDATORY_LABEL_NO_READ_UP)
        } else if a == 'N' && b == 'X' {
            Some(SYSTEM_MANDATORY_LABEL_NO_EXECUTE_UP)
        } else {
            None
        }
    }

    /// Reads the characters from `start` up to `end` as a row of two-letter
    /// codes of rights.
    fn from_codes(s: &[char], start: usize, end: usize) -> (r: Option<AccessMask>)
        requires
            start <= end <= s@.len(),
        ensures
            match r {
                Some(m) => rights_of_codes(s@.subrange(start as int, end as int)) == Some(m@),
                None => rights_of_codes(s@.subrange(start as int, end as int)) is None,
            },
    {
        let ghost f = s@.subrange(start as int, end as int);
        let mut acc: u32 = 0;
        let mut i: usize = start;
        while i < end
            invariant
                start <= i <= end <= s@.len(),
                f == s@.subrange(start as int, end as int),
                (i - start) % 2 == 0,
                rights_of_codes(f.take(i - start)) == Some(acc),
            decreases end - i,
        {
            if end - i < 2 {
                proof {
                    lemma_rights_odd(f);
                }
                return None;
            }
            let ghost next = f.take(i - start + 2);
            proof {
                assert(next.take(next.len() - 2) =~= f.take(i - start));
                assert(next[next.len() - 2] == s@[i as int]);
                assert(next[next.len() - 1] == s@[i + 1]);
            }
            match Self::of_code(s[i], s[i + 1]) {
                Some(rights) => {
                    acc = acc | rights;
                },
                None => {
                    proof {
                        lemma_rights_prefix(f, i - start + 2);
                    }
                    return None;
                },
            }
            i += 2;
        }
        assert(f.take(end - start) =~= f);
        Some(AccessMask { bits: acc })
    }

    /// Reads the characters from `start` up to `end` as rights: a `0x` number
    /// or a row of two-letter codes.
    pub fn from_sddl(s: &[char], start: usize, end: usize) -> (r: Option<AccessMask>)
        requires
            start <= end <= s@.len(),
        ensures
            match r {
                Some(m) => rights_of_text(s@.subrange(start as int, end as int)) == Some(m@),
                None => rights_of_text(s@.subrange(start as int, end as int)) is None,
            },
    {
        let ghost f = s@.subrange(start as int, end as int);
        if end - start >= 2 && s[start] == '0' && s[start + 1] == 'x' {
            assert(f[0] == s@[start as int] && f[1] == s@[start + 1]);
            assert(f.skip(2) =~= s@.subrange(start + 2, end as int));
            match parse_hex(s, start + 2, end, 0xffff_ffff) {
                Some(v) => Some(AccessMask { bits: v as u32 }),
                None => None,
            }
        } else {
            proof {
                if end - start >= 2 {
                    assert(f[0] == s@[start as int] && f[1] == s@[start + 1]);
                }
            }
            Self::from_codes(s, start, end)
        }
    }

    /// The rights that an SDDL text stands for. A text that stands for none
    /// is a syntax error at its start.
    pub fn try_from(value: &str) -> (r: Result<AccessMask, Error>)
        ensures
            match r {
                Ok(m) => rights_of_text(value@) == Some(m@),
                Err(e) => rights_of_text(value@) is None && e == Error::ParseError(
                    SyntaxError { position: 0, cause: SyntaxCause::IllegalAccessMask },
                ),
            },
    {
        let chars = chars_of(value);
        assert(chars@.subrange(0, chars@.len() as int) =~= chars@);
        match Self::from_sddl(chars.as_slice(), 0, chars.len()) {
            Some(m) => Ok(m),
            None => Err(Error::syntax(0, SyntaxCause::IllegalAccessMask)),
        }
    }
}

impl vstd::std_specs::convert::FromSpecImpl<u32> for AccessMask {
    open spec fn obeys_from_spec() -> bool {
        true
    }

    open spec fn from_spec(value: u32) -> AccessMask {
        AccessMask { bits: value }
    }
}

impl From<u32> for AccessMask {
    fn from(value: u32) -> (r: AccessMask) {
        AccessMask { bits: value }
    }
}

/// A text of odd length is no row of two-letter codes.
pub proof fn lemma_rights_odd(s: Seq<char>)
    requires
        s.len() % 2 == 1,
    ensures
        rights_of_codes(s) is None,
    decreases s.len(),
{
    if s.len() > 1 {
        lemma_rights_odd(s.take(s.len() - 2));
    }
}

/// Where a prefix of even length is no row of codes, the whole text is none.
pub proof fn lemma_rights_prefix(s: Seq<char>, k: int)
    requires
        0 <= k <= s.len(),
        k % 2 == 0,
        rights_of_codes(s.take(k)) is None,
    ensures
        rights_of_codes(s) is None,
    decreases s.len(),
{
    if s.len() % 2 == 1 {
        lemma_rights_odd(s);
    } else if k < s.len() {
        let t = s.take(s.len() - 2);
        assert(t.take(k) =~= s.take(k));
        lemma_rights_prefix(t, k);
    } else {
        assert(s.take(k) =~= s);
    }
}

} // verus!
