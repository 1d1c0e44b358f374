//! The authority of a SID: six bytes that stand for a number, highest byte
//! first.
use crate::text::{decimal_text, push_decimal, string_of};
use vstd::prelude::*;

verus! {

pub const SECURITY_NULL_SID_AUTHORITY: u8 = 0;

pub const SECURITY_WORLD_SID_AUTHORITY: u8 = 1;

pub const SECURITY_LOCAL_SID_AUTHORITY: u8 = 2;

pub const SECURITY_CREATOR_SID_AUTHORITY: u8 = 3;

pub const SECURITY_NON_UNIQUE_AUTHORITY: u8 = 4;

pub const SECURITY_NT_AUTHORITY: u8 = 5;

pub const SECURITY_SITE_SERVER_AUTHORITY: u8 = 6;

pub const SECURITY_INTERNET_SITE_AUTHORITY: u8 = 7;

pub const SECURITY_EXCHANGE_AUTHORITY: u8 = 8;

pub const SECURITY_RESOURCE_MANAGER_AUTHORITY: u8 = 9;

pub const APPLICATION_PACKAGE_AUTHORITY: u8 = 15;

pub const MANDATORY_LABEL_AUTHORITY: u8 = 16;

pub const AUTHENTICATION_AUTHORITY: u8 = 18;

/// One more than the greatest number that six bytes hold.
pub const AUTHORITY_LIMIT: u64 = 0x1_0000_0000_0000;

/// The number that six bytes stand for, highest byte first.
pub open spec fn authority_number(b: Seq<u8>) -> nat {
    (((((b[0] as nat) * 256 + (b[1] as nat)) * 256 + (b[2] as nat)) * 256 + (b[3] as nat)) * 256
        + (b[4] as nat)) * 256 + (b[5] as nat)
}

/// The six bytes of a number below 2^48, highest byte first.
pub open spec fn authority_bytes(n: nat) -> Seq<u8> {
    let q5 = n / 256;
    let q4 = q5 / 256;
    let q3 = q4 / 256;
    let q2 = q3 / 256;
    let q1 = q2 / 256;
    seq![
        q1 as u8,
        (q2 % 256) as u8,
        (q3 % 256) as u8,
        (q4 % 256) as u8,
        (q5 % 256) as u8,
        (n % 256) as u8,
    ]
}

pub proof fn lemma_authority_number_bytes(n: nat)
    requires
        n < AUTHORITY_LIMIT,
    ensures
        authority_bytes(n).len() == 6,
        authority_number(authority_bytes(n)) == n,
{
    let q5 = n / 256;
    let q4 = q5 / 256;
    let q3 = q4 / 256;
    let q2 = q3 / 256;
    let q1 = q2 / 256;
    assert(q1 < 256);
    let b = authority_bytes(n);
    assert(b[0] == q1 && b[1] == q2 % 256 && b[2] == q3 % 256 && b[3] == q4 % 256 && b[4] == q5
        % 256 && b[5] == n % 256);
    assert(q1 * 256 + q2 % 256 == q2);
    assert(q2 * 256 + q3 % 256 == q3);
    assert(q3 * 256 + q4 % 256 == q4);
    assert(q4 * 256 + q5 % 256 == q5);
    assert(q5 * 256 + n % 256 == n);
}

pub proof fn lemma_authority_bytes_number(b: Seq<u8>)
    requires
        b.len() == 6,
    ensures
        authority_number(b) < AUTHORITY_LIMIT,
        authority_bytes(authority_number(b)) == b,
{
    let q1 = b[0] as nat;
    let q2 = q1 * 256 + (b[1] as nat);
    let q3 = q2 * 256 + (b[2] as nat);
    let q4 = q3 * 256 + (b[3] as nat);
    let q5 = q4 * 256 + (b[4] as nat);
    let n = q5 * 256 + (b[5] as nat);
    assert(n == authority_number(b));
    assert(n / 256 == q5 && n % 256 == b[5]);
    assert(q5 / 256 == q4 && q5 % 256 == b[4]);
    assert(q4 / 256 == q3 && q4 % 256 == b[3]);
    assert(q3 / 256 == q2 && q3 % 256 == b[2]);
    assert(q2 / 256 == q1 && q2 % 256 == b[1]);
    assert(authority_bytes(n) =~= b);
}

/// The authority that issued a SID.
#[derive(Clone, Copy, Debug, PartialEq, Eq)]
pub struct IdentifierAuthority {
    value: [u8; 6],
}

impl IdentifierAuthority {
    /// The six bytes.
    pub closed spec fn view(&self) -> Seq<u8> {
        self.value@
    }

    /// The number that the six bytes stand for.
    pub open spec fn number(&self) -> nat {
        authority_number(self@)
    }

    pub proof fn lemma_view(&self)
        ensures
            self@.len() == 6,
    {
    }

    /// Whether the authority is one of the ten that the system defines.
    pub fn is_well_known(&self) -> (r: bool)
        ensures
            r == (self.number() <= 9),
    {
        proof {
            lemma_authority_bytes_number(self@);
        }
        self.value[0] == 0 && self.value[1] == 0 && self.value[2] == 0 && self.value[3] == 0
            && self.value[4] == 0 && self.value[5] <= 9
    }

    /// The authority with the number `value`.
    pub fn from(value: u8) -> (r: IdentifierAuthority)
        ensures
            r@ == seq![0u8, 0u8, 0u8, 0u8, 0u8, value],
            r.number() == value,
    {
        let r = IdentifierAuthority { value: [0, 0, 0, 0, 0, value] };
        assert(r.value@ =~= seq![0u8, 0u8, 0u8, 0u8, 0u8, value]);
        r
    }

    /// The authority with the given bytes.
    pub fn from_bytes(value: [u8; 6]) -> (r: IdentifierAuthority)
        ensures
            r@ == value@,
    {
        IdentifierAuthority { value }
    }

    /// The authority with the number `n`.
    pub fn from_number(n: u64) -> (r: IdentifierAuthority)
        requires
            n < AUTHORITY_LIMIT,
        ensures
            r@ == authority_bytes(n as nat),
            r.number() == n,
    {
        let q5: u64 = n / 256;
        let q4: u64 = q5 / 256;
        let q3: u64 = q4 / 256;
        let q2: u64 = q3 / 256;
        let q1: u64 = q2 / 256;
        let r = IdentifierAuthority {
            value: [
                q1 as u8,
                (q2 % 256) as u8,
                (q3 % 256) as u8,
                (q4 % 256) as u8,
                (q5 % 256) as u8,
                (n % 256) as u8,
            ],
        };
        proof {
            lemma_authority_number_bytes(n as nat);
            assert(r.value@ =~= authority_bytes(n as nat));
        }
        r
    }

    pub fn value(&self) -> (r: &[u8; 6])
        ensures
            r@ == self@,
    {
        &self.value
    }

    /// The number that the six bytes stand for.
    pub fn to_number(&self) -> (r: u64)
        ensures
            r == self.number(),
            r < AUTHORITY_LIMIT,
    {
        let q1: u64 = self.value[0] as u64;
        let q2: u64 = q1 * 256 + self.value[1] as u64;
        let q3: u64 = q2 * 256 + self.value[2] as u64;
        let q4: u64 = q3 * 256 + self.value[3] as u64;
        let q5: u64 = q4 * 256 + self.value[4] as u64;
        q5 * 256 + self.value[5] as u64
    }

    /// The number of the authority in decimal.
    pub fn to_string(&self) -> (r: String)
        ensures
            r@ == decimal_text(self.number()),
    {
        let mut out: Vec<char> = Vec::new();
        push_decimal(&mut out, self.to_number());
        assert(out@ =~= decimal_text(self.number()));
        string_of(out.as_slice())
    }
}

} // verus!
