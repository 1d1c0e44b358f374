//! Globally unique identifiers, as object-specific entries hold them.
use crate::error::{Error, SyntaxCause, SyntaxError};
use vstd::prelude::*;

verus! {

/// The sixteen bytes with the first three fields turned round: the bytes of
/// the first field of four, of the second of two and of the third of two in
/// reverse order, and the last eight as they are.
pub open spec fn flip_fields(b: Seq<u8>) -> Seq<u8> {
    seq![
        b[3],
        b[2],
        b[1],
        b[0],
        b[5],
        b[4],
        b[7],
        b[6],
        b[8],
        b[9],
        b[10],
        b[11],
        b[12],
        b[13],
        b[14],
        b[15],
    ]
}

pub proof fn lemma_flip_fields_twice(b: Seq<u8>)
    requires
        b.len() == 16,
    ensures
        flip_fields(b).len() == 16,
        flip_fields(flip_fields(b)) == b,
{
    assert(flip_fields(flip_fields(b)) =~= b);
}

/// The lower-case hexadecimal digit of a number below 16.
pub open spec fn hex_digit_char(d: nat) -> char {
    if d < 10 {
        (d + '0' as nat) as char
    } else {
        (d - 10 + 'a' as nat) as char
    }
}

/// The text of sixteen bytes in groups of 8, 4, 4, 4 and 12 lower-case
/// hexadecimal digits, with `-` between the groups.
pub open spec fn hyphenated_text(b: Seq<u8>) -> Seq<char> {
    Seq::new(
        36,
        |i: int|
            if i == 8 || i == 13 || i == 18 || i == 23 {
                '-'
            } else {
                let k = if i < 8 {
                    i
                } else if i < 13 {
                    i - 1
                } else if i < 18 {
                    i - 2
                } else if i < 23 {
                    i - 3
                } else {
                    i - 4
                };
                if k % 2 == 0 {
                    hex_digit_char((b[k / 2] / 16) as nat)
                } else {
                    hex_digit_char((b[k / 2] % 16) as nat)
                }
            },
    )
}

/// The sixteen bytes that the parser of the `uuid` crate reads from a text,
/// in the order of the text, or nothing where it refuses the text.
pub uninterp spec fn uuid_of_text(text: Seq<char>) -> Option<Seq<u8>>;

/// `uuid::Uuid::from_bytes_le`, followed by the bytes of the result: turns
/// the first three fields round.
#[verifier::external_body]
fn uuid_from_bytes_le(b: [u8; 16]) -> (r: [u8; 16])
    ensures
        r@ == flip_fields(b@),
{
    uuid::Uuid::from_bytes_le(b).into_bytes()
}

/// `uuid::Uuid::to_bytes_le` on the identifier with the given bytes: turns
/// the first three fields round.
#[verifier::external_body]
fn uuid_to_bytes_le(b: &[u8; 16]) -> (r: [u8; 16])
    ensures
        r@ == flip_fields(b@),
{
    uuid::Uuid::from_bytes(*b).to_bytes_le()
}

/// `uuid::Uuid::parse_str`: the bytes of the identifier that it reads from
/// the text, or nothing where it fails. The same text always gives the same
/// answer.
#[verifier::external_body]
fn uuid_parse_str(text: &str) -> (r: Option<[u8; 16]>)
    ensures
        match r {
            Some(b) => uuid_of_text(text@) == Some(b@),
            None => uuid_of_text(text@) is None,
        },
{
    match uuid::Uuid::parse_str(text) {
        Ok(u) => Some(u.into_bytes()),
        Err(_) => None,
    }
}

/// The `to_string` of `uuid::Uuid`: the bytes in hyphenated lower-case
/// hexadecimal form.
#[verifier::external_body]
fn uuid_to_string(b: &[u8; 16]) -> (r: String)
    ensures
        r@ == hyphenated_text(b@),
{
    uuid::Uuid::from_bytes(*b).to_string()
}

/// A globally unique identifier. It holds its sixteen bytes in the order in
/// which its text shows them.
#[derive(Clone, Copy, Debug, PartialEq, Eq)]
pub struct Guid {
    bytes: [u8; 16],
}

impl Guid {
    /// The sixteen bytes, in the order in which the text shows them.
    pub closed spec fn view(&self) -> Seq<u8> {
        self.bytes@
    }

    pub proof fn lemma_view(&self)
        ensures
            self@.len() == 16,
    {
    }

    /// The identifier with the given bytes, in the order in which its text
    /// shows them.
    pub fn from_bytes(bytes: [u8; 16]) -> (r: Guid)
        ensures
            r@ == bytes@,
    {
        Guid { bytes }
    }

    /// The identifier whose binary form is the given bytes.
    pub fn from_bytes_le(bytes: [u8; 16]) -> (r: Guid)
        ensures
            r@ == flip_fields(bytes@),
    {
        Guid { bytes: uuid_from_bytes_le(bytes) }
    }

    /// The binary form of the identifier.
    pub fn to_bytes_le(&self) -> (r: [u8; 16])
        ensures
            r@ == flip_fields(self@),
    {
        uuid_to_bytes_le(&self.bytes)
    }

    /// The identifier that the `uuid` crate reads from a text. A text that
    /// it refuses is a syntax error at its start.
    pub fn try_from(value: &str) -> (r: Result<Guid, Error>)
        ensures
            match r {
                Ok(g) => uuid_of_text(value@) == Some(g@),
                Err(e) => uuid_of_text(value@) is None && e == Error::ParseError(
                    SyntaxError { position: 0, cause: SyntaxCause::IllegalGuid },
                ),
            },
    {
        match uuid_parse_str(value) {
            Some(bytes) => Ok(Guid { bytes }),
            None => Err(Error::syntax(0, SyntaxCause::IllegalGuid)),
        }
    }

    /// The identifier in hyphenated lower-case hexadecimal form.
    pub fn to_string(&self) -> (r: String)
        ensures
            r@ == hyphenated_text(self@),
    {
        uuid_to_string(&self.bytes)
    }

    /// Bytes that the binary form takes.
    pub fn raw_size(&self) -> (r: u16)
        ensures
            r == 16,
    {
        16
    }

    /// The identifier whose binary form the sixteen bytes at `pos` are.
    pub fn read_from(bytes: &[u8], pos: usize) -> (r: Guid)
        requires
            pos + 16 <= bytes@.len(),
        ensures
            r@ == flip_fields(bytes@.subrange(pos as int, pos + 16)),
    {
        let mut b: [u8; 16] = [0u8; 16];
        let mut i: usize = 0;
        while i < 16
            invariant
                i <= 16,
                pos + 16 <= bytes.len(),
                forall|j: int| 0 <= j < i ==> b@[j] == bytes@[pos + j],
            decreases 16 - i,
        {
            b[i] = bytes[pos + i];
            i += 1;
        }
        assert(b@ =~= bytes@.subrange(pos as int, pos + 16));
        Self::from_bytes_le(b)
    }

    /// Appends the binary form of the identifier.
    pub fn write_to(&self, out: &mut Vec<u8>)
        ensures
            final(out)@ == old(out)@ + flip_fields(self@),
    {
        let b: [u8; 16] = self.to_bytes_le();
        let mut i: usize = 0;
        while i < 16
            invariant
                i <= 16,
                b@ == flip_fields(self@),
                out@ == old(out)@ + b@.take(i as int),
            decreases 16 - i,
        {
            out.push(b[i]);
            assert(b@.take(i + 1) =~= b@.take(i as int).push(b@[i as int]));
            i += 1;
        }
        assert(b@.take(16) =~= b@);
    }
}

} // verus!
