//! What can go wrong: an SDDL text that does not parse, a SID text of the
//! wrong shape, an alias that needs a domain, and bytes that hold no
//! descriptor.
use vstd::prelude::*;

verus! {

/// Why a text is not the canonical form of a SID.
#[derive(Clone, Copy, Debug, PartialEq, Eq, Structural)]
pub enum SidFormatCause {
    /// The text is not `S-1-` followed by decimal numbers with `-` between
    /// them.
    PatternMismatch,
    /// The authority does not fit in six bytes.
    IllegalAuthority,
    /// No sub-authority follows the authority.
    TooFewSubAuthorities,
    /// A sub-authority does not fit in 32 bits.
    IllegalSubAuthority,
    /// More sub-authorities than a SID can hold.
    TooManySubAuthorities,
}

/// Why an SDDL text is not accepted.
#[derive(Clone, Copy, Debug, PartialEq, Eq, Structural)]
pub enum SyntaxCause {
    /// The text does not begin with a section tag and `:`.
    MissingSectionTag,
    /// A section tag other than `O`, `G`, `D` and `S`, or one that has no
    /// place in the text at hand.
    UnexpectedSection,
    /// A section occurs twice.
    DuplicateSection,
    /// The flags of an ACL are not made of `P`, `AR` and `AI`.
    IllegalAclFlags,
    /// The entries of an ACL are not a row of `(...)` groups.
    IllegalAceList,
    /// An entry does not have six fields.
    WrongFieldCount,
    /// The first field of an entry names no kind of entry.
    UnknownAceType,
    /// The first field of an entry names a kind that has no textual form
    /// here.
    UnsupportedAceType,
    /// The flags of an entry are not made of the two-letter flag codes.
    IllegalAceFlags,
    /// The rights of an entry are neither a `0x` number nor made of the
    /// two-letter right codes.
    IllegalAccessMask,
    /// An object type is not the text of a GUID.
    IllegalGuid,
    /// Two letters that are no alias of a well-known SID.
    UnknownSidAlias,
    /// The entries do not fit in one ACL.
    AclTooLarge,
}

/// A place in an SDDL text and what is wrong there.
#[derive(Clone, Copy, Debug, PartialEq, Eq, Structural)]
pub struct SyntaxError {
    pub position: usize,
    pub cause: SyntaxCause,
}

/// Why bytes are not the binary form of a descriptor or of a part of one.
#[derive(Clone, Copy, Debug, PartialEq, Eq, Structural)]
pub enum DecodeError {
    /// The bytes end before the structure does.
    UnexpectedEnd,
    /// The revision of the descriptor is not 1.
    IllegalRevision,
    /// The descriptor is not in self-relative form.
    NotSelfRelative,
    /// The revision of a SID is not 1.
    IllegalSidRevision,
    /// A SID claims more than 15 sub-authorities.
    TooManySubAuthorities,
    /// The type tag of an entry is none of the defined ones.
    UnknownAceType,
    /// The type tag of an entry is one of those reserved for future use.
    UnsupportedAceType,
    /// The size of an entry is no multiple of 4, or too small for what the
    /// entry holds.
    IllegalAceSize,
    /// The object flags of an entry have a bit set that has no meaning.
    IllegalAceFlags,
    /// The revision of an ACL is neither 2 nor 4.
    IllegalAclRevision,
    /// The entries of an ACL take more room than its size allows.
    IllegalAclSize,
}

/// The content of an [`Error`] as contracts see it: without the position of
/// a syntax error, and with the rejected SID text as a sequence of characters.
pub enum Failure {
    Syntax(SyntaxCause),
    IllegalSidFormat(Seq<char>, SidFormatCause),
    MissingDomainInformation,
    Decode(DecodeError),
}

#[derive(Debug)]
pub enum Error {
    /// The SDDL text is not accepted.
    ParseError(SyntaxError),
    /// The text is not the canonical form of a SID.
    IllegalSidFormat(String, SidFormatCause),
    /// An alias of a SID relative to a domain was met, and no domain given.
    MissingDomainInformation,
    /// The bytes are not the binary form of a descriptor.
    BinaryDecodeError(DecodeError),
}

impl Error {
    pub open spec fn view(&self) -> Failure {
        match *self {
            Error::ParseError(e) => Failure::Syntax(e.cause),
            Error::IllegalSidFormat(text, cause) => Failure::IllegalSidFormat(text@, cause),
            Error::MissingDomainInformation => Failure::MissingDomainInformation,
            Error::BinaryDecodeError(e) => Failure::Decode(e),
        }
    }

    pub fn syntax(position: usize, cause: SyntaxCause) -> (e: Error)
        ensures
            e@ == Failure::Syntax(cause),
            e == Error::ParseError(SyntaxError { position, cause }),
    {
        Error::ParseError(SyntaxError { position, cause })
    }

    pub fn decode(cause: DecodeError) -> (e: Error)
        ensures
            e@ == Failure::Decode(cause),
    {
        Error::BinaryDecodeError(cause)
    }
}

} // verus!
