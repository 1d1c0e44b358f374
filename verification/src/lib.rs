//! Windows security descriptors: their binary form and their SDDL text.
//!
//! A security descriptor names the owner and the primary group of an object
//! and holds up to two access control lists. This library reads descriptors
//! from their self-relative binary form and from SDDL text, and writes them
//! back in either form.
pub mod access_mask;
pub mod ace;
pub mod ace_flags;
pub mod ace_header;
pub mod acl;
pub mod binary_laws;
pub mod bytes;
pub mod control_flags;
pub mod error;
pub mod guid;
pub mod laws;
pub mod parsed_ace_contents;
pub mod parser;
pub mod security_descriptor;
pub mod sid;
pub mod text;
pub mod text_laws;

pub use access_mask::AccessMask;
pub use ace::Ace;
pub use ace_flags::AceFlags;
pub use ace_header::{AceHeader, AceHeaderFlags, AceType};
pub use acl::{Acl, AclRevision, AclType};
pub use control_flags::ControlFlags;
pub use error::{DecodeError, Error, SidFormatCause, SyntaxCause, SyntaxError};
pub use guid::Guid;
pub use security_descriptor::SecurityDescriptor;
pub use sid::identifier_authority::IdentifierAuthority;
pub use sid::sid_alias::SidAlias;
pub use sid::Sid;
