use sddl::access_mask::{GENERIC_ALL, GENERIC_EXECUTE, GENERIC_READ};
use sddl::ace_header::{CONTAINER_INHERIT_ACE, FAILED_ACCESS_ACE_FLAG, OBJECT_INHERIT_ACE};
use sddl::control_flags::{
    DISCRETIONARY_ACL_PRESENT, DISCRETIONARY_ACL_PROTECTED, GROUP_DEFAULTED, OWNER_DEFAULTED,
    SELF_RELATIVE, SYSTEM_ACL_PRESENT, SYSTEM_ACL_PROTECTED,
};
use sddl::{
    AccessMask, Ace, AceHeaderFlags, AceType, Acl, AclRevision, AclType, ControlFlags,
    DecodeError, Error, Guid, SecurityDescriptor, Sid,
};

const SAMPLE: [u8; 176] = [
    0x01, 0x00, 0x14, 0xb0, 0x90, 0x00, 0x00, 0x00, 0xa0, 0x00, 0x00, 0x00, 0x14, 0x00, 0x00,
    0x00, 0x30, 0x00, 0x00, 0x00, 0x02, 0x00, 0x1c, 0x00, 0x01, 0x00, 0x00, 0x00, 0x02, 0x80,
    0x14, 0x00, 0x00, 0x00, 0x00, 0x80, 0x01, 0x01, 0x00, 0x00, 0x00, 0x00, 0x00, 0x01, 0x00,
    0x00, 0x00, 0x00, 0x02, 0x00, 0x60, 0x00, 0x04, 0x00, 0x00, 0x00, 0x00, 0x03, 0x18, 0x00,
    0x00, 0x00, 0x00, 0xa0, 0x01, 0x02, 0x00, 0x00, 0x00, 0x00, 0x00, 0x05, 0x20, 0x00, 0x00,
    0x00, 0x21, 0x02, 0x00, 0x00, 0x00, 0x03, 0x18, 0x00, 0x00, 0x00, 0x00, 0x10, 0x01, 0x02,
    0x00, 0x00, 0x00, 0x00, 0x00, 0x05, 0x20, 0x00, 0x00, 0x00, 0x20, 0x02, 0x00, 0x00, 0x00,
    0x03, 0x14, 0x00, 0x00, 0x00, 0x00, 0x10, 0x01, 0x01, 0x00, 0x00, 0x00, 0x00, 0x00, 0x05,
    0x12, 0x00, 0x00, 0x00, 0x00, 0x03, 0x14, 0x00, 0x00, 0x00, 0x00, 0x10, 0x01, 0x01, 0x00,
    0x00, 0x00, 0x00, 0x00, 0x03, 0x00, 0x00, 0x00, 0x00, 0x01, 0x02, 0x00, 0x00, 0x00, 0x00,
    0x00, 0x05, 0x20, 0x00, 0x00, 0x00, 0x20, 0x02, 0x00, 0x00, 0x01, 0x02, 0x00, 0x00, 0x00,
    0x00, 0x00, 0x05, 0x20, 0x00, 0x00, 0x00, 0x20, 0x02, 0x00, 0x00,
];

fn decode_cause(r: Result<SecurityDescriptor, Error>) -> DecodeError {
    match r {
        Err(Error::BinaryDecodeError(cause)) => cause,
        other => panic!("expected a decode error, got {other:?}"),
    }
}

#[test]
fn sample_descriptor_flags() {
    let sd = SecurityDescriptor::from_bytes(&SAMPLE).unwrap();
    assert_eq!(
        *sd.flags(),
        ControlFlags::from_bits(
            DISCRETIONARY_ACL_PRESENT
                | SYSTEM_ACL_PRESENT
                | DISCRETIONARY_ACL_PROTECTED
                | SYSTEM_ACL_PROTECTED
                | SELF_RELATIVE
        )
    );
    assert_eq!(sd.flags().bits(), 0xb014);
    assert_eq!(sd.revision(), 1);
}

#[test]
fn sample_descriptor_lists_equal_parsed_sddl() {
    let sd = SecurityDescriptor::from_bytes(&SAMPLE).unwrap();
    let sacl = Acl::from_sddl("S:P(AU;FA;GR;;;WD)", None).unwrap();
    let dacl = Acl::from_sddl(
        "D:P(A;CIOI;GRGX;;;BU)(A;CIOI;GA;;;BA)(A;CIOI;GA;;;SY)(A;CIOI;GA;;;CO)",
        None,
    )
    .unwrap();
    assert_eq!(sd.sacl().as_ref().unwrap(), &sacl);
    assert_eq!(sd.dacl().as_ref().unwrap(), &dacl);
    assert_eq!(*sd.sacl().as_ref().unwrap().acl_type(), AclType::SACL);
    assert_eq!(*sd.dacl().as_ref().unwrap().acl_type(), AclType::DACL);
}

#[test]
fn sample_descriptor_parts() {
    let sd = SecurityDescriptor::from_bytes(&SAMPLE).unwrap();
    let owner = sd.owner().as_ref().unwrap();
    let group = sd.group().as_ref().unwrap();
    assert_eq!(owner.to_string(), "S-1-5-32-544");
    assert_eq!(group.to_string(), "S-1-5-32-544");
    assert_eq!(owner.alias(), Some("BA"));
    let sacl = sd.sacl().as_ref().unwrap();
    assert_eq!(*sacl.acl_revision(), AclRevision::ACL_REVISION);
    assert_eq!(*sacl.acl_size(), 28);
    assert_eq!(*sacl.ace_count(), 1);
    let audit = &sacl.ace_list()[0];
    assert_eq!(audit.ace_type(), AceType::SYSTEM_AUDIT_ACE_TYPE);
    assert_eq!(audit.header().ace_flags().bits(), FAILED_ACCESS_ACE_FLAG);
    assert_eq!(*audit.header().ace_size(), 20);
    assert_eq!(audit.header().mask().bits(), GENERIC_READ);
    assert_eq!(audit.sid().to_string(), "S-1-1-0");
    let dacl = sd.dacl().as_ref().unwrap();
    assert_eq!(*dacl.acl_size(), 96);
    assert_eq!(*dacl.ace_count(), 4);
    let first = &dacl.ace_list()[0];
    assert_eq!(first.ace_type(), AceType::ACCESS_ALLOWED_ACE_TYPE);
    assert_eq!(
        first.header().ace_flags().bits(),
        OBJECT_INHERIT_ACE | CONTAINER_INHERIT_ACE
    );
    assert_eq!(first.header().mask().bits(), GENERIC_READ | GENERIC_EXECUTE);
    assert_eq!(first.sid().to_string(), "S-1-5-32-545");
    assert_eq!(dacl.ace_list()[1].header().mask().bits(), GENERIC_ALL);
    assert_eq!(dacl.ace_list()[2].sid().to_string(), "S-1-5-18");
    assert_eq!(dacl.ace_list()[3].sid().to_string(), "S-1-3-0");
}

#[test]
fn sample_descriptor_as_sddl() {
    let sd = SecurityDescriptor::from_bytes(&SAMPLE).unwrap();
    assert_eq!(
        sd.to_string(),
        "O:S-1-5-32-544G:S-1-5-32-544S:P(AU;FA;GR;;;WD)D:P(A;OICI;GRGX;;;BU)(A;OICI;GA;;;BA)(A;OICI;GA;;;SY)(A;OICI;GA;;;CO)"
    );
    assert_eq!(sd.sacl_as_sddl_string().unwrap(), "S:P(AU;FA;GR;;;WD)");
    assert_eq!(
        sd.dacl_as_sddl_string().unwrap(),
        "D:P(A;OICI;GRGX;;;BU)(A;OICI;GA;;;BA)(A;OICI;GA;;;SY)(A;OICI;GA;;;CO)"
    );
}

#[test]
fn sample_descriptor_encodes_to_the_same_bytes() {
    let sd = SecurityDescriptor::from_bytes(&SAMPLE).unwrap();
    assert_eq!(sd.to_bytes(), SAMPLE.to_vec());
}

#[test]
fn decode_encode_decode_is_stable() {
    // the same descriptor with its parts in another order and a gap
    let mut bytes = vec![0x01, 0x00, 0x04, 0x80];
    bytes.extend_from_slice(&[20, 0, 0, 0]); // owner
    bytes.extend_from_slice(&[0, 0, 0, 0]); // group
    bytes.extend_from_slice(&[0, 0, 0, 0]); // sacl
    bytes.extend_from_slice(&[36, 0, 0, 0]); // dacl
    bytes.extend_from_slice(&[1, 1, 0, 0, 0, 0, 0, 5, 18, 0, 0, 0]); // S-1-5-18
    bytes.extend_from_slice(&[0xff, 0xff, 0xff, 0xff]); // gap
    bytes.extend_from_slice(&[2, 0, 32, 0, 1, 0, 0, 0]); // acl: size 32, one entry
    bytes.extend_from_slice(&[0, 0, 24, 0, 1, 0, 0, 0]); // allowed, size 24, mask 1
    bytes.extend_from_slice(&[1, 1, 0, 0, 0, 0, 0, 1, 0, 0, 0, 0]); // S-1-1-0
    bytes.extend_from_slice(&[9, 9, 9, 9]); // padding of the entry
    let sd = SecurityDescriptor::from_bytes(&bytes).unwrap();
    assert_eq!(sd.owner().as_ref().unwrap().to_string(), "S-1-5-18");
    assert!(sd.group().is_none());
    assert!(sd.sacl().is_none());
    let dacl = sd.dacl().as_ref().unwrap();
    // the entry that was read has the size of its parts
    assert_eq!(*dacl.ace_list()[0].header().ace_size(), 20);
    assert_eq!(*dacl.acl_size(), 28);
    let written = sd.to_bytes();
    assert_ne!(written, bytes);
    assert_eq!(written.len(), 20 + 28 + 12);
    let again = SecurityDescriptor::from_bytes(&written).unwrap();
    assert_eq!(again, sd);
    assert_eq!(again.to_bytes(), written);
}

#[test]
fn owner_and_group_are_present_by_offset_not_by_flag() {
    // the flags say that owner and group are defaulted; both are there
    let mut bytes = SAMPLE.to_vec();
    bytes[2] |= (OWNER_DEFAULTED | GROUP_DEFAULTED) as u8;
    let sd = SecurityDescriptor::from_bytes(&bytes).unwrap();
    assert!(sd.flags().contains(OWNER_DEFAULTED));
    assert!(sd.owner().is_some());
    assert!(sd.group().is_some());
    // an offset of 0 is a part that is not there
    let mut bytes = SAMPLE.to_vec();
    bytes[4] = 0;
    bytes[8] = 0;
    let sd = SecurityDescriptor::from_bytes(&bytes).unwrap();
    assert!(sd.owner().is_none());
    assert!(sd.group().is_none());
}

#[test]
fn list_without_flag_of_presence_is_absent() {
    let mut bytes = SAMPLE.to_vec();
    bytes[2] &= !(SYSTEM_ACL_PRESENT as u8);
    let sd = SecurityDescriptor::from_bytes(&bytes).unwrap();
    assert!(sd.sacl().is_none());
    assert!(sd.dacl().is_some());
    let mut bytes = SAMPLE.to_vec();
    bytes[16] = 0;
    let sd = SecurityDescriptor::from_bytes(&bytes).unwrap();
    assert!(sd.dacl().is_none());
    assert!(sd.flags().contains(DISCRETIONARY_ACL_PRESENT));
}

#[test]
fn descriptor_in_a_larger_buffer() {
    let mut bytes = vec![0xaa; 7];
    bytes.extend_from_slice(&SAMPLE);
    let sd = SecurityDescriptor::read_from(&bytes, 7).unwrap();
    assert_eq!(sd, SecurityDescriptor::from_bytes(&SAMPLE).unwrap());
}

#[test]
fn decode_errors() {
    assert_eq!(
        decode_cause(SecurityDescriptor::from_bytes(&SAMPLE[..19])),
        DecodeError::UnexpectedEnd
    );
    assert_eq!(
        decode_cause(SecurityDescriptor::from_bytes(&[])),
        DecodeError::UnexpectedEnd
    );
    let mut bytes = SAMPLE.to_vec();
    bytes[0] = 2;
    assert_eq!(
        decode_cause(SecurityDescriptor::from_bytes(&bytes)),
        DecodeError::IllegalRevision
    );
    let mut bytes = SAMPLE.to_vec();
    bytes[3] &= 0x7f;
    assert_eq!(
        decode_cause(SecurityDescriptor::from_bytes(&bytes)),
        DecodeError::NotSelfRelative
    );
    let mut bytes = SAMPLE.to_vec();
    bytes[144] = 2;
    assert_eq!(
        decode_cause(SecurityDescriptor::from_bytes(&bytes)),
        DecodeError::IllegalSidRevision
    );
    let mut bytes = SAMPLE.to_vec();
    bytes[145] = 16;
    assert_eq!(
        decode_cause(SecurityDescriptor::from_bytes(&bytes)),
        DecodeError::TooManySubAuthorities
    );
    let mut bytes = SAMPLE.to_vec();
    bytes[161] = 3; // the group claims three sub-authorities; the bytes end
    assert_eq!(
        decode_cause(SecurityDescriptor::from_bytes(&bytes)),
        DecodeError::UnexpectedEnd
    );
    let mut bytes = SAMPLE.to_vec();
    bytes[20] = 3;
    assert_eq!(
        decode_cause(SecurityDescriptor::from_bytes(&bytes)),
        DecodeError::IllegalAclRevision
    );
    let mut bytes = SAMPLE.to_vec();
    bytes[22] = 0x18; // the SACL claims 24 bytes and holds 28
    assert_eq!(
        decode_cause(SecurityDescriptor::from_bytes(&bytes)),
        DecodeError::IllegalAclSize
    );
    let mut bytes = SAMPLE.to_vec();
    bytes[28] = 0x14;
    assert_eq!(
        decode_cause(SecurityDescriptor::from_bytes(&bytes)),
        DecodeError::UnknownAceType
    );
    for reserved in [0x03u8, 0x04, 0x08, 0x0e, 0x10] {
        let mut bytes = SAMPLE.to_vec();
        bytes[28] = reserved;
        assert_eq!(
            decode_cause(SecurityDescriptor::from_bytes(&bytes)),
            DecodeError::UnsupportedAceType
        );
    }
    let mut bytes = SAMPLE.to_vec();
    bytes[30] = 0x15;
    assert_eq!(
        decode_cause(SecurityDescriptor::from_bytes(&bytes)),
        DecodeError::IllegalAceSize
    );
    let mut bytes = SAMPLE.to_vec();
    bytes[30] = 0x10; // too small for the trustee
    assert_eq!(
        decode_cause(SecurityDescriptor::from_bytes(&bytes)),
        DecodeError::IllegalAceSize
    );
}

#[test]
fn sid_binary_form() {
    let sid = Sid::try_from("S-1-5-32-544").unwrap();
    let bytes = sid.to_bytes();
    assert_eq!(
        bytes,
        vec![1, 2, 0, 0, 0, 0, 0, 5, 32, 0, 0, 0, 0x20, 0x02, 0, 0]
    );
    assert_eq!(sid.len(), 16);
    assert_eq!(sid.raw_size(), 16);
    assert_eq!(Sid::from_bytes(&bytes).unwrap(), sid);
    let (read, next) = Sid::read_from(&bytes, 0).unwrap();
    assert_eq!(read, sid);
    assert_eq!(next, 16);
    // no sub-authority at all
    let bare = Sid::from_bytes(&[1, 0, 0, 0, 0, 0, 0, 5]).unwrap();
    assert_eq!(bare.sub_authority_count(), 0);
    assert_eq!(bare.len(), 8);
    assert_eq!(bare.to_string(), "S-1-5-");
}

fn guid() -> Guid {
    Guid::from_bytes([
        0xa1, 0xa2, 0xa3, 0xa4, 0xb1, 0xb2, 0xc1, 0xc2, 0xd1, 0xd2, 0xd3, 0xd4, 0xd5, 0xd6, 0xd7,
        0xd8,
    ])
}

#[test]
fn guid_forms() {
    let g = guid();
    assert_eq!(g.to_string(), "a1a2a3a4-b1b2-c1c2-d1d2-d3d4d5d6d7d8");
    assert_eq!(
        g.to_bytes_le(),
        [
            0xa4, 0xa3, 0xa2, 0xa1, 0xb2, 0xb1, 0xc2, 0xc1, 0xd1, 0xd2, 0xd3, 0xd4, 0xd5, 0xd6,
            0xd7, 0xd8
        ]
    );
    assert_eq!(Guid::from_bytes_le(g.to_bytes_le()), g);
    assert_ne!(Guid::from_bytes_le(g.to_bytes_le()).to_bytes_le(), [0u8; 16]);
    assert_eq!(
        Guid::try_from("a1a2a3a4-b1b2-c1c2-d1d2-d3d4d5d6d7d8").unwrap(),
        g
    );
    assert_eq!(
        Guid::try_from("{A1A2A3A4-B1B2-C1C2-D1D2-D3D4D5D6D7D8}").unwrap(),
        g
    );
    assert!(Guid::try_from("a1a2a3a4").is_err());
    assert_eq!(g.raw_size(), 16);
    let mut out = vec![7u8];
    g.write_to(&mut out);
    assert_eq!(out.len(), 17);
    assert_eq!(Guid::read_from(&out, 1), g);
}

#[test]
fn object_entry_binary_form() {
    let sid = Sid::try_from("S-1-1-0").unwrap();
    let ace = Ace::access_allowed_object(
        AceHeaderFlags::from_bits(CONTAINER_INHERIT_ACE),
        AccessMask::from(0x30),
        None,
        Some(guid()),
        sid,
    );
    assert_eq!(ace.flags().bits(), 2);
    assert_eq!(*ace.header().ace_size(), 8 + 4 + 16 + 12);
    let bytes = ace.to_bytes();
    assert_eq!(bytes.len(), 40);
    assert_eq!(&bytes[..12], &[5, 2, 40, 0, 0x30, 0, 0, 0, 2, 0, 0, 0]);
    assert_eq!(&bytes[12..16], &[0xa4, 0xa3, 0xa2, 0xa1]);
    let (read, next) = Ace::read_from(&bytes, 0).unwrap();
    assert_eq!(next, 40);
    assert_eq!(read, ace);
    assert_eq!(read.object_type(), &None);
    assert_eq!(read.inherited_object_type(), &Some(guid()));
    // an object flag without a meaning
    let mut bad = bytes.clone();
    bad[8] = 4;
    assert!(matches!(
        Ace::read_from(&bad, 0),
        Err(Error::BinaryDecodeError(DecodeError::IllegalAceFlags))
    ));
}

#[test]
fn callback_entry_takes_padding_into_its_data() {
    let sid = Sid::try_from("S-1-1-0").unwrap();
    let data = vec![0x61, 0x72, 0x74, 0x78, 0x01];
    let ace = Ace::access_allowed_callback(
        AceHeaderFlags::empty(),
        AccessMask::from(GENERIC_READ),
        sid,
        data.clone(),
    );
    assert!(ace.is_conditional());
    // 8 for the head, 12 for the trustee, 5 of data, rounded up
    assert_eq!(*ace.header().ace_size(), 28);
    assert_eq!(ace.raw_size(), 28);
    let bytes = ace.to_bytes();
    assert_eq!(bytes.len(), 28);
    assert_eq!(&bytes[20..], &[0x61, 0x72, 0x74, 0x78, 0x01, 0, 0, 0]);
    let (read, _) = Ace::read_from(&bytes, 0).unwrap();
    assert_eq!(read.application_data(), &vec![0x61, 0x72, 0x74, 0x78, 0x01, 0, 0, 0]);
    assert_eq!(*read.header().ace_size(), 28);
    assert!(read.is_conditional());
    assert_eq!(read.to_bytes(), bytes);
    let plain = Ace::audit_callback(
        AceHeaderFlags::empty(),
        AccessMask::from(1),
        Sid::try_from("S-1-1-0").unwrap(),
        vec![0x61, 0x72, 0x74],
    );
    assert!(!plain.is_conditional());
}

#[test]
fn acl_binary_form() {
    let list = vec![
        Ace::access_allowed(
            AceHeaderFlags::empty(),
            AccessMask::from(GENERIC_ALL),
            Sid::try_from("S-1-5-18").unwrap(),
        ),
        Ace::access_denied(
            AceHeaderFlags::empty(),
            AccessMask::from(1),
            Sid::try_from("S-1-5-32-545").unwrap(),
        ),
    ];
    let acl = Acl::new(
        AclRevision::ACL_REVISION,
        AclType::DACL,
        ControlFlags::empty(),
        list,
    );
    assert_eq!(*acl.acl_size(), 8 + 20 + 24);
    assert_eq!(*acl.ace_count(), 2);
    let bytes = acl.to_bytes();
    assert_eq!(&bytes[..8], &[2, 0, 52, 0, 2, 0, 0, 0]);
    let (read, next) =
        Acl::read_from(&bytes, 0, ControlFlags::from_bits(SELF_RELATIVE), AclType::SACL).unwrap();
    assert_eq!(next, 52);
    // the context is no part of what the list says
    assert_eq!(read, acl);
    assert_eq!(*read.acl_type(), AclType::SACL);
    assert_eq!(read.control_flags().bits(), SELF_RELATIVE);
}
