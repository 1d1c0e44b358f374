use sddl::access_mask::{
    ACCESS_SYSTEM_SECURITY, DELETE, FILE_ALL, FILE_EXECUTE, FILE_READ, FILE_WRITE, GENERIC_ALL,
    GENERIC_EXECUTE, GENERIC_READ, GENERIC_WRITE, KEY_ALL, KEY_READ, KEY_WRITE, MAXIMUM_ALLOWED,
    READ_CONTROL, SYNCHRONIZE, WRITE_DACL, WRITE_OWNER, WRITE_PROPERTY,
};
use sddl::ace_header::{
    CONTAINER_INHERIT_ACE, CRITICAL, FAILED_ACCESS_ACE_FLAG, INHERITED_ACE, INHERIT_ONLY_ACE,
    NO_PROPAGATE_INHERIT_ACE, OBJECT_INHERIT_ACE, SUCCESSFUL_ACCESS_ACE_FLAG,
};
use sddl::control_flags::{
    DISCRETIONARY_ACL_AUTO_INHERITED, DISCRETIONARY_ACL_AUTO_INHERIT_REQUIRED,
    DISCRETIONARY_ACL_PRESENT, DISCRETIONARY_ACL_PROTECTED, SELF_RELATIVE,
    SYSTEM_ACL_AUTO_INHERITED, SYSTEM_ACL_PRESENT, SYSTEM_ACL_PROTECTED,
};
use sddl::parser::{AccessMaskParser, AclParser, SecurityDescriptorParser, SidParser};
use sddl::sid::identifier_authority::{SECURITY_NT_AUTHORITY, SECURITY_WORLD_SID_AUTHORITY};
use sddl::{
    AccessMask, Ace, AceHeader, AceHeaderFlags, AceType, Acl, AclRevision, AclType, ControlFlags,
    Error, IdentifierAuthority, SecurityDescriptor, Sid, SidAlias, SidFormatCause, SyntaxCause,
};

fn sid_cause(text: &str) -> SidFormatCause {
    match Sid::try_from(text) {
        Err(Error::IllegalSidFormat(rejected, cause)) => {
            assert_eq!(rejected, text);
            cause
        }
        other => panic!("expected a SID format error, got {other:?}"),
    }
}

fn syntax_cause<T: std::fmt::Debug>(r: Result<T, Error>) -> SyntaxCause {
    match r {
        Err(Error::ParseError(e)) => e.cause,
        other => panic!("expected a syntax error, got {other:?}"),
    }
}

#[test]
fn sid_text_is_read_back() {
    for text in [
        "S-1-1-0",
        "S-1-5-18",
        "S-1-5-32-544",
        "S-1-5-21-2623811015-3361044348-030300820-1013",
        "S-1-5-21-000000001-000000002-000000003-4",
        "S-1-281474976710655-4294967295",
        "S-1-5-1-000000002-000000003-000000004-000000005-000000006-000000007-000000008-000000009-000000010-000000011-000000012-000000013-000000014-15",
    ] {
        assert_eq!(Sid::try_from(text).unwrap().to_string(), text);
    }
}

#[test]
fn sid_text_without_padding_reads_as_the_same_sid() {
    let plain = Sid::try_from("S-1-5-21-2623811015-3361044348-30300820-1013").unwrap();
    let padded = Sid::try_from("S-1-5-21-2623811015-3361044348-030300820-1013").unwrap();
    assert_eq!(plain, padded);
    assert_eq!(
        plain.to_string(),
        "S-1-5-21-2623811015-3361044348-030300820-1013"
    );
    assert_eq!(
        plain.sub_authority(),
        &vec![21, 2623811015, 3361044348, 30300820, 1013]
    );
    assert_eq!(plain.sub_authority_count(), 5);
    assert_eq!(plain.revision(), 1);
    assert_eq!(
        plain.identifier_authority(),
        &IdentifierAuthority::from(SECURITY_NT_AUTHORITY)
    );
}

#[test]
fn malformed_sid_texts_are_rejected() {
    assert_eq!(sid_cause(""), SidFormatCause::PatternMismatch);
    assert_eq!(sid_cause("S"), SidFormatCause::PatternMismatch);
    assert_eq!(sid_cause("s-1-5-18"), SidFormatCause::PatternMismatch);
    assert_eq!(sid_cause("S-2-5-18"), SidFormatCause::PatternMismatch);
    assert_eq!(sid_cause("S-1"), SidFormatCause::PatternMismatch);
    assert_eq!(sid_cause("S-1-"), SidFormatCause::PatternMismatch);
    assert_eq!(sid_cause("S-1-5-"), SidFormatCause::PatternMismatch);
    assert_eq!(sid_cause("S-1-5--18"), SidFormatCause::PatternMismatch);
    assert_eq!(sid_cause("S-1-5-x"), SidFormatCause::PatternMismatch);
    assert_eq!(sid_cause("S-1-5-18 "), SidFormatCause::PatternMismatch);
    assert_eq!(sid_cause("S-1-a-18"), SidFormatCause::PatternMismatch);
    assert_eq!(sid_cause("S-1-5-+18"), SidFormatCause::PatternMismatch);
    assert_eq!(
        sid_cause("S-1-281474976710656-1"),
        SidFormatCause::IllegalAuthority
    );
    assert_eq!(
        sid_cause("S-1-99999999999999999999999999-1"),
        SidFormatCause::IllegalAuthority
    );
    assert_eq!(sid_cause("S-1-5"), SidFormatCause::TooFewSubAuthorities);
    assert_eq!(
        sid_cause("S-1-5-4294967296"),
        SidFormatCause::IllegalSubAuthority
    );
    assert_eq!(
        sid_cause("S-1-5-1-2-3-4-5-6-7-8-9-10-11-12-13-14-15-16"),
        SidFormatCause::TooManySubAuthorities
    );
    assert!(Sid::try_from("S-1-5-1-2-3-4-5-6-7-8-9-10-11-12-13-14-15").is_ok());
}

#[test]
fn sid_constructors() {
    let world = Sid::new(IdentifierAuthority::from(SECURITY_WORLD_SID_AUTHORITY), &[0]);
    assert_eq!(world.to_string(), "S-1-1-0");
    assert_eq!(world.alias(), Some("WD"));
    let admins = Sid::new_builtin(544);
    assert_eq!(admins.to_string(), "S-1-5-32-544");
    assert_eq!(admins.alias(), Some("BA"));
    let domain_admins = Sid::new_with_domain(512, &[1, 2, 3]);
    assert_eq!(domain_admins.to_string(), "S-1-5-21-000000001-000000002-000000003-512");
    assert_eq!(domain_admins.alias(), Some("DA"));
    assert_eq!(domain_admins.known_alias(), Some(SidAlias::DA));
    assert_eq!(Sid::new_with_domain(512, &[]).to_string(), "S-1-5-21-512");
    assert_eq!(domain_admins.clone(), domain_admins);
    assert_eq!(domain_admins.len(), 28);
}

#[test]
fn sddl_alias_tables() {
    let nt = IdentifierAuthority::from(SECURITY_NT_AUTHORITY);
    assert_eq!(Sid::sddl_alias(&nt, &[18]), Some("SY"));
    assert_eq!(Sid::sddl_alias(&nt, &[84, 0, 0, 0, 0, 0]), Some("UD"));
    assert_eq!(Sid::sddl_alias(&nt, &[84, 0, 0, 0, 0, 1]), None);
    assert_eq!(Sid::sddl_alias(&nt, &[21, 7, 8, 9, 513]), Some("DU"));
    assert_eq!(Sid::sddl_alias(&nt, &[21]), None);
    assert_eq!(Sid::sddl_alias(&nt, &[32, 551]), Some("BO"));
    assert_eq!(Sid::sddl_alias(&nt, &[32, 559]), Some("LU"));
    assert_eq!(Sid::sddl_alias(&nt, &[32, 544, 1]), None);
    assert_eq!(Sid::sddl_alias(&nt, &[32]), None);
    assert_eq!(Sid::sddl_alias(&nt, &[]), None);
    assert_eq!(Sid::sddl_alias(&IdentifierAuthority::from(3), &[4]), Some("OW"));
    assert_eq!(Sid::sddl_alias(&IdentifierAuthority::from(15), &[2, 1]), Some("AC"));
    assert_eq!(Sid::sddl_alias(&IdentifierAuthority::from(16), &[8448]), Some("MP"));
    assert_eq!(Sid::sddl_alias(&IdentifierAuthority::from(18), &[2]), Some("SS"));
    assert_eq!(Sid::sddl_alias(&IdentifierAuthority::from(2), &[0]), None);
    assert_eq!(Sid::sddl_domain_alias(&[21, 1, 500]), Some("LA"));
    assert_eq!(Sid::sddl_builtin_alias(&[32, 580]), Some("RM"));
    assert_eq!(
        Sid::alias_for(&IdentifierAuthority::from_bytes([1, 0, 0, 0, 0, 5]), &[18]),
        None
    );
}

#[test]
fn alias_names() {
    assert_eq!(SidAlias::BA.short_name(), "BA");
    assert_eq!(SidAlias::BA.long_name(), "BUILTIN\\Administrators");
    assert_eq!(SidAlias::WD.long_name(), "Everyone");
    assert_eq!(SidAlias::DA.long_name(), "<DOMAIN>\\Domain Admins");
    assert_eq!(SidAlias::SH.short_name(), "SH");
    assert_eq!(SidAlias::from_letters('S', 'Y'), Some(SidAlias::SY));
    assert_eq!(SidAlias::from_letters('s', 'y'), None);
    assert_eq!(SidAlias::SY.letter_pair(), ('S', 'Y'));
}

#[test]
fn aliases_of_a_domain_need_the_domain() {
    let parser = SidParser::new();
    assert!(matches!(
        parser.parse(None, "DA"),
        Err(Error::MissingDomainInformation)
    ));
    assert_eq!(
        parser.parse(Some(&[7, 8]), "DA").unwrap().to_string(),
        "S-1-5-21-000000007-000000008-512"
    );
    assert_eq!(parser.parse(None, "BA").unwrap().to_string(), "S-1-5-32-544");
    assert_eq!(parser.parse(None, "S-1-5-18").unwrap().alias(), Some("SY"));
    assert_eq!(syntax_cause(parser.parse(None, "XX")), SyntaxCause::UnknownSidAlias);
    assert_eq!(syntax_cause(parser.parse(None, "HO")), SyntaxCause::UnknownSidAlias);
    assert_eq!(syntax_cause(parser.parse(None, "S-")), SyntaxCause::UnknownSidAlias);
    assert!(matches!(
        parser.parse(None, "S-1-5"),
        Err(Error::IllegalSidFormat(_, SidFormatCause::TooFewSubAuthorities))
    ));
    let long = [1u32; 14];
    assert!(matches!(
        parser.parse(Some(&long), "DA"),
        Err(Error::IllegalSidFormat(_, SidFormatCause::TooManySubAuthorities))
    ));
}

#[test]
fn identifier_authority() {
    let nt = IdentifierAuthority::from(5);
    assert!(nt.is_well_known());
    assert_eq!(nt.value(), &[0, 0, 0, 0, 0, 5]);
    assert_eq!(nt.to_string(), "5");
    assert_eq!(nt.to_number(), 5);
    assert!(!IdentifierAuthority::from(15).is_well_known());
    let big = IdentifierAuthority::from_bytes([1, 2, 3, 4, 5, 6]);
    assert!(!big.is_well_known());
    assert_eq!(big.to_number(), 0x010203040506);
    assert_eq!(big.to_string(), "1108152157446");
    assert_eq!(IdentifierAuthority::from_number(0x010203040506), big);
}

#[test]
fn access_mask_text() {
    let text = |bits: u32| AccessMask::from(bits).sddl_string();
    assert_eq!(text(FILE_ALL), "FA");
    assert_eq!(text(FILE_READ), "FR");
    assert_eq!(text(FILE_WRITE), "FW");
    assert_eq!(text(FILE_EXECUTE), "FX");
    assert_eq!(text(KEY_ALL), "KA");
    assert_eq!(text(KEY_READ), "KR");
    assert_eq!(text(KEY_WRITE), "KW");
    assert_eq!(text(0), "");
    assert_eq!(text(GENERIC_READ | GENERIC_EXECUTE), "GRGX");
    assert_eq!(
        text(
            GENERIC_READ
                | GENERIC_WRITE
                | GENERIC_EXECUTE
                | GENERIC_ALL
                | MAXIMUM_ALLOWED
                | ACCESS_SYSTEM_SECURITY
                | SYNCHRONIZE
                | WRITE_OWNER
                | WRITE_DACL
                | READ_CONTROL
                | DELETE
        ),
        "GRGWGXGAMAASSYWOWDRCSD"
    );
    // the rights that depend on the kind of object are not written
    assert_eq!(text(GENERIC_READ | WRITE_PROPERTY), "GR");
    assert_eq!(AccessMask::from(0x8012_3456).object_specific_flags(), 0x3456);
    assert!(AccessMask::from(FILE_ALL).contains(SYNCHRONIZE));
    assert!(!AccessMask::from(FILE_READ).contains(DELETE));
    assert_eq!(
        AccessMask::from(1).union(AccessMask::from(2)),
        AccessMask::from_bits(3)
    );
    assert_eq!(AccessMask::empty().bits(), 0);
}

#[test]
fn access_mask_parsing() {
    let parser = AccessMaskParser::new();
    assert_eq!(parser.parse(None, "").unwrap().bits(), 0);
    assert_eq!(parser.parse(None, "0x1F01ff").unwrap().bits(), FILE_ALL);
    assert_eq!(parser.parse(None, "0x0").unwrap().bits(), 0);
    assert_eq!(parser.parse(None, "0xFFFFFFFF").unwrap().bits(), 0xffff_ffff);
    assert_eq!(parser.parse(None, "0x0000000001").unwrap().bits(), 1);
    assert_eq!(
        parser.parse(None, "CCDCLCSWRPWPDTLOCR").unwrap().bits(),
        0x1ff
    );
    assert_eq!(parser.parse(None, "NWNRNX").unwrap().bits(), 7);
    assert_eq!(parser.parse(None, "KX").unwrap().bits(), KEY_READ);
    assert_eq!(parser.parse(None, "GW").unwrap().bits(), GENERIC_WRITE);
    for bad in ["0x", "0x100000000", "0xg", "G", "GRG", "gr", "QQ", "0X10", "GR "] {
        assert_eq!(
            syntax_cause(parser.parse(None, bad)),
            SyntaxCause::IllegalAccessMask
        );
    }
}

#[test]
fn ace_header_flags_text() {
    let text = |bits: u8| AceHeaderFlags::from_bits(bits).sddl_string();
    assert_eq!(text(0), "");
    assert_eq!(text(OBJECT_INHERIT_ACE | CONTAINER_INHERIT_ACE), "OICI");
    assert_eq!(
        text(
            OBJECT_INHERIT_ACE
                | CONTAINER_INHERIT_ACE
                | NO_PROPAGATE_INHERIT_ACE
                | INHERIT_ONLY_ACE
                | INHERITED_ACE
                | SUCCESSFUL_ACCESS_ACE_FLAG
                | FAILED_ACCESS_ACE_FLAG
                | CRITICAL
        ),
        "OICINPIOIDSAFACR"
    );
    let chars: Vec<char> = "CIOITP".chars().collect();
    assert_eq!(
        AceHeaderFlags::from_sddl(&chars, 0, 6).unwrap().bits(),
        0x43
    );
    assert_eq!(AceHeaderFlags::from_sddl(&chars, 0, 5), None);
    assert_eq!(AceHeaderFlags::from_sddl(&chars, 1, 5), None);
    assert_eq!(AceHeaderFlags::from_sddl(&chars, 1, 3).unwrap().bits(), INHERIT_ONLY_ACE);
    assert!(AceHeaderFlags::from_bits(3).contains(1));
    assert_eq!(
        AceHeaderFlags::from_bits(1).union(AceHeaderFlags::from_bits(2)).bits(),
        3
    );
}

#[test]
fn control_flags_text() {
    let flags = ControlFlags::from_bits(
        SELF_RELATIVE
            | DISCRETIONARY_ACL_PROTECTED
            | DISCRETIONARY_ACL_AUTO_INHERITED
            | SYSTEM_ACL_AUTO_INHERITED,
    );
    assert_eq!(flags.sddl_string(AclType::DACL), "PAI");
    assert_eq!(flags.sddl_string(AclType::SACL), "AI");
    assert_eq!(
        ControlFlags::from_bits(DISCRETIONARY_ACL_AUTO_INHERIT_REQUIRED).sddl_string(AclType::DACL),
        "AR"
    );
    assert_eq!(ControlFlags::empty().sddl_string(AclType::DACL), "NO_ACCESS_CONTROL");
    assert_eq!(ControlFlags::from_bits(SELF_RELATIVE).sddl_string(AclType::SACL), "");
    assert_eq!(AclType::SACL.sddl_string(), "S");
    assert_eq!(AclType::DACL.sddl_string(), "D");
    assert_eq!(AclRevision::default(), AclRevision::ACL_REVISION);
    assert_eq!(AclRevision::ACL_REVISION_DS.code(), 4);
    assert_eq!(AclRevision::from_code(2), Some(AclRevision::ACL_REVISION));
    assert_eq!(AclRevision::from_code(3), None);
}

#[test]
fn ace_sizes() {
    assert_eq!(*AceHeader::new(AceHeaderFlags::empty(), 0, AccessMask::empty()).ace_size(), 8);
    assert_eq!(*AceHeader::new(AceHeaderFlags::empty(), 12, AccessMask::empty()).ace_size(), 20);
    assert_eq!(*AceHeader::new(AceHeaderFlags::empty(), 13, AccessMask::empty()).ace_size(), 24);
    assert_eq!(*AceHeader::new(AceHeaderFlags::empty(), 15, AccessMask::empty()).ace_size(), 24);
    assert_eq!(*AceHeader::new(AceHeaderFlags::empty(), 16, AccessMask::empty()).ace_size(), 24);
    assert_eq!(AceHeader::expected_padding(13), 3);
    assert_eq!(AceHeader::expected_padding(16), 0);
    let sid = || Sid::try_from("S-1-5-32-544").unwrap();
    let plain = Ace::access_allowed(AceHeaderFlags::empty(), AccessMask::empty(), sid());
    assert_eq!(*plain.header().ace_size(), 24);
    for len in 0..9usize {
        let ace = Ace::resource_attribute(
            AceHeaderFlags::empty(),
            AccessMask::empty(),
            sid(),
            vec![1; len],
        );
        let size = *ace.header().ace_size() as usize;
        assert_eq!(size % 4, 0);
        assert_eq!(size, 8 + (16 + len + 3) / 4 * 4);
        assert_eq!(ace.raw_size() as usize, size);
        assert_eq!(ace.to_bytes().len(), size);
    }
    assert!(Ace::size_fits(false, 0, 16, 65508));
    assert!(!Ace::size_fits(false, 0, 16, 65509));
    assert!(Ace::size_fits(true, 2, 16, 65472));
    assert!(!Ace::size_fits(true, 2, 16, 65473));
}

#[test]
fn ace_kinds_have_their_tags_and_letters() {
    let sid = || Sid::try_from("S-1-1-0").unwrap();
    let f = AceHeaderFlags::empty();
    let m = AccessMask::empty();
    let aces = vec![
        (Ace::access_allowed(f, m, sid()), 0x00, "A"),
        (Ace::access_denied(f, m, sid()), 0x01, "D"),
        (Ace::audit(f, m, sid()), 0x02, "AU"),
        (Ace::access_allowed_object(f, m, None, None, sid()), 0x05, "OA"),
        (Ace::access_denied_object(f, m, None, None, sid()), 0x06, "OD"),
        (Ace::audit_object(f, m, None, None, sid(), vec![]), 0x07, "OU"),
        (Ace::access_allowed_callback(f, m, sid(), vec![]), 0x09, "XA"),
        (Ace::access_denied_callback(f, m, sid(), vec![]), 0x0a, "XD"),
        (
            Ace::access_allowed_object_callback(f, m, None, None, sid(), vec![]),
            0x0b,
            "ZA",
        ),
        (
            Ace::access_denied_object_callback(f, m, None, None, sid(), vec![]),
            0x0c,
            "ZD",
        ),
        (Ace::audit_callback(f, m, sid(), vec![]), 0x0d, "XU"),
        (Ace::audit_callback_object(f, m, None, None, sid(), vec![]), 0x0f, "ZU"),
        (Ace::mandatory_label(f, m, sid()), 0x11, "ML"),
        (Ace::resource_attribute(f, m, sid(), vec![]), 0x12, "RA"),
        (Ace::scoped_policy_id(f, m, sid()), 0x13, "SP"),
    ];
    for (ace, tag, letters) in aces {
        assert_eq!(ace.ace_type().code(), tag);
        assert_eq!(AceType::from_code(tag), Some(ace.ace_type()));
        assert_eq!(ace.type_string(), letters);
        let bytes = ace.to_bytes();
        assert_eq!(bytes[0], tag);
        assert_eq!(Ace::read_from(&bytes, 0).unwrap().0, ace);
        assert_eq!(ace.clone(), ace);
    }
    assert_eq!(AceType::from_code(0x14), None);
    assert!(AceType::SYSTEM_ALARM_ACE_TYPE.is_reserved());
    assert!(!AceType::SYSTEM_AUDIT_ACE_TYPE.is_reserved());
    assert!(AceType::SYSTEM_AUDIT_OBJECT_ACE_TYPE.has_application_data());
    assert!(AceType::ACCESS_DENIED_OBJECT_ACE_TYPE.has_object_fields());
    assert!(!AceType::ACCESS_DENIED_OBJECT_ACE_TYPE.has_application_data());
}

#[test]
fn ace_text() {
    let ace = Ace::access_allowed(
        AceHeaderFlags::from_bits(CONTAINER_INHERIT_ACE | OBJECT_INHERIT_ACE),
        AccessMask::from(GENERIC_READ | GENERIC_EXECUTE),
        Sid::new_builtin(545),
    );
    assert_eq!(ace.to_string(), "A;OICI;GRGX;;;BU");
    let ace = Ace::audit(
        AceHeaderFlags::from_bits(FAILED_ACCESS_ACE_FLAG),
        AccessMask::from(FILE_ALL),
        Sid::try_from("S-1-5-21-1-2-3-1013").unwrap(),
    );
    assert_eq!(ace.to_string(), "AU;FA;FA;;;S-1-5-21-000000001-000000002-000000003-1013");
}

#[test]
fn acl_text() {
    let acl = Acl::from_sddl("D:PAI(A;CIOI;GRGX;;;BU)(D;;0x3;;;S-1-5-21-9-1013)", None).unwrap();
    assert_eq!(*acl.acl_type(), AclType::DACL);
    assert_eq!(*acl.ace_count(), 2);
    assert_eq!(*acl.acl_revision(), AclRevision::ACL_REVISION);
    assert_eq!(
        acl.control_flags().bits(),
        DISCRETIONARY_ACL_PROTECTED | DISCRETIONARY_ACL_AUTO_INHERITED
    );
    assert_eq!(*acl.acl_size(), 8 + 24 + 28);
    assert_eq!(acl.ace_list()[1].header().mask().bits(), 3);
    assert_eq!(acl.to_string(), "(A;OICI;GRGX;;;BU)(D;;;;;S-1-5-21-000000009-1013)");
    assert_eq!(
        acl.sddl_string(),
        "D:PAI(A;OICI;GRGX;;;BU)(D;;;;;S-1-5-21-000000009-1013)"
    );
    let empty = Acl::from_sddl("S:", None).unwrap();
    assert_eq!(*empty.ace_count(), 0);
    assert_eq!(*empty.acl_size(), 8);
    assert_eq!(empty.sddl_string(), "S:NO_ACCESS_CONTROL");
    assert_eq!(Acl::from_sddl("S:NO_ACCESS_CONTROL", None).unwrap(), empty);
    assert_eq!(
        Acl::from_sddl("S:ARAI", None).unwrap().control_flags().bits(),
        0x0200 | SYSTEM_ACL_AUTO_INHERITED
    );
    assert_eq!(acl.clone(), acl);
}

#[test]
fn object_entries_in_text() {
    let acl = AclParser::new()
        .parse(
            Some(&[1, 2, 3]),
            "D:(OA;;RP;a1a2a3a4-b1b2-c1c2-d1d2-d3d4d5d6d7d8;;DA)(OU;SA;WP;;a1a2a3a4-b1b2-c1c2-d1d2-d3d4d5d6d7d8;WD)(A;;GA;a1a2a3a4-b1b2-c1c2-d1d2-d3d4d5d6d7d8;;WD)",
        )
        .unwrap();
    assert_eq!(*acl.acl_revision(), AclRevision::ACL_REVISION_DS);
    let first = &acl.ace_list()[0];
    assert_eq!(first.ace_type(), AceType::ACCESS_ALLOWED_OBJECT_ACE_TYPE);
    assert_eq!(
        first.object_type().unwrap().to_string(),
        "a1a2a3a4-b1b2-c1c2-d1d2-d3d4d5d6d7d8"
    );
    assert!(first.inherited_object_type().is_none());
    assert_eq!(*first.header().ace_size(), 8 + 4 + 16 + 28);
    assert_eq!(first.sid().to_string(), "S-1-5-21-000000001-000000002-000000003-512");
    let second = &acl.ace_list()[1];
    assert_eq!(second.ace_type(), AceType::SYSTEM_AUDIT_OBJECT_ACE_TYPE);
    assert!(second.object_type().is_none());
    assert!(second.inherited_object_type().is_some());
    assert!(second.application_data().is_empty());
    // a kind without object types keeps none
    assert!(acl.ace_list()[2].object_type().is_none());
    // the object types are not written
    assert_eq!(acl.ace_list()[0].to_string(), "OA;;;;;DA");
}

#[test]
fn syntax_errors() {
    let acl = |text: &str| syntax_cause(Acl::from_sddl(text, None));
    assert_eq!(acl(""), SyntaxCause::MissingSectionTag);
    assert_eq!(acl("D"), SyntaxCause::MissingSectionTag);
    assert_eq!(acl("DD:"), SyntaxCause::MissingSectionTag);
    assert_eq!(acl(":"), SyntaxCause::MissingSectionTag);
    assert_eq!(acl("O:BA"), SyntaxCause::UnexpectedSection);
    assert_eq!(acl("D:S:"), SyntaxCause::UnexpectedSection);
    assert_eq!(acl("D:X"), SyntaxCause::IllegalAclFlags);
    assert_eq!(acl("D:AIP"), SyntaxCause::IllegalAclFlags);
    assert_eq!(acl("D:PP"), SyntaxCause::IllegalAclFlags);
    assert_eq!(acl("D:P(A;;GA;;;WD"), SyntaxCause::IllegalAceList);
    assert_eq!(acl("D:P(A;;GA;;;WD)x"), SyntaxCause::IllegalAceList);
    assert_eq!(acl("D:P(A;;GA;;;WD)A;;GA;;;WD)"), SyntaxCause::IllegalAceList);
    assert_eq!(acl("D:()"), SyntaxCause::WrongFieldCount);
    assert_eq!(acl("D:(A;;GA;;WD)"), SyntaxCause::WrongFieldCount);
    assert_eq!(acl("D:(A;;GA;;;WD;)"), SyntaxCause::WrongFieldCount);
    assert_eq!(acl("D:(Q;;GA;;;WD)"), SyntaxCause::UnknownAceType);
    assert_eq!(acl("D:(;;GA;;;WD)"), SyntaxCause::UnknownAceType);
    assert_eq!(acl("D:(XA;;GA;;;WD)"), SyntaxCause::UnsupportedAceType);
    assert_eq!(acl("D:(AL;;GA;;;WD)"), SyntaxCause::UnsupportedAceType);
    assert_eq!(acl("D:(A;XX;GA;;;WD)"), SyntaxCause::IllegalAceFlags);
    assert_eq!(acl("D:(A;;XX;;;WD)"), SyntaxCause::IllegalAccessMask);
    assert_eq!(acl("D:(A;;GA;zz;;WD)"), SyntaxCause::IllegalGuid);
    assert_eq!(acl("D:(A;;GA;;zz;WD)"), SyntaxCause::IllegalGuid);
    assert_eq!(acl("D:(A;;GA;;;ZZ)"), SyntaxCause::UnknownSidAlias);
    match Acl::from_sddl("D:P(A;;GA;;;WD)(A;;GA;;;QQ)", None) {
        Err(Error::ParseError(e)) => assert_eq!(e.position, 24),
        other => panic!("expected a syntax error, got {other:?}"),
    }
    assert!(matches!(
        Acl::from_sddl("D:(A;;GA;;;DA)", None),
        Err(Error::MissingDomainInformation)
    ));
    assert!(matches!(
        Acl::from_sddl("D:(A;;GA;;;S-1-5)", None),
        Err(Error::IllegalSidFormat(_, SidFormatCause::TooFewSubAuthorities))
    ));
    let sd = |text: &str| syntax_cause(SecurityDescriptor::from_sddl(text, None));
    assert_eq!(sd("BA"), SyntaxCause::MissingSectionTag);
    assert_eq!(sd("OO:BA"), SyntaxCause::MissingSectionTag);
    assert!(matches!(
        SecurityDescriptor::from_sddl("O::BA", None),
        Err(Error::IllegalSidFormat(_, SidFormatCause::PatternMismatch))
    ));
    assert_eq!(sd("D:P:"), SyntaxCause::UnexpectedSection);
    assert_eq!(sd("O:BAO:BA"), SyntaxCause::DuplicateSection);
    assert_eq!(sd("D:D:"), SyntaxCause::DuplicateSection);
    assert_eq!(sd("X:BA"), SyntaxCause::UnexpectedSection);
    assert_eq!(sd("O:BAg:BA"), SyntaxCause::UnexpectedSection);
    assert!(matches!(
        SecurityDescriptor::from_sddl("O:BA G:BA", None),
        Err(Error::IllegalSidFormat(_, SidFormatCause::PatternMismatch))
    ));
}

#[test]
fn end_to_end_scenario() {
    let text = "O:BAG:BAD:P(A;CIOI;GRGX;;;BU)(A;CIOI;GA;;;BA)(A;CIOI;GA;;;SY)(A;CIOI;GA;;;CO)S:P(AU;FA;GR;;;WD)";
    let sd = SecurityDescriptor::from_sddl(text, Some(&[1, 2, 3])).unwrap();
    assert_eq!(sd.owner().as_ref().unwrap().alias(), Some("BA"));
    assert_eq!(sd.group().as_ref().unwrap().alias(), Some("BA"));
    let dacl = sd.dacl().as_ref().unwrap();
    assert_eq!(*dacl.ace_count(), 4);
    assert_eq!(dacl.ace_list().len(), 4);
    assert!(dacl.control_flags().contains(DISCRETIONARY_ACL_PROTECTED));
    let sacl = sd.sacl().as_ref().unwrap();
    assert_eq!(*sacl.ace_count(), 1);
    assert!(sacl.control_flags().contains(SYSTEM_ACL_PROTECTED));
    assert_eq!(
        sd.flags().bits(),
        SELF_RELATIVE
            | DISCRETIONARY_ACL_PRESENT
            | SYSTEM_ACL_PRESENT
            | DISCRETIONARY_ACL_PROTECTED
            | SYSTEM_ACL_PROTECTED
    );
    let reversed = SecurityDescriptorParser::new()
        .parse(
            Some(&[1, 2, 3]),
            "O:BAG:BAS:P(AU;FA;GR;;;WD)D:P(A;CIOI;GRGX;;;BU)(A;CIOI;GA;;;BA)(A;CIOI;GA;;;SY)(A;CIOI;GA;;;CO)",
        )
        .unwrap();
    assert_eq!(reversed, sd);
}

#[test]
fn sddl_text_is_read_back() {
    let text = "O:BAG:BAD:P(A;CIOI;GRGX;;;BU)(A;CIOI;GA;;;BA)(A;CIOI;GA;;;SY)(A;CIOI;GA;;;CO)S:P(AU;FA;GR;;;WD)";
    let sd = SecurityDescriptor::from_sddl(text, None).unwrap();
    let written = sd.to_string();
    assert_eq!(
        written,
        "O:S-1-5-32-544G:S-1-5-32-544S:P(AU;FA;GR;;;WD)D:P(A;OICI;GRGX;;;BU)(A;OICI;GA;;;BA)(A;OICI;GA;;;SY)(A;OICI;GA;;;CO)"
    );
    assert_eq!(SecurityDescriptor::from_sddl(&written, None).unwrap(), sd);
    // binary and text agree
    let bytes = sd.to_bytes();
    let read = SecurityDescriptor::from_bytes(&bytes).unwrap();
    assert_eq!(read, sd);
    assert_eq!(read.to_string(), written);
    for text in [
        "",
        "O:S-1-5-18",
        "G:S-1-5-21-000000001-000000002-3",
        "D:",
        "S:ARAI",
        "S:PD:AI(D;IDSA;KA;;;WD)",
    ] {
        let sd = SecurityDescriptor::from_sddl(text, Some(&[1, 2, 3])).unwrap();
        assert_eq!(sd.to_string(), text);
    }
}

#[test]
fn descriptor_from_parts() {
    let dacl = Acl::new(
        AclRevision::ACL_REVISION,
        AclType::DACL,
        ControlFlags::from_bits(DISCRETIONARY_ACL_PROTECTED),
        vec![],
    );
    let sd = SecurityDescriptor::new(Some(Sid::new_builtin(544)), None, Some(dacl), None);
    assert_eq!(
        sd.flags().bits(),
        SELF_RELATIVE | DISCRETIONARY_ACL_PRESENT | DISCRETIONARY_ACL_PROTECTED
    );
    assert_eq!(sd.to_string(), "O:S-1-5-32-544D:P");
    assert_eq!(sd.dacl_as_sddl_string().unwrap(), "D:P");
    assert_eq!(sd.sacl_as_sddl_string(), None);
    let none = SecurityDescriptor::new(None, None, None, None);
    assert_eq!(none.flags().bits(), SELF_RELATIVE);
    assert_eq!(none.to_string(), "");
    assert_eq!(none.to_bytes().len(), 20);
    let sacl = Acl::new(
        AclRevision::ACL_REVISION,
        AclType::SACL,
        ControlFlags::from_bits(SYSTEM_ACL_AUTO_INHERITED),
        vec![],
    );
    let sd = SecurityDescriptor::new(None, Some(Sid::new_builtin(545)), None, Some(sacl));
    assert_eq!(
        sd.flags().bits(),
        SELF_RELATIVE | SYSTEM_ACL_PRESENT | SYSTEM_ACL_AUTO_INHERITED
    );
    assert_eq!(sd.to_string(), "G:S-1-5-32-545S:AI");
}

#[test]
fn acl_sizes() {
    let mut list = Vec::new();
    let mut sum = 8u16;
    for i in 0..10u32 {
        let ace = Ace::access_allowed(
            AceHeaderFlags::empty(),
            AccessMask::from(i),
            Sid::new_with_domain(i, &[1, 2, 3][..(i as usize % 4)]),
        );
        sum += ace.raw_size();
        list.push(ace);
    }
    assert_eq!(Acl::total_size(&list), Some(sum));
    let acl = Acl::new(AclRevision::ACL_REVISION, AclType::DACL, ControlFlags::empty(), list);
    assert_eq!(*acl.acl_size(), sum);
    assert_eq!(acl.to_bytes().len(), sum as usize);
    let big: Vec<Ace> = (0..3000)
        .map(|_| {
            Ace::access_allowed(AceHeaderFlags::empty(), AccessMask::empty(), Sid::new_builtin(1))
        })
        .collect();
    assert_eq!(Acl::total_size(&big), None);
}

fn position<T: std::fmt::Debug>(r: Result<T, Error>) -> usize {
    match r {
        Err(Error::ParseError(e)) => e.position,
        other => panic!("expected a syntax error, got {other:?}"),
    }
}

#[test]
fn syntax_error_positions() {
    let sd = |text: &str| position(SecurityDescriptor::from_sddl(text, None));
    //        0123456789012345678901234567890
    assert_eq!(sd("BA"), 0);
    assert_eq!(sd("OO:BA"), 0);
    assert_eq!(sd("O:BAX:BA"), 4);
    assert_eq!(sd("O:BAO:BA"), 4);
    assert_eq!(sd("O:QQ"), 2);
    assert_eq!(sd("O:BAG:QQ"), 6);
    assert_eq!(sd("O:BAD:X(A;;GA;;;WD)"), 6);
    assert_eq!(sd("O:BAD:P(A;;GA;;;WD)x"), 19);
    assert_eq!(sd("O:BAD:P(A;;GA;;;WD)A;;GA;;;WD)"), 19);
    assert_eq!(sd("O:BAD:P(A;;GA;;;WD)(A;;GA;;WD)"), 20);
    assert_eq!(sd("O:BAD:P(Q;;GA;;;WD)"), 8);
    assert_eq!(sd("O:BAD:P(A;xx;GA;;;WD)"), 10);
    assert_eq!(sd("O:BAD:P(A;CI;gA;;;WD)"), 13);
    assert_eq!(sd("O:BAD:P(A;CI;GA;zz;;WD)"), 16);
    assert_eq!(sd("O:BAD:P(A;CI;GA;;zz;WD)"), 17);
    assert_eq!(sd("O:BAD:P(A;CI;GA;;;QQ)"), 18);
    assert_eq!(sd("O:BAD:P(A;CI;GA;;;WD)(A;CI;GA;;;QQ)"), 32);
    let acl = |text: &str| position(Acl::from_sddl(text, None));
    assert_eq!(acl("D"), 0);
    assert_eq!(acl("X:P"), 0);
    assert_eq!(acl("D:PS:"), 4);
    assert_eq!(acl("D:PP"), 2);
    assert_eq!(acl("D:P(A;;GA;;;QQ)"), 12);
    assert_eq!(position(AccessMask::try_from("GRQQ")), 0);
    assert_eq!(position(SidParser::new().parse(None, "QQ")), 0);
}
