use sddl::access_mask::{FILE_ALL, KEY_READ};
use sddl::{
    AccessMask, Ace, AceHeaderFlags, Acl, AclRevision, AclType, ControlFlags, Guid,
    IdentifierAuthority, SecurityDescriptor, Sid,
};

/// A small generator of numbers that look arbitrary and are the same on every
/// run.
struct Numbers(u64);

impl Numbers {
    fn next(&mut self) -> u64 {
        self.0 = self
            .0
            .wrapping_mul(6364136223846793005)
            .wrapping_add(1442695040888963407);
        self.0 >> 33
    }

    fn below(&mut self, n: u64) -> u64 {
        self.next() % n
    }
}

fn some_sid(n: &mut Numbers) -> Sid {
    match n.below(5) {
        0 => Sid::new_builtin(544 + n.below(40) as u32),
        1 => Sid::new_with_domain(498 + n.below(60) as u32, &[1, 2, 3]),
        2 => Sid::new(IdentifierAuthority::from(n.below(20) as u8), &[n.below(20) as u32]),
        _ => {
            let count = 1 + n.below(15) as usize;
            let subs: Vec<u32> = (0..count).map(|_| n.next() as u32).collect();
            Sid::new(
                IdentifierAuthority::from_number(n.next() % (1 << 48)),
                &subs,
            )
        }
    }
}

fn some_guid(n: &mut Numbers) -> Option<Guid> {
    if n.below(2) == 0 {
        None
    } else {
        let mut bytes = [0u8; 16];
        for b in bytes.iter_mut() {
            *b = n.next() as u8;
        }
        Some(Guid::from_bytes(bytes))
    }
}

fn some_data(n: &mut Numbers) -> Vec<u8> {
    let len = n.below(12) as usize;
    (0..len).map(|_| n.next() as u8).collect()
}

fn some_ace(n: &mut Numbers) -> Ace {
    let f = AceHeaderFlags::from_bits(n.next() as u8);
    let m = AccessMask::from(n.next() as u32);
    let sid = some_sid(n);
    match n.below(15) {
        0 => Ace::access_allowed(f, m, sid),
        1 => Ace::access_denied(f, m, sid),
        2 => Ace::audit(f, m, sid),
        3 => Ace::mandatory_label(f, m, sid),
        4 => Ace::scoped_policy_id(f, m, sid),
        5 => Ace::access_allowed_object(f, m, some_guid(n), some_guid(n), sid),
        6 => Ace::access_denied_object(f, m, some_guid(n), some_guid(n), sid),
        7 => Ace::access_allowed_callback(f, m, sid, some_data(n)),
        8 => Ace::access_denied_callback(f, m, sid, some_data(n)),
        9 => Ace::audit_callback(f, m, sid, some_data(n)),
        10 => Ace::resource_attribute(f, m, sid, some_data(n)),
        11 => Ace::access_allowed_object_callback(f, m, some_guid(n), some_guid(n), sid, some_data(n)),
        12 => Ace::access_denied_object_callback(f, m, some_guid(n), some_guid(n), sid, some_data(n)),
        13 => Ace::audit_object(f, m, some_guid(n), some_guid(n), sid, some_data(n)),
        _ => Ace::audit_callback_object(f, m, some_guid(n), some_guid(n), sid, some_data(n)),
    }
}

fn some_acl(n: &mut Numbers, acl_type: AclType) -> Option<Acl> {
    if n.below(4) == 0 {
        return None;
    }
    let count = n.below(5);
    let list: Vec<Ace> = (0..count).map(|_| some_ace(n)).collect();
    let revision = if n.below(2) == 0 {
        AclRevision::ACL_REVISION
    } else {
        AclRevision::ACL_REVISION_DS
    };
    Some(Acl::new(
        revision,
        acl_type,
        ControlFlags::from_bits(n.next() as u16),
        list,
    ))
}

fn some_descriptor(n: &mut Numbers) -> SecurityDescriptor {
    let owner = if n.below(4) == 0 { None } else { Some(some_sid(n)) };
    let group = if n.below(4) == 0 { None } else { Some(some_sid(n)) };
    let dacl = some_acl(n, AclType::DACL);
    let sacl = some_acl(n, AclType::SACL);
    SecurityDescriptor::new(owner, group, dacl, sacl)
}

#[test]
fn binary_round_trip_of_many_descriptors() {
    let mut n = Numbers(7);
    for _ in 0..500 {
        let sd = some_descriptor(&mut n);
        let bytes = sd.to_bytes();
        let read = SecurityDescriptor::from_bytes(&bytes).unwrap();
        // what is read is what was written, but for the padding that the
        // application data takes in
        assert_eq!(read.flags(), sd.flags());
        assert_eq!(read.owner(), sd.owner());
        assert_eq!(read.group(), sd.group());
        for (a, b) in [(read.dacl(), sd.dacl()), (read.sacl(), sd.sacl())] {
            assert_eq!(a.is_some(), b.is_some());
            if let (Some(a), Some(b)) = (a, b) {
                assert_eq!(a.acl_revision(), b.acl_revision());
                assert_eq!(a.acl_size(), b.acl_size());
                assert_eq!(a.ace_count(), b.ace_count());
                for (x, y) in a.ace_list().iter().zip(b.ace_list().iter()) {
                    assert_eq!(x.ace_type(), y.ace_type());
                    assert_eq!(x.header(), y.header());
                    assert_eq!(x.object_type(), y.object_type());
                    assert_eq!(x.inherited_object_type(), y.inherited_object_type());
                    assert_eq!(x.sid(), y.sid());
                    let data = y.application_data();
                    assert_eq!(&x.application_data()[..data.len()], &data[..]);
                    assert!(x.application_data()[data.len()..].iter().all(|b| *b == 0));
                    assert_eq!((x.application_data().len() - data.len()) % 4, (4 - data.len() % 4) % 4);
                    assert_eq!(*x.header().ace_size() % 4, 0);
                    assert_eq!(x.raw_size() as usize, x.to_bytes().len());
                }
                assert_eq!(
                    *a.acl_size() as usize,
                    8 + a.ace_list().iter().map(|x| x.raw_size() as usize).sum::<usize>()
                );
            }
        }
        // reading, writing and reading again gives the same
        let again = read.to_bytes();
        assert_eq!(again, bytes);
        assert_eq!(SecurityDescriptor::from_bytes(&again).unwrap(), read);
    }
}

fn written_mask(n: &mut Numbers) -> AccessMask {
    match n.below(4) {
        0 => AccessMask::from(FILE_ALL),
        1 => AccessMask::from(KEY_READ),
        _ => AccessMask::from((n.next() as u32) & 0xb71f_0000),
    }
}

fn written_ace(n: &mut Numbers) -> Ace {
    let f = AceHeaderFlags::from_bits(n.next() as u8);
    let m = written_mask(n);
    let sid = some_sid(n);
    match n.below(8) {
        0 => Ace::access_allowed(f, m, sid),
        1 => Ace::access_denied(f, m, sid),
        2 => Ace::audit(f, m, sid),
        3 => Ace::mandatory_label(f, m, sid),
        4 => Ace::scoped_policy_id(f, m, sid),
        5 => Ace::access_allowed_object(f, m, None, None, sid),
        6 => Ace::access_denied_object(f, m, None, None, sid),
        _ => Ace::audit_object(f, m, None, None, sid, vec![]),
    }
}

fn written_acl(n: &mut Numbers, acl_type: AclType) -> Option<Acl> {
    if n.below(4) == 0 {
        return None;
    }
    let count = n.below(5);
    let list: Vec<Ace> = (0..count).map(|_| written_ace(n)).collect();
    let revision = if list.iter().any(|a| a.ace_type().has_object_fields()) {
        AclRevision::ACL_REVISION_DS
    } else {
        AclRevision::ACL_REVISION
    };
    let (p, r, i) = match acl_type {
        AclType::DACL => (0x1000, 0x0100, 0x0400),
        AclType::SACL => (0x2000, 0x0200, 0x0800),
    };
    let flags = (n.next() as u16) & (p | r | i);
    Some(Acl::new(revision, acl_type, ControlFlags::from_bits(flags), list))
}

#[test]
fn sddl_round_trip_of_many_descriptors() {
    let mut n = Numbers(11);
    for _ in 0..500 {
        let owner = if n.below(4) == 0 { None } else { Some(some_sid(&mut n)) };
        let group = if n.below(4) == 0 { None } else { Some(some_sid(&mut n)) };
        let dacl = written_acl(&mut n, AclType::DACL);
        let sacl = written_acl(&mut n, AclType::SACL);
        let sd = SecurityDescriptor::new(owner, group, dacl, sacl);
        let text = sd.to_string();
        let read = SecurityDescriptor::from_sddl(&text, Some(&[1, 2, 3])).unwrap();
        assert_eq!(read, sd, "{text}");
        assert_eq!(read.to_string(), text);
        // text and binary form agree
        assert_eq!(SecurityDescriptor::from_bytes(&read.to_bytes()).unwrap(), sd);
        for acl in [sd.dacl(), sd.sacl()].into_iter().flatten() {
            let alone = acl.sddl_string();
            assert_eq!(&Acl::from_sddl(&alone, Some(&[1, 2, 3])).unwrap(), acl, "{alone}");
        }
    }
}

#[test]
fn sid_round_trips_of_many_sids() {
    let mut n = Numbers(13);
    for _ in 0..2000 {
        let sid = some_sid(&mut n);
        let text = sid.to_string();
        assert_eq!(Sid::try_from(text.as_str()).unwrap(), sid);
        assert_eq!(Sid::from_bytes(&sid.to_bytes()).unwrap(), sid);
        assert_eq!(sid.to_bytes().len(), sid.len());
        if let Some(alias) = sid.alias() {
            let read = sddl::parser::SidParser::new()
                .parse(Some(&[1, 2, 3]), alias)
                .unwrap();
            assert_eq!(read.alias(), Some(alias));
        }
    }
}
