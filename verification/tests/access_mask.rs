use sddl::access_mask::{
    FILE_ALL, FILE_EXECUTE, FILE_READ, FILE_WRITE, GENERIC_EXECUTE, GENERIC_READ, KEY_ALL,
    KEY_EXECUTE, KEY_READ, KEY_WRITE, WRITE_PROPERTY,
};
use sddl::AccessMask;

#[test]
fn test_simple_mask() {
    assert_eq!(
        AccessMask::try_from("0x80000000").unwrap(),
        AccessMask::from(GENERIC_READ)
    );
    assert_ne!(
        AccessMask::try_from("0x80000001").unwrap(),
        AccessMask::from(GENERIC_READ)
    );
}

#[test]
fn test_complex_mask1() {
    assert_eq!(
        AccessMask::try_from("GRGXWP").unwrap(),
        AccessMask::from(GENERIC_READ | GENERIC_EXECUTE | WRITE_PROPERTY)
    );
}

#[test]
fn test_complex_mask2() {
    assert_eq!(AccessMask::try_from("FA").unwrap(), AccessMask::from(FILE_ALL));
}

#[test]
fn test_statics() {
    assert_eq!(AccessMask::from(FILE_ALL).bits(), 0x001F01FF);
    assert_eq!(AccessMask::from(FILE_EXECUTE).bits(), 0x001200A0);
    assert_eq!(AccessMask::from(FILE_WRITE).bits(), 0x00120116);
    assert_eq!(AccessMask::from(FILE_READ).bits(), 0x00120089);
    assert_eq!(AccessMask::from(KEY_ALL).bits(), 0x000F003F);
    assert_eq!(AccessMask::from(KEY_READ).bits(), 0x00020019);
    assert_eq!(AccessMask::from(KEY_EXECUTE).bits(), 0x00020019);
    assert_eq!(AccessMask::from(KEY_WRITE).bits(), 0x00020006);
}
