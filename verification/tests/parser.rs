use sddl::access_mask::GENERIC_READ;
use sddl::AccessMask;

#[test]
fn test_access_mask() {
    assert_eq!(
        AccessMask::try_from("0x80000000").unwrap(),
        AccessMask::from(GENERIC_READ)
    );
    assert_ne!(
        AccessMask::try_from("0x80000001").unwrap(),
        AccessMask::from(GENERIC_READ)
    );
}
