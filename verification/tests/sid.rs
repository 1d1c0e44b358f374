use sddl::parser::SidParser;
use sddl::Sid;

#[test]
fn test_null_sid() {
    let my_sid = "S-1-1-0";
    assert_eq!(my_sid, Sid::try_from(my_sid).unwrap().to_string());
}

#[test]
fn test_iisusrs() {
    let my_sid = "S-1-5-32-568";
    assert_eq!(my_sid, Sid::try_from(my_sid).unwrap().to_string());
}

#[test]
fn test_domain_sid() {
    let my_sid = "S-1-5-21-2623811015-3361044348-030300820-1013";
    assert_eq!(my_sid, Sid::try_from(my_sid).unwrap().to_string());
}

#[test]
fn test_all_aliases() {
    let aliases = [
        "AA", "AC", "AN", "AO", "AP", "AS", "AU", "BA", "BG", "BO", "BU", "CA", "CD", "CG", "CN",
        "CO", "CY", "DA", "DC", "DD", "DG", "DU", "EA", "ED", "EK", "ER", "ES", "HA", "HI", "IS",
        "IU", "KA", "LA", "LG", "LS", "LU", "LW", "ME", "MP", "MS", "MU", "NO", "NS", "NU", "OW",
        "PA", "PO", "PS", "PU", "RA", "RC", "RD", "RE", "RM", "RO", "RS", "RU", "SA", "SI", "SO",
        "SS", "SU", "SY", "UD", "WD", "WR",
    ];
    let domain = [2623811015, 3361044348, 30300820];
    let parser = SidParser::new();
    for alias in aliases {
        let sid = parser.parse(Some(&domain), alias).unwrap();
        assert_eq!(
            sid.alias()
                .unwrap_or_else(|| panic!("missing alias for '{alias}'")),
            alias
        );
    }
}
