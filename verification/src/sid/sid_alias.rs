//! The two-letter aliases that SDDL has for well-known SIDs.
use vstd::prelude::*;

verus! {

/// An alias of a well-known SID. The doc comment of each gives the name of
/// the account or group.
#[derive(Clone, Copy, Debug, PartialEq, Eq, Hash, Structural)]
pub enum SidAlias {
    /// `BUILTIN\Access Control Assistence Operators`
    AA,
    /// `APPLICATION PACKAGE AUTHORITY\ALL APPLICATION PACKAGES`
    AC,
    /// `NT AUTHORITY\ANONYMOUS LOGON`
    AN,
    /// `BUILTIN\Account Operators`
    AO,
    /// `<DOMAIN>\Protected Users`
    AP,
    /// `Authentication authority asserted identity`
    AS,
    /// `NT AUTHORITY\Authenticated Users`
    AU,
    /// `BUILTIN\Administrators`
    BA,
    /// `UILTIN\Guest`
    BG,
    /// `BUILTIN\Backup Operators`
    BO,
    /// `BUILTIN\Users`
    BU,
    /// `<DOMAIN>\Cert Publishers`
    CA,
    /// `BUILTIN\Certificate Service DCOM Access`
    CD,
    /// `CREATOR GROUP`
    CG,
    /// `<DOMAIN>\Cloneable Domain Controllers`
    CN,
    /// `CREATOR OWNER`
    CO,
    /// `BUILTIN\Cryptographic Operators`
    CY,
    /// `<DOMAIN>\Domain Admins`
    DA,
    /// `<DOMAIN>\Domain Computers`
    DC,
    /// `<DOMAIN>\Domain Controllers`
    DD,
    /// `<DOMAIN>\Domain Guests`
    DG,
    /// `<DOMAIN>\Domain Users`
    DU,
    /// `<DOMAIN>\Enterprise Admins`
    EA,
    /// `NT AUTHORITY\ENTERPRISE DOMAIN CONTROLLERS`
    ED,
    /// `<DOMAIN>\Enterprise Key Admins`
    EK,
    /// `BUILTIN\Event Log Readers`
    ER,
    /// `BUILTIN\RDS Endpoint Servers`
    ES,
    /// `BUILTIN\Hyper-V Administrators`
    HA,
    /// `Mandatory Label\High Mandatory Level`
    HI,
    /// `<DOMAIN>\Hardware Operators`
    HO,
    /// `BUILTIN\IIS_IUSRS`
    IS,
    /// `NT AUTHORITY\INTERACTIVE`
    IU,
    /// `<DOMAIN>\Key Admins`
    KA,
    /// `<DOMAIN>\Administrator`
    LA,
    /// `<DOMAIN>\Guests`
    LG,
    /// `NT AUTHORITY\LOCAL SERVICE`
    LS,
    /// `BUILTIN\Performance Log Users`
    LU,
    /// `Mandatory Label\Low Mandatory Level`
    LW,
    /// `Mandatory Label\Medium Mandatory Level`
    ME,
    /// `Mandatory Label\Medium Plus Mandatory Level`
    MP,
    /// `BUILTIN\RDS Management Servers`
    MS,
    /// `BUILTIN\Performance Monitor Users`
    MU,
    /// `BUILTIN\Network Configuration Operators`
    NO,
    /// `NT AUTHORITY\NETWORK SERVICE`
    NS,
    /// `NT AUTHORITY\NETWORK`
    NU,
    /// `OWNER RIGHTS`
    OW,
    /// `<DOMAIN>\Group Policy Creator Owners`
    PA,
    /// `BUILTIN\Print Operators`
    PO,
    /// `NT AUTHORITY\SELF`
    PS,
    /// `BUILTIN\Power Users`
    PU,
    /// `BUILTIN\RDS Remote Access Servers`
    RA,
    /// `NT AUTHORITY\RESTRICTED`
    RC,
    /// `BUILTIN\Remote Desktop Users`
    RD,
    /// `BUILTIN\Replicator`
    RE,
    /// `BUILTIN\Remote Management Users`
    RM,
    /// `<DOMAIN>\Enterprise Read-only Domain Controllers`
    RO,
    /// `<DOMAIN>\RAS and IAS Servers`
    RS,
    /// `BUILTIN\Pre-Windows 2000 Compatible Access`
    RU,
    /// `<DOMAIN>\Schema Admins`
    SA,
    /// `<DOMAIN>\OpenSSH Users`
    SH,
    /// `Mandatory Label\System Mandatory Level`
    SI,
    /// `BUILTIN\Server Operators`
    SO,
    /// `Service asserted identity`
    SS,
    /// `NT AUTHORITY\SERVICE`
    SU,
    /// `NT AUTHORITY\SYSTEM`
    SY,
    /// `NT AUTHORITY\USER MODE DRIVERS`
    UD,
    /// `Everyone`
    WD,
    /// `NT AUTHORITY\WRITE RESTRICTED`
    WR,
}

/// What an alias stands for.
pub enum AliasTarget {
    /// One SID, the same everywhere.
    WellKnown { authority: u8, sub_authority: Seq<u32> },
    /// The account or group with this relative identifier in a domain.
    Domain { rid: u32 },
    /// The local group with this relative identifier.
    Builtin { rid: u32 },
    /// The alias has a name and no SID that this library knows.
    Unresolved,
}

/// The alias of the account or group with relative identifier `rid` in a
/// domain.
pub open spec fn domain_alias_of(rid: u32) -> Option<SidAlias> {
    if rid == 525 {
        Some(SidAlias::AP)
    } else if rid == 517 {
        Some(SidAlias::CA)
    } else if rid == 522 {
        Some(SidAlias::CN)
    } else if rid == 512 {
        Some(SidAlias::DA)
    } else if rid == 515 {
        Some(SidAlias::DC)
    } else if rid == 516 {
        Some(SidAlias::DD)
    } else if rid == 514 {
        Some(SidAlias::DG)
    } else if rid == 513 {
        Some(SidAlias::DU)
    } else if rid == 519 {
        Some(SidAlias::EA)
    } else if rid == 527 {
        Some(SidAlias::EK)
    } else if rid == 526 {
        Some(SidAlias::KA)
    } else if rid == 500 {
        Some(SidAlias::LA)
    } else if rid == 501 {
        Some(SidAlias::LG)
    } else if rid == 520 {
        Some(SidAlias::PA)
    } else if rid == 498 {
        Some(SidAlias::RO)
    } else if rid == 553 {
        Some(SidAlias::RS)
    } else if rid == 518 {
        Some(SidAlias::SA)
    } else {
        None
    }
}

/// The alias of the local group with relative identifier `rid`.
pub open spec fn builtin_alias_of(rid: u32) -> Option<SidAlias> {
    if rid == 579 {
        Some(SidAlias::AA)
    } else if rid == 548 {
        Some(SidAlias::AO)
    } else if rid == 544 {
        Some(SidAlias::BA)
    } else if rid == 546 {
        Some(SidAlias::BG)
    } else if rid == 551 {
        Some(SidAlias::BO)
    } else if rid == 545 {
        Some(SidAlias::BU)
    } else if rid == 574 {
        Some(SidAlias::CD)
    } else if rid == 569 {
        Some(SidAlias::CY)
    } else if rid == 573 {
        Some(SidAlias::ER)
    } else if rid == 576 {
        Some(SidAlias::ES)
    } else if rid == 578 {
        Some(SidAlias::HA)
    } else if rid == 568 {
        Some(SidAlias::IS)
    } else if rid == 559 {
        Some(SidAlias::LU)
    } else if rid == 577 {
        Some(SidAlias::MS)
    } else if rid == 558 {
        Some(SidAlias::MU)
    } else if rid == 556 {
        Some(SidAlias::NO)
    } else if rid == 550 {
        Some(SidAlias::PO)
    } else if rid == 547 {
        Some(SidAlias::PU)
    } else if rid == 575 {
        Some(SidAlias::RA)
    } else if rid == 555 {
        Some(SidAlias::RD)
    } else if rid == 552 {
        Some(SidAlias::RE)
    } else if rid == 580 {
        Some(SidAlias::RM)
    } else if rid == 554 {
        Some(SidAlias::RU)
    } else if rid == 549 {
        Some(SidAlias::SO)
    } else {
        None
    }
}

/// The alias of the SID with the given authority and sub-authorities, if it
/// has one. Under the NT authority, a SID of one sub-authority has the alias
/// of that sub-authority; one whose first sub-authority is 21 has the alias of
/// its last sub-authority taken as a relative identifier in a domain; one of
/// two sub-authorities whose first is 32 has the alias of the second taken as
/// that of a local group.
pub open spec fn alias_of(authority: nat, sub_authority: Seq<u32>) -> Option<SidAlias> {
    let s = sub_authority;
    if authority == 1 {
        if s.len() == 1 && s[0] == 0 {
            Some(SidAlias::WD)
        } else {
            None
        }
    } else if authority == 3 {
        if s.len() == 1 && s[0] == 0 {
            Some(SidAlias::CO)
        } else if s.len() == 1 && s[0] == 1 {
            Some(SidAlias::CG)
        } else if s.len() == 1 && s[0] == 4 {
            Some(SidAlias::OW)
        } else {
            None
        }
    } else if authority == 5 {
        if s.len() == 1 && nt_alias_of(s[0]) is Some {
            nt_alias_of(s[0])
        } else if s.len() == 6 && s[0] == 84 && s[1] == 0 && s[2] == 0 && s[3] == 0 && s[4] == 0 && s[5]
            == 0 {
            Some(SidAlias::UD)
        } else if s.len() >= 1 && s[0] == 21 {
            domain_alias_of(s.last())
        } else if s.len() == 2 && s[0] == 32 {
            builtin_alias_of(s.last())
        } else {
            None
        }
    } else if authority == 15 {
        if s.len() == 2 && s[0] == 2 && s[1] == 1 {
            Some(SidAlias::AC)
        } else {
            None
        }
    } else if authority == 16 {
        if s.len() == 1 {
            label_alias_of(s[0])
        } else {
            None
        }
    } else if authority == 18 {
        if s.len() == 1 && s[0] == 1 {
            Some(SidAlias::AS)
        } else if s.len() == 1 && s[0] == 2 {
            Some(SidAlias::SS)
        } else {
            None
        }
    } else {
        None
    }
}

/// The alias of the SID of the NT authority whose one sub-authority is `sub`.
pub open spec fn nt_alias_of(sub: u32) -> Option<SidAlias> {
    if sub == 7 {
        Some(SidAlias::AN)
    } else if sub == 11 {
        Some(SidAlias::AU)
    } else if sub == 9 {
        Some(SidAlias::ED)
    } else if sub == 4 {
        Some(SidAlias::IU)
    } else if sub == 19 {
        Some(SidAlias::LS)
    } else if sub == 20 {
        Some(SidAlias::NS)
    } else if sub == 2 {
        Some(SidAlias::NU)
    } else if sub == 10 {
        Some(SidAlias::PS)
    } else if sub == 12 {
        Some(SidAlias::RC)
    } else if sub == 6 {
        Some(SidAlias::SU)
    } else if sub == 18 {
        Some(SidAlias::SY)
    } else if sub == 33 {
        Some(SidAlias::WR)
    } else {
        None
    }
}

/// The alias of the mandatory label whose one sub-authority is `sub`.
pub open spec fn label_alias_of(sub: u32) -> Option<SidAlias> {
    if sub == 12288 {
        Some(SidAlias::HI)
    } else if sub == 4096 {
        Some(SidAlias::LW)
    } else if sub == 8192 {
        Some(SidAlias::ME)
    } else if sub == 8448 {
        Some(SidAlias::MP)
    } else if sub == 16384 {
        Some(SidAlias::SI)
    } else {
        None
    }
}

/// The alias with the two letters `a`, `b` as its name.
pub open spec fn alias_of_letters(a: char, b: char) -> Option<SidAlias> {
    if a == 'A' && b == 'A' {
        Some(SidAlias::AA)
    } else if a == 'A' && b == 'C' {
        Some(SidAlias::AC)
    } else if a == 'A' && b == 'N' {
        Some(SidAlias::AN)
    } else if a == 'A' && b == 'O' {
        Some(SidAlias::AO)
    } else if a == 'A' && b == 'P' {
        Some(SidAlias::AP)
    } else if a == 'A' && b == 'S' {
        Some(SidAlias::AS)
    } else if a == 'A' && b == 'U' {
        Some(SidAlias::AU)
    } else if a == 'B' && b == 'A' {
        Some(SidAlias::BA)
    } else if a == 'B' && b == 'G' {
        Some(SidAlias::BG)
    } else if a == 'B' && b == 'O' {
        Some(SidAlias::BO)
    } else if a == 'B' && b == 'U' {
        Some(SidAlias::BU)
    } else if a == 'C' && b == 'A' {
        Some(SidAlias::CA)
    } else if a == 'C' && b == 'D' {
        Some(SidAlias::CD)
    } else if a == 'C' && b == 'G' {
        Some(SidAlias::CG)
    } else if a == 'C' && b == 'N' {
        Some(SidAlias::CN)
    } else if a == 'C' && b == 'O' {
        Some(SidAlias::CO)
    } else if a == 'C' && b == 'Y' {
        Some(SidAlias::CY)
    } else if a == 'D' && b == 'A' {
        Some(SidAlias::DA)
    } else if a == 'D' && b == 'C' {
        Some(SidAlias::DC)
    } else if a == 'D' && b == 'D' {
        Some(SidAlias::DD)
    } else if a == 'D' && b == 'G' {
        Some(SidAlias::DG)
    } else if a == 'D' && b == 'U' {
        Some(SidAlias::DU)
    } else if a == 'E' && b == 'A' {
        Some(SidAlias::EA)
    } else if a == 'E' && b == 'D' {
        Some(SidAlias::ED)
    } else if a == 'E' && b == 'K' {
        Some(SidAlias::EK)
    } else if a == 'E' && b == 'R' {
        Some(SidAlias::ER)
    } else if a == 'E' && b == 'S' {
        Some(SidAlias::ES)
    } else if a == 'H' && b == 'A' {
        Some(SidAlias::HA)
    } else if a == 'H' && b == 'I' {
        Some(SidAlias::HI)
    } else if a == 'H' && b == 'O' {
        Some(SidAlias::HO)
    } else if a == 'I' && b == 'S' {
        Some(SidAlias::IS)
    } else if a == 'I' && b == 'U' {
        Some(SidAlias::IU)
    } else if a == 'K' && b == 'A' {
        Some(SidAlias::KA)
    } else if a == 'L' && b == 'A' {
        Some(SidAlias::LA)
    } else if a == 'L' && b == 'G' {
        Some(SidAlias::LG)
    } else if a == 'L' && b == 'S' {
        Some(SidAlias::LS)
    } else if a == 'L' && b == 'U' {
        Some(SidAlias::LU)
    } else if a == 'L' && b == 'W' {
        Some(SidAlias::LW)
    } else if a == 'M' && b == 'E' {
        Some(SidAlias::ME)
    } else if a == 'M' && b == 'P' {
        Some(SidAlias::MP)
    } else if a == 'M' && b == 'S' {
        Some(SidAlias::MS)
    } else if a == 'M' && b == 'U' {
        Some(SidAlias::MU)
    } else if a == 'N' && b == 'O' {
        Some(SidAlias::NO)
    } else if a == 'N' && b == 'S' {
        Some(SidAlias::NS)
    } else if a == 'N' && b == 'U' {
        Some(SidAlias::NU)
    } else if a == 'O' && b == 'W' {
        Some(SidAlias::OW)
    } else if a == 'P' && b == 'A' {
        Some(SidAlias::PA)
    } else if a == 'P' && b == 'O' {
        Some(SidAlias::PO)
    } else if a == 'P' && b == 'S' {
        Some(SidAlias::PS)
    } else if a == 'P' && b == 'U' {
        Some(SidAlias::PU)
    } else if a == 'R' && b == 'A' {
        Some(SidAlias::RA)
    } else if a == 'R' && b == 'C' {
        Some(SidAlias::RC)
    } else if a == 'R' && b == 'D' {
        Some(SidAlias::RD)
    } else if a == 'R' && b == 'E' {
        Some(SidAlias::RE)
    } else if a == 'R' && b == 'M' {
        Some(SidAlias::RM)
    } else if a == 'R' && b == 'O' {
        Some(SidAlias::RO)
    } else if a == 'R' && b == 'S' {
        Some(SidAlias::RS)
    } else if a == 'R' && b == 'U' {
        Some(SidAlias::RU)
    } else if a == 'S' && b == 'A' {
        Some(SidAlias::SA)
    } else if a == 'S' && b == 'H' {
        Some(SidAlias::SH)
    } else if a == 'S' && b == 'I' {
        Some(SidAlias::SI)
    } else if a == 'S' && b == 'O' {
        Some(SidAlias::SO)
    } else if a == 'S' && b == 'S' {
        Some(SidAlias::SS)
    } else if a == 'S' && b == 'U' {
        Some(SidAlias::SU)
    } else if a == 'S' && b == 'Y' {
        Some(SidAlias::SY)
    } else if a == 'U' && b == 'D' {
        Some(SidAlias::UD)
    } else if a == 'W' && b == 'D' {
        Some(SidAlias::WD)
    } else if a == 'W' && b == 'R' {
        Some(SidAlias::WR)
    } else {
        None
    }
}

impl SidAlias {
    /// The two letters of the alias.
    pub open spec fn letters(&self) -> (char, char) {
        match self {
            SidAlias::AA => ('A', 'A'),
            SidAlias::AC => ('A', 'C'),
            SidAlias::AN => ('A', 'N'),
            SidAlias::AO => ('A', 'O'),
            SidAlias::AP => ('A', 'P'),
            SidAlias::AS => ('A', 'S'),
            SidAlias::AU => ('A', 'U'),
            SidAlias::BA => ('B', 'A'),
            SidAlias::BG => ('B', 'G'),
            SidAlias::BO => ('B', 'O'),
            SidAlias::BU => ('B', 'U'),
            SidAlias::CA => ('C', 'A'),
            SidAlias::CD => ('C', 'D'),
            SidAlias::CG => ('C', 'G'),
            SidAlias::CN => ('C', 'N'),
            SidAlias::CO => ('C', 'O'),
            SidAlias::CY => ('C', 'Y'),
            SidAlias::DA => ('D', 'A'),
            SidAlias::DC => ('D', 'C'),
            SidAlias::DD => ('D', 'D'),
            SidAlias::DG => ('D', 'G'),
            SidAlias::DU => ('D', 'U'),
            SidAlias::EA => ('E', 'A'),
            SidAlias::ED => ('E', 'D'),
            SidAlias::EK => ('E', 'K'),
            SidAlias::ER => ('E', 'R'),
            SidAlias::ES => ('E', 'S'),
            SidAlias::HA => ('H', 'A'),
            SidAlias::HI => ('H', 'I'),
            SidAlias::HO => ('H', 'O'),
            SidAlias::IS => ('I', 'S'),
            SidAlias::IU => ('I', 'U'),
            SidAlias::KA => ('K', 'A'),
            SidAlias::LA => ('L', 'A'),
            SidAlias::LG => ('L', 'G'),
            SidAlias::LS => ('L', 'S'),
            SidAlias::LU => ('L', 'U'),
            SidAlias::LW => ('L', 'W'),
            SidAlias::ME => ('M', 'E'),
            SidAlias::MP => ('M', 'P'),
            SidAlias::MS => ('M', 'S'),
            SidAlias::MU => ('M', 'U'),
            SidAlias::NO => ('N', 'O'),
            SidAlias::NS => ('N', 'S'),
            SidAlias::NU => ('N', 'U'),
            SidAlias::OW => ('O', 'W'),
            SidAlias::PA => ('P', 'A'),
            SidAlias::PO => ('P', 'O'),
            SidAlias::PS => ('P', 'S'),
            SidAlias::PU => ('P', 'U'),
            SidAlias::RA => ('R', 'A'),
            SidAlias::RC => ('R', 'C'),
            SidAlias::RD => ('R', 'D'),
            SidAlias::RE => ('R', 'E'),
            SidAlias::RM => ('R', 'M'),
            SidAlias::RO => ('R', 'O'),
            SidAlias::RS => ('R', 'S'),
            SidAlias::RU => ('R', 'U'),
            SidAlias::SA => ('S', 'A'),
            SidAlias::SH => ('S', 'H'),
            SidAlias::SI => ('S', 'I'),
            SidAlias::SO => ('S', 'O'),
            SidAlias::SS => ('S', 'S'),
            SidAlias::SU => ('S', 'U'),
            SidAlias::SY => ('S', 'Y'),
            SidAlias::UD => ('U', 'D'),
            SidAlias::WD => ('W', 'D'),
            SidAlias::WR => ('W', 'R'),
        }
    }

    /// The name of the account or group, as a string literal.
    pub open spec fn long_name_text(&self) -> Seq<char> {
        match self {
            SidAlias::AA => "BUILTIN\\Access Control Assistence Operators"@,
            SidAlias::AC => "APPLICATION PACKAGE AUTHORITY\\ALL APPLICATION PACKAGES"@,
            SidAlias::AN => "NT AUTHORITY\\ANONYMOUS LOGON"@,
            SidAlias::AO => "BUILTIN\\Account Operators"@,
            SidAlias::AP => "<DOMAIN>\\Protected Users"@,
            SidAlias::AS => "Authentication authority asserted identity"@,
            SidAlias::AU => "NT AUTHORITY\\Authenticated Users"@,
            SidAlias::BA => "BUILTIN\\Administrators"@,
            SidAlias::BG => "UILTIN\\Guest"@,
            SidAlias::BO => "BUILTIN\\Backup Operators"@,
            SidAlias::BU => "BUILTIN\\Users"@,
            SidAlias::CA => "<DOMAIN>\\Cert Publishers"@,
            SidAlias::CD => "BUILTIN\\Certificate Service DCOM Access"@,
            SidAlias::CG => "CREATOR GROUP"@,
            SidAlias::CN => "<DOMAIN>\\Cloneable Domain Controllers"@,
            SidAlias::CO => "CREATOR OWNER"@,
            SidAlias::CY => "BUILTIN\\Cryptographic Operators"@,
            SidAlias::DA => "<DOMAIN>\\Domain Admins"@,
            SidAlias::DC => "<DOMAIN>\\Domain Computers"@,
            SidAlias::DD => "<DOMAIN>\\Domain Controllers"@,
            SidAlias::DG => "<DOMAIN>\\Domain Guests"@,
            SidAlias::DU => "<DOMAIN>\\Domain Users"@,
            SidAlias::EA => "<DOMAIN>\\Enterprise Admins"@,
            SidAlias::ED => "NT AUTHORITY\\ENTERPRISE DOMAIN CONTROLLERS"@,
            SidAlias::EK => "<DOMAIN>\\Enterprise Key Admins"@,
            SidAlias::ER => "BUILTIN\\Event Log Readers"@,
            SidAlias::ES => "BUILTIN\\RDS Endpoint Servers"@,
            SidAlias::HA => "BUILTIN\\Hyper-V Administrators"@,
            SidAlias::HI => "Mandatory Label\\High Mandatory Level"@,
            SidAlias::HO => "<DOMAIN>\\Hardware Operators"@,
            SidAlias::IS => "BUILTIN\\IIS_IUSRS"@,
            SidAlias::IU => "NT AUTHORITY\\INTERACTIVE"@,
            SidAlias::KA => "<DOMAIN>\\Key Admins"@,
            SidAlias::LA => "<DOMAIN>\\Administrator"@,
            SidAlias::LG => "<DOMAIN>\\Guests"@,
            SidAlias::LS => "NT AUTHORITY\\LOCAL SERVICE"@,
            SidAlias::LU => "BUILTIN\\Performance Log Users"@,
            SidAlias::LW => "Mandatory Label\\Low Mandatory Level"@,
            SidAlias::ME => "Mandatory Label\\Medium Mandatory Level"@,
            SidAlias::MP => "Mandatory Label\\Medium Plus Mandatory Level"@,
            SidAlias::MS => "BUILTIN\\RDS Management Servers"@,
            SidAlias::MU => "BUILTIN\\Performance Monitor Users"@,
            SidAlias::NO => "BUILTIN\\Network Configuration Operators"@,
            SidAlias::NS => "NT AUTHORITY\\NETWORK SERVICE"@,
            SidAlias::NU => "NT AUTHORITY\\NETWORK"@,
            SidAlias::OW => "OWNER RIGHTS"@,
            SidAlias::PA => "<DOMAIN>\\Group Policy Creator Owners"@,
            SidAlias::PO => "BUILTIN\\Print Operators"@,
            SidAlias::PS => "NT AUTHORITY\\SELF"@,
            SidAlias::PU => "BUILTIN\\Power Users"@,
            SidAlias::RA => "BUILTIN\\RDS Remote Access Servers"@,
            SidAlias::RC => "NT AUTHORITY\\RESTRICTED"@,
            SidAlias::RD => "BUILTIN\\Remote Desktop Users"@,
            SidAlias::RE => "BUILTIN\\Replicator"@,
            SidAlias::RM => "BUILTIN\\Remote Management Users"@,
            SidAlias::RO => "<DOMAIN>\\Enterprise Read-only Domain Controllers"@,
            SidAlias::RS => "<DOMAIN>\\RAS and IAS Servers"@,
            SidAlias::RU => "BUILTIN\\Pre-Windows 2000 Compatible Access"@,
            SidAlias::SA => "<DOMAIN>\\Schema Admins"@,
            SidAlias::SH => "<DOMAIN>\\OpenSSH Users"@,
            SidAlias::SI => "Mandatory Label\\System Mandatory Level"@,
            SidAlias::SO => "BUILTIN\\Server Operators"@,
            SidAlias::SS => "Service asserted identity"@,
            SidAlias::SU => "NT AUTHORITY\\SERVICE"@,
            SidAlias::SY => "NT AUTHORITY\\SYSTEM"@,
            SidAlias::UD => "NT AUTHORITY\\USER MODE DRIVERS"@,
            SidAlias::WD => "Everyone"@,
            SidAlias::WR => "NT AUTHORITY\\WRITE RESTRICTED"@,
        }
    }

    /// What the alias stands for.
    pub open spec fn target(&self) -> AliasTarget {
        match self {
            SidAlias::AA => AliasTarget::Builtin { rid: 579 },
            SidAlias::AC => AliasTarget::WellKnown { authority: 15, sub_authority: seq![2u32, 1u32] },
            SidAlias::AN => AliasTarget::WellKnown { authority: 5, sub_authority: seq![7u32] },
            SidAlias::AO => AliasTarget::Builtin { rid: 548 },
            SidAlias::AP => AliasTarget::Domain { rid: 525 },
            SidAlias::AS => AliasTarget::WellKnown { authority: 18, sub_authority: seq![1u32] },
            SidAlias::AU => AliasTarget::WellKnown { authority: 5, sub_authority: seq![11u32] },
            SidAlias::BA => AliasTarget::Builtin { rid: 544 },
            SidAlias::BG => AliasTarget::Builtin { rid: 546 },
            SidAlias::BO => AliasTarget::Builtin { rid: 551 },
            SidAlias::BU => AliasTarget::Builtin { rid: 545 },
            SidAlias::CA => AliasTarget::Domain { rid: 517 },
            SidAlias::CD => AliasTarget::Builtin { rid: 574 },
            SidAlias::CG => AliasTarget::WellKnown { authority: 3, sub_authority: seq![1u32] },
            SidAlias::CN => AliasTarget::Domain { rid: 522 },
            SidAlias::CO => AliasTarget::WellKnown { authority: 3, sub_authority: seq![0u32] },
            SidAlias::CY => AliasTarget::Builtin { rid: 569 },
            SidAlias::DA => AliasTarget::Domain { rid: 512 },
            SidAlias::DC => AliasTarget::Domain { rid: 515 },
            SidAlias::DD => AliasTarget::Domain { rid: 516 },
            SidAlias::DG => AliasTarget::Domain { rid: 514 },
            SidAlias::DU => AliasTarget::Domain { rid: 513 },
            SidAlias::EA => AliasTarget::Domain { rid: 519 },
            SidAlias::ED => AliasTarget::WellKnown { authority: 5, sub_authority: seq![9u32] },
            SidAlias::EK => AliasTarget::Domain { rid: 527 },
            SidAlias::ER => AliasTarget::Builtin { rid: 573 },
            SidAlias::ES => AliasTarget::Builtin { rid: 576 },
            SidAlias::HA => AliasTarget::Builtin { rid: 578 },
            SidAlias::HI => AliasTarget::WellKnown { authority: 16, sub_authority: seq![12288u32] },
            SidAlias::HO => AliasTarget::Unresolved,
            SidAlias::IS => AliasTarget::Builtin { rid: 568 },
            SidAlias::IU => AliasTarget::WellKnown { authority: 5, sub_authority: seq![4u32] },
            SidAlias::KA => AliasTarget::Domain { rid: 526 },
            SidAlias::LA => AliasTarget::Domain { rid: 500 },
            SidAlias::LG => AliasTarget::Domain { rid: 501 },
            SidAlias::LS => AliasTarget::WellKnown { authority: 5, sub_authority: seq![19u32] },
            SidAlias::LU => AliasTarget::Builtin { rid: 559 },
            SidAlias::LW => AliasTarget::WellKnown { authority: 16, sub_authority: seq![4096u32] },
            SidAlias::ME => AliasTarget::WellKnown { authority: 16, sub_authority: seq![8192u32] },
            SidAlias::MP => AliasTarget::WellKnown { authority: 16, sub_authority: seq![8448u32] },
            SidAlias::MS => AliasTarget::Builtin { rid: 577 },
            SidAlias::MU => AliasTarget::Builtin { rid: 558 },
            SidAlias::NO => AliasTarget::Builtin { rid: 556 },
            SidAlias::NS => AliasTarget::WellKnown { authority: 5, sub_authority: seq![20u32] },
            SidAlias::NU => AliasTarget::WellKnown { authority: 5, sub_authority: seq![2u32] },
            SidAlias::OW => AliasTarget::WellKnown { authority: 3, sub_authority: seq![4u32] },
            SidAlias::PA => AliasTarget::Domain { rid: 520 },
            SidAlias::PO => AliasTarget::Builtin { rid: 550 },
            SidAlias::PS => AliasTarget::WellKnown { authority: 5, sub_authority: seq![10u32] },
            SidAlias::PU => AliasTarget::Builtin { rid: 547 },
            SidAlias::RA => AliasTarget::Builtin { rid: 575 },
            SidAlias::RC => AliasTarget::WellKnown { authority: 5, sub_authority: seq![12u32] },
            SidAlias::RD => AliasTarget::Builtin { rid: 555 },
            SidAlias::RE => AliasTarget::Builtin { rid: 552 },
            SidAlias::RM => AliasTarget::Builtin { rid: 580 },
            SidAlias::RO => AliasTarget::Domain { rid: 498 },
            SidAlias::RS => AliasTarget::Domain { rid: 553 },
            SidAlias::RU => AliasTarget::Builtin { rid: 554 },
            SidAlias::SA => AliasTarget::Domain { rid: 518 },
            SidAlias::SH => AliasTarget::Unresolved,
            SidAlias::SI => AliasTarget::WellKnown { authority: 16, sub_authority: seq![16384u32] },
            SidAlias::SO => AliasTarget::Builtin { rid: 549 },
            SidAlias::SS => AliasTarget::WellKnown { authority: 18, sub_authority: seq![2u32] },
            SidAlias::SU => AliasTarget::WellKnown { authority: 5, sub_authority: seq![6u32] },
            SidAlias::SY => AliasTarget::WellKnown { authority: 5, sub_authority: seq![18u32] },
            SidAlias::UD => AliasTarget::WellKnown { authority: 5, sub_authority: seq![84u32, 0u32, 0u32, 0u32, 0u32, 0u32] },
            SidAlias::WD => AliasTarget::WellKnown { authority: 1, sub_authority: seq![0u32] },
            SidAlias::WR => AliasTarget::WellKnown { authority: 5, sub_authority: seq![33u32] },
        }
    }

    /// The name of the account or group that the alias stands for.
    pub fn long_name(&self) -> (r: &'static str)
        ensures
            r@ == self.long_name_text(),
    {
        match self {
            SidAlias::AA => "BUILTIN\\Access Control Assistence Operators",
            SidAlias::AC => "APPLICATION PACKAGE AUTHORITY\\ALL APPLICATION PACKAGES",
            SidAlias::AN => "NT AUTHORITY\\ANONYMOUS LOGON",
            SidAlias::AO => "BUILTIN\\Account Operators",
            SidAlias::AP => "<DOMAIN>\\Protected Users",
            SidAlias::AS => "Authentication authority asserted identity",
            SidAlias::AU => "NT AUTHORITY\\Authenticated Users",
            SidAlias::BA => "BUILTIN\\Administrators",
            SidAlias::BG => "UILTIN\\Guest",
            SidAlias::BO => "BUILTIN\\Backup Operators",
            SidAlias::BU => "BUILTIN\\Users",
            SidAlias::CA => "<DOMAIN>\\Cert Publishers",
            SidAlias::CD => "BUILTIN\\Certificate Service DCOM Access",
            SidAlias::CG => "CREATOR GROUP",
            SidAlias::CN => "<DOMAIN>\\Cloneable Domain Controllers",
            SidAlias::CO => "CREATOR OWNER",
            SidAlias::CY => "BUILTIN\\Cryptographic Operators",
            SidAlias::DA => "<DOMAIN>\\Domain Admins",
            SidAlias::DC => "<DOMAIN>\\Domain Computers",
            SidAlias::DD => "<DOMAIN>\\Domain Controllers",
            SidAlias::DG => "<DOMAIN>\\Domain Guests",
            SidAlias::DU => "<DOMAIN>\\Domain Users",
            SidAlias::EA => "<DOMAIN>\\Enterprise Admins",
            SidAlias::ED => "NT AUTHORITY\\ENTERPRISE DOMAIN CONTROLLERS",
            SidAlias::EK => "<DOMAIN>\\Enterprise Key Admins",
            SidAlias::ER => "BUILTIN\\Event Log Readers",
            SidAlias::ES => "BUILTIN\\RDS Endpoint Servers",
            SidAlias::HA => "BUILTIN\\Hyper-V Administrators",
            SidAlias::HI => "Mandatory Label\\High Mandatory Level",
            SidAlias::HO => "<DOMAIN>\\Hardware Operators",
            SidAlias::IS => "BUILTIN\\IIS_IUSRS",
            SidAlias::IU => "NT AUTHORITY\\INTERACTIVE",
            SidAlias::KA => "<DOMAIN>\\Key Admins",
            SidAlias::LA => "<DOMAIN>\\Administrator",
            SidAlias::LG => "<DOMAIN>\\Guests",
            SidAlias::LS => "NT AUTHORITY\\LOCAL SERVICE",
            SidAlias::LU => "BUILTIN\\Performance Log Users",
            SidAlias::LW => "Mandatory Label\\Low Mandatory Level",
            SidAlias::ME => "Mandatory Label\\Medium Mandatory Level",
            SidAlias::MP => "Mandatory Label\\Medium Plus Mandatory Level",
            SidAlias::MS => "BUILTIN\\RDS Management Servers",
            SidAlias::MU => "BUILTIN\\Performance Monitor Users",
            SidAlias::NO => "BUILTIN\\Network Configuration Operators",
            SidAlias::NS => "NT AUTHORITY\\NETWORK SERVICE",
            SidAlias::NU => "NT AUTHORITY\\NETWORK",
            SidAlias::OW => "OWNER RIGHTS",
            SidAlias::PA => "<DOMAIN>\\Group Policy Creator Owners",
            SidAlias::PO => "BUILTIN\\Print Operators",
            SidAlias::PS => "NT AUTHORITY\\SELF",
            SidAlias::PU => "BUILTIN\\Power Users",
            SidAlias::RA => "BUILTIN\\RDS Remote Access Servers",
            SidAlias::RC => "NT AUTHORITY\\RESTRICTED",
            SidAlias::RD => "BUILTIN\\Remote Desktop Users",
            SidAlias::RE => "BUILTIN\\Replicator",
            SidAlias::RM => "BUILTIN\\Remote Management Users",
            SidAlias::RO => "<DOMAIN>\\Enterprise Read-only Domain Controllers",
            SidAlias::RS => "<DOMAIN>\\RAS and IAS Servers",
            SidAlias::RU => "BUILTIN\\Pre-Windows 2000 Compatible Access",
            SidAlias::SA => "<DOMAIN>\\Schema Admins",
            SidAlias::SH => "<DOMAIN>\\OpenSSH Users",
            SidAlias::SI => "Mandatory Label\\System Mandatory Level",
            SidAlias::SO => "BUILTIN\\Server Operators",
            SidAlias::SS => "Service asserted identity",
            SidAlias::SU => "NT AUTHORITY\\SERVICE",
            SidAlias::SY => "NT AUTHORITY\\SYSTEM",
            SidAlias::UD => "NT AUTHORITY\\USER MODE DRIVERS",
            SidAlias::WD => "Everyone",
            SidAlias::WR => "NT AUTHORITY\\WRITE RESTRICTED",
        }
    }

    /// The two letters of the alias.
    pub fn short_name(&self) -> (r: &'static str)
        ensures
            r@ == seq![self.letters().0, self.letters().1],
    {
        proof {
            Self::lemma_short_names();
        }
        match self {
            SidAlias::AA => "AA",
            SidAlias::AC => "AC",
            SidAlias::AN => "AN",
            SidAlias::AO => "AO",
            SidAlias::AP => "AP",
            SidAlias::AS => "AS",
            SidAlias::AU => "AU",
            SidAlias::BA => "BA",
            SidAlias::BG => "BG",
            SidAlias::BO => "BO",
            SidAlias::BU => "BU",
            SidAlias::CA => "CA",
            SidAlias::CD => "CD",
            SidAlias::CG => "CG",
            SidAlias::CN => "CN",
            SidAlias::CO => "CO",
            SidAlias::CY => "CY",
            SidAlias::DA => "DA",
            SidAlias::DC => "DC",
            SidAlias::DD => "DD",
            SidAlias::DG => "DG",
            SidAlias::DU => "DU",
            SidAlias::EA => "EA",
            SidAlias::ED => "ED",
            SidAlias::EK => "EK",
            SidAlias::ER => "ER",
            SidAlias::ES => "ES",
            SidAlias::HA => "HA",
            SidAlias::HI => "HI",
            SidAlias::HO => "HO",
            SidAlias::IS => "IS",
            SidAlias::IU => "IU",
            SidAlias::KA => "KA",
            SidAlias::LA => "LA",
            SidAlias::LG => "LG",
            SidAlias::LS => "LS",
            SidAlias::LU => "LU",
            SidAlias::LW => "LW",
            SidAlias::ME => "ME",
            SidAlias::MP => "MP",
            SidAlias::MS => "MS",
            SidAlias::MU => "MU",
            SidAlias::NO => "NO",
            SidAlias::NS => "NS",
            SidAlias::NU => "NU",
            SidAlias::OW => "OW",
            SidAlias::PA => "PA",
            SidAlias::PO => "PO",
            SidAlias::PS => "PS",
            SidAlias::PU => "PU",
            SidAlias::RA => "RA",
            SidAlias::RC => "RC",
            SidAlias::RD => "RD",
            SidAlias::RE => "RE",
            SidAlias::RM => "RM",
            SidAlias::RO => "RO",
            SidAlias::RS => "RS",
            SidAlias::RU => "RU",
            SidAlias::SA => "SA",
            SidAlias::SH => "SH",
            SidAlias::SI => "SI",
            SidAlias::SO => "SO",
            SidAlias::SS => "SS",
            SidAlias::SU => "SU",
            SidAlias::SY => "SY",
            SidAlias::UD => "UD",
            SidAlias::WD => "WD",
            SidAlias::WR => "WR",
        }
    }

    /// What each of the string literals of `short_name` holds.
    proof fn lemma_short_names()
        ensures
            "AA"@ == seq!['A', 'A'],
            "AC"@ == seq!['A', 'C'],
            "AN"@ == seq!['A', 'N'],
            "AO"@ == seq!['A', 'O'],
            "AP"@ == seq!['A', 'P'],
            "AS"@ == seq!['A', 'S'],
            "AU"@ == seq!['A', 'U'],
            "BA"@ == seq!['B', 'A'],
            "BG"@ == seq!['B', 'G'],
            "BO"@ == seq!['B', 'O'],
            "BU"@ == seq!['B', 'U'],
            "CA"@ == seq!['C', 'A'],
            "CD"@ == seq!['C', 'D'],
            "CG"@ == seq!['C', 'G'],
            "CN"@ == seq!['C', 'N'],
            "CO"@ == seq!['C', 'O'],
            "CY"@ == seq!['C', 'Y'],
            "DA"@ == seq!['D', 'A'],
            "DC"@ == seq!['D', 'C'],
            "DD"@ == seq!['D', 'D'],
            "DG"@ == seq!['D', 'G'],
            "DU"@ == seq!['D', 'U'],
            "EA"@ == seq!['E', 'A'],
            "ED"@ == seq!['E', 'D'],
            "EK"@ == seq!['E', 'K'],
            "ER"@ == seq!['E', 'R'],
            "ES"@ == seq!['E', 'S'],
            "HA"@ == seq!['H', 'A'],
            "HI"@ == seq!['H', 'I'],
            "HO"@ == seq!['H', 'O'],
            "IS"@ == seq!['I', 'S'],
            "IU"@ == seq!['I', 'U'],
            "KA"@ == seq!['K', 'A'],
            "LA"@ == seq!['L', 'A'],
            "LG"@ == seq!['L', 'G'],
            "LS"@ == seq!['L', 'S'],
            "LU"@ == seq!['L', 'U'],
            "LW"@ == seq!['L', 'W'],
            "ME"@ == seq!['M', 'E'],
            "MP"@ == seq!['M', 'P'],
            "MS"@ == seq!['M', 'S'],
            "MU"@ == seq!['M', 'U'],
            "NO"@ == seq!['N', 'O'],
            "NS"@ == seq!['N', 'S'],
            "NU"@ == seq!['N', 'U'],
            "OW"@ == seq!['O', 'W'],
            "PA"@ == seq!['P', 'A'],
            "PO"@ == seq!['P', 'O'],
            "PS"@ == seq!['P', 'S'],
            "PU"@ == seq!['P', 'U'],
            "RA"@ == seq!['R', 'A'],
            "RC"@ == seq!['R', 'C'],
            "RD"@ == seq!['R', 'D'],
            "RE"@ == seq!['R', 'E'],
            "RM"@ == seq!['R', 'M'],
            "RO"@ == seq!['R', 'O'],
            "RS"@ == seq!['R', 'S'],
            "RU"@ == seq!['R', 'U'],
            "SA"@ == seq!['S', 'A'],
            "SH"@ == seq!['S', 'H'],
            "SI"@ == seq!['S', 'I'],
            "SO"@ == seq!['S', 'O'],
            "SS"@ == seq!['S', 'S'],
            "SU"@ == seq!['S', 'U'],
            "SY"@ == seq!['S', 'Y'],
            "UD"@ == seq!['U', 'D'],
            "WD"@ == seq!['W', 'D'],
            "WR"@ == seq!['W', 'R'],
    {
        reveal_strlit("AA");
        reveal_strlit("AC");
        reveal_strlit("AN");
        reveal_strlit("AO");
        reveal_strlit("AP");
        reveal_strlit("AS");
        reveal_strlit("AU");
        reveal_strlit("BA");
        reveal_strlit("BG");
        reveal_strlit("BO");
        reveal_strlit("BU");
        reveal_strlit("CA");
        reveal_strlit("CD");
        reveal_strlit("CG");
        reveal_strlit("CN");
        reveal_strlit("CO");
        reveal_strlit("CY");
        reveal_strlit("DA");
        reveal_strlit("DC");
        reveal_strlit("DD");
        reveal_strlit("DG");
        reveal_strlit("DU");
        reveal_strlit("EA");
        reveal_strlit("ED");
        reveal_strlit("EK");
        reveal_strlit("ER");
        reveal_strlit("ES");
        reveal_strlit("HA");
        reveal_strlit("HI");
        reveal_strlit("HO");
        reveal_strlit("IS");
        reveal_strlit("IU");
        reveal_strlit("KA");
        reveal_strlit("LA");
        reveal_strlit("LG");
        reveal_strlit("LS");
        reveal_strlit("LU");
        reveal_strlit("LW");
        reveal_strlit("ME");
        reveal_strlit("MP");
        reveal_strlit("MS");
        reveal_strlit("MU");
        reveal_strlit("NO");
        reveal_strlit("NS");
        reveal_strlit("NU");
        reveal_strlit("OW");
        reveal_strlit("PA");
        reveal_strlit("PO");
        reveal_strlit("PS");
        reveal_strlit("PU");
        reveal_strlit("RA");
        reveal_strlit("RC");
        reveal_strlit("RD");
        reveal_strlit("RE");
        reveal_strlit("RM");
        reveal_strlit("RO");
        reveal_strlit("RS");
        reveal_strlit("RU");
        reveal_strlit("SA");
        reveal_strlit("SH");
        reveal_strlit("SI");
        reveal_strlit("SO");
        reveal_strlit("SS");
        reveal_strlit("SU");
        reveal_strlit("SY");
        reveal_strlit("UD");
        reveal_strlit("WD");
        reveal_strlit("WR");
        assert("AA"@ =~= seq!['A', 'A']);
        assert("AC"@ =~= seq!['A', 'C']);
        assert("AN"@ =~= seq!['A', 'N']);
        assert("AO"@ =~= seq!['A', 'O']);
        assert("AP"@ =~= seq!['A', 'P']);
        assert("AS"@ =~= seq!['A', 'S']);
        assert("AU"@ =~= seq!['A', 'U']);
        assert("BA"@ =~= seq!['B', 'A']);
        assert("BG"@ =~= seq!['B', 'G']);
        assert("BO"@ =~= seq!['B', 'O']);
        assert("BU"@ =~= seq!['B', 'U']);
        assert("CA"@ =~= seq!['C', 'A']);
        assert("CD"@ =~= seq!['C', 'D']);
        assert("CG"@ =~= seq!['C', 'G']);
        assert("CN"@ =~= seq!['C', 'N']);
        assert("CO"@ =~= seq!['C', 'O']);
        assert("CY"@ =~= seq!['C', 'Y']);
        assert("DA"@ =~= seq!['D', 'A']);
        assert("DC"@ =~= seq!['D', 'C']);
        assert("DD"@ =~= seq!['D', 'D']);
        assert("DG"@ =~= seq!['D', 'G']);
        assert("DU"@ =~= seq!['D', 'U']);
        assert("EA"@ =~= seq!['E', 'A']);
        assert("ED"@ =~= seq!['E', 'D']);
        assert("EK"@ =~= seq!['E', 'K']);
        assert("ER"@ =~= seq!['E', 'R']);
        assert("ES"@ =~= seq!['E', 'S']);
        assert("HA"@ =~= seq!['H', 'A']);
        assert("HI"@ =~= seq!['H', 'I']);
        assert("HO"@ =~= seq!['H', 'O']);
        assert("IS"@ =~= seq!['I', 'S']);
        assert("IU"@ =~= seq!['I', 'U']);
        assert("KA"@ =~= seq!['K', 'A']);
        assert("LA"@ =~= seq!['L', 'A']);
        assert("LG"@ =~= seq!['L', 'G']);
        assert("LS"@ =~= seq!['L', 'S']);
        assert("LU"@ =~= seq!['L', 'U']);
        assert("LW"@ =~= seq!['L', 'W']);
        assert("ME"@ =~= seq!['M', 'E']);
        assert("MP"@ =~= seq!['M', 'P']);
        assert("MS"@ =~= seq!['M', 'S']);
        assert("MU"@ =~= seq!['M', 'U']);
        assert("NO"@ =~= seq!['N', 'O']);
        assert("NS"@ =~= seq!['N', 'S']);
        assert("NU"@ =~= seq!['N', 'U']);
        assert("OW"@ =~= seq!['O', 'W']);
        assert("PA"@ =~= seq!['P', 'A']);
        assert("PO"@ =~= seq!['P', 'O']);
        assert("PS"@ =~= seq!['P', 'S']);
        assert("PU"@ =~= seq!['P', 'U']);
        assert("RA"@ =~= seq!['R', 'A']);
        assert("RC"@ =~= seq!['R', 'C']);
        assert("RD"@ =~= seq!['R', 'D']);
        assert("RE"@ =~= seq!['R', 'E']);
        assert("RM"@ =~= seq!['R', 'M']);
        assert("RO"@ =~= seq!['R', 'O']);
        assert("RS"@ =~= seq!['R', 'S']);
        assert("RU"@ =~= seq!['R', 'U']);
        assert("SA"@ =~= seq!['S', 'A']);
        assert("SH"@ =~= seq!['S', 'H']);
        assert("SI"@ =~= seq!['S', 'I']);
        assert("SO"@ =~= seq!['S', 'O']);
        assert("SS"@ =~= seq!['S', 'S']);
        assert("SU"@ =~= seq!['S', 'U']);
        assert("SY"@ =~= seq!['S', 'Y']);
        assert("UD"@ =~= seq!['U', 'D']);
        assert("WD"@ =~= seq!['W', 'D']);
        assert("WR"@ =~= seq!['W', 'R']);
    }

    /// The two letters of the alias, as characters.
    pub fn letter_pair(&self) -> (r: (char, char))
        ensures
            r == self.letters(),
    {
        match self {
            SidAlias::AA => ('A', 'A'),
            SidAlias::AC => ('A', 'C'),
            SidAlias::AN => ('A', 'N'),
            SidAlias::AO => ('A', 'O'),
            SidAlias::AP => ('A', 'P'),
            SidAlias::AS => ('A', 'S'),
            SidAlias::AU => ('A', 'U'),
            SidAlias::BA => ('B', 'A'),
            SidAlias::BG => ('B', 'G'),
            SidAlias::BO => ('B', 'O'),
            SidAlias::BU => ('B', 'U'),
            SidAlias::CA => ('C', 'A'),
            SidAlias::CD => ('C', 'D'),
            SidAlias::CG => ('C', 'G'),
            SidAlias::CN => ('C', 'N'),
            SidAlias::CO => ('C', 'O'),
            SidAlias::CY => ('C', 'Y'),
            SidAlias::DA => ('D', 'A'),
            SidAlias::DC => ('D', 'C'),
            SidAlias::DD => ('D', 'D'),
            SidAlias::DG => ('D', 'G'),
            SidAlias::DU => ('D', 'U'),
            SidAlias::EA => ('E', 'A'),
            SidAlias::ED => ('E', 'D'),
            SidAlias::EK => ('E', 'K'),
            SidAlias::ER => ('E', 'R'),
            SidAlias::ES => ('E', 'S'),
            SidAlias::HA => ('H', 'A'),
            SidAlias::HI => ('H', 'I'),
            SidAlias::HO => ('H', 'O'),
            SidAlias::IS => ('I', 'S'),
            SidAlias::IU => ('I', 'U'),
            SidAlias::KA => ('K', 'A'),
            SidAlias::LA => ('L', 'A'),
            SidAlias::LG => ('L', 'G'),
            SidAlias::LS => ('L', 'S'),
            SidAlias::LU => ('L', 'U'),
            SidAlias::LW => ('L', 'W'),
            SidAlias::ME => ('M', 'E'),
            SidAlias::MP => ('M', 'P'),
            SidAlias::MS => ('M', 'S'),
            SidAlias::MU => ('M', 'U'),
            SidAlias::NO => ('N', 'O'),
            SidAlias::NS => ('N', 'S'),
            SidAlias::NU => ('N', 'U'),
            SidAlias::OW => ('O', 'W'),
            SidAlias::PA => ('P', 'A'),
            SidAlias::PO => ('P', 'O'),
            SidAlias::PS => ('P', 'S'),
            SidAlias::PU => ('P', 'U'),
            SidAlias::RA => ('R', 'A'),
            SidAlias::RC => ('R', 'C'),
            SidAlias::RD => ('R', 'D'),
            SidAlias::RE => ('R', 'E'),
            SidAlias::RM => ('R', 'M'),
            SidAlias::RO => ('R', 'O'),
            SidAlias::RS => ('R', 'S'),
            SidAlias::RU => ('R', 'U'),
            SidAlias::SA => ('S', 'A'),
            SidAlias::SH => ('S', 'H'),
            SidAlias::SI => ('S', 'I'),
            SidAlias::SO => ('S', 'O'),
            SidAlias::SS => ('S', 'S'),
            SidAlias::SU => ('S', 'U'),
            SidAlias::SY => ('S', 'Y'),
            SidAlias::UD => ('U', 'D'),
            SidAlias::WD => ('W', 'D'),
            SidAlias::WR => ('W', 'R'),
        }
    }

    /// The alias with the two letters `a`, `b` as its name.
    pub fn from_letters(a: char, b: char) -> (r: Option<SidAlias>)
        ensures
            r == alias_of_letters(a, b),
            r matches Some(alias) ==> alias.letters() == (a, b),
    {
        match a {
            'A' => match b {
                'A' => Some(SidAlias::AA),
                'C' => Some(SidAlias::AC),
                'N' => Some(SidAlias::AN),
                'O' => Some(SidAlias::AO),
                'P' => Some(SidAlias::AP),
                'S' => Some(SidAlias::AS),
                'U' => Some(SidAlias::AU),
                _ => None,
            },
            'B' => match b {
                'A' => Some(SidAlias::BA),
                'G' => Some(SidAlias::BG),
                'O' => Some(SidAlias::BO),
                'U' => Some(SidAlias::BU),
                _ => None,
            },
            'C' => match b {
                'A' => Some(SidAlias::CA),
                'D' => Some(SidAlias::CD),
                'G' => Some(SidAlias::CG),
                'N' => Some(SidAlias::CN),
                'O' => Some(SidAlias::CO),
                'Y' => Some(SidAlias::CY),
                _ => None,
            },
            'D' => match b {
                'A' => Some(SidAlias::DA),
                'C' => Some(SidAlias::DC),
                'D' => Some(SidAlias::DD),
                'G' => Some(SidAlias::DG),
                'U' => Some(SidAlias::DU),
                _ => None,
            },
            'E' => match b {
                'A' => Some(SidAlias::EA),
                'D' => Some(SidAlias::ED),
                'K' => Some(SidAlias::EK),
                'R' => Some(SidAlias::ER),
                'S' => Some(SidAlias::ES),
                _ => None,
            },
            'H' => match b {
                'A' => Some(SidAlias::HA),
                'I' => Some(SidAlias::HI),
                'O' => Some(SidAlias::HO),
                _ => None,
            },
            'I' => match b {
                'S' => Some(SidAlias::IS),
                'U' => Some(SidAlias::IU),
                _ => None,
            },
            'K' => match b {
                'A' => Some(SidAlias::KA),
                _ => None,
            },
            'L' => match b {
                'A' => Some(SidAlias::LA),
                'G' => Some(SidAlias::LG),
                'S' => Some(SidAlias::LS),
                'U' => Some(SidAlias::LU),
                'W' => Some(SidAlias::LW),
                _ => None,
            },
            'M' => match b {
                'E' => Some(SidAlias::ME),
                'P' => Some(SidAlias::MP),
                'S' => Some(SidAlias::MS),
                'U' => Some(SidAlias::MU),
                _ => None,
            },
            'N' => match b {
                'O' => Some(SidAlias::NO),
                'S' => Some(SidAlias::NS),
                'U' => Some(SidAlias::NU),
                _ => None,
            },
            'O' => match b {
                'W' => Some(SidAlias::OW),
                _ => None,
            },
            'P' => match b {
                'A' => Some(SidAlias::PA),
                'O' => Some(SidAlias::PO),
                'S' => Some(SidAlias::PS),
                'U' => Some(SidAlias::PU),
                _ => None,
            },
            'R' => match b {
                'A' => Some(SidAlias::RA),
                'C' => Some(SidAlias::RC),
                'D' => Some(SidAlias::RD),
                'E' => Some(SidAlias::RE),
                'M' => Some(SidAlias::RM),
                'O' => Some(SidAlias::RO),
                'S' => Some(SidAlias::RS),
                'U' => Some(SidAlias::RU),
                _ => None,
            },
            'S' => match b {
                'A' => Some(SidAlias::SA),
                'H' => Some(SidAlias::SH),
                'I' => Some(SidAlias::SI),
                'O' => Some(SidAlias::SO),
                'S' => Some(SidAlias::SS),
                'U' => Some(SidAlias::SU),
                'Y' => Some(SidAlias::SY),
                _ => None,
            },
            'U' => match b {
                'D' => Some(SidAlias::UD),
                _ => None,
            },
            'W' => match b {
                'D' => Some(SidAlias::WD),
                'R' => Some(SidAlias::WR),
                _ => None,
            },
            _ => None,
        }
    }

    /// The alias of the account or group with relative identifier `rid` in
    /// a domain.
    pub fn of_domain_rid(rid: u32) -> (r: Option<SidAlias>)
        ensures
            r == domain_alias_of(rid),
    {
        match rid {
            525 => Some(SidAlias::AP),
            517 => Some(SidAlias::CA),
            522 => Some(SidAlias::CN),
            512 => Some(SidAlias::DA),
            515 => Some(SidAlias::DC),
            516 => Some(SidAlias::DD),
            514 => Some(SidAlias::DG),
            513 => Some(SidAlias::DU),
            519 => Some(SidAlias::EA),
            527 => Some(SidAlias::EK),
            526 => Some(SidAlias::KA),
            500 => Some(SidAlias::LA),
            501 => Some(SidAlias::LG),
            520 => Some(SidAlias::PA),
            498 => Some(SidAlias::RO),
            553 => Some(SidAlias::RS),
            518 => Some(SidAlias::SA),
            _ => None,
        }
    }

    /// The alias of the local group with relative identifier `rid`.
    pub fn of_builtin_rid(rid: u32) -> (r: Option<SidAlias>)
        ensures
            r == builtin_alias_of(rid),
    {
        match rid {
            579 => Some(SidAlias::AA),
            548 => Some(SidAlias::AO),
            544 => Some(SidAlias::BA),
            546 => Some(SidAlias::BG),
            551 => Some(SidAlias::BO),
            545 => Some(SidAlias::BU),
            574 => Some(SidAlias::CD),
            569 => Some(SidAlias::CY),
            573 => Some(SidAlias::ER),
            576 => Some(SidAlias::ES),
            578 => Some(SidAlias::HA),
            568 => Some(SidAlias::IS),
            559 => Some(SidAlias::LU),
            577 => Some(SidAlias::MS),
            558 => Some(SidAlias::MU),
            556 => Some(SidAlias::NO),
            550 => Some(SidAlias::PO),
            547 => Some(SidAlias::PU),
            575 => Some(SidAlias::RA),
            555 => Some(SidAlias::RD),
            552 => Some(SidAlias::RE),
            580 => Some(SidAlias::RM),
            554 => Some(SidAlias::RU),
            549 => Some(SidAlias::SO),
            _ => None,
        }
    }

    /// The alias of the SID of the NT authority whose one sub-authority is
    /// `sub`.
    pub fn of_nt_sub_authority(sub: u32) -> (r: Option<SidAlias>)
        ensures
            r == nt_alias_of(sub),
    {
        match sub {
            7 => Some(SidAlias::AN),
            11 => Some(SidAlias::AU),
            9 => Some(SidAlias::ED),
            4 => Some(SidAlias::IU),
            19 => Some(SidAlias::LS),
            20 => Some(SidAlias::NS),
            2 => Some(SidAlias::NU),
            10 => Some(SidAlias::PS),
            12 => Some(SidAlias::RC),
            6 => Some(SidAlias::SU),
            18 => Some(SidAlias::SY),
            33 => Some(SidAlias::WR),
            _ => None,
        }
    }

    /// The alias of the mandatory label whose one sub-authority is `sub`.
    pub fn of_label(sub: u32) -> (r: Option<SidAlias>)
        ensures
            r == label_alias_of(sub),
    {
        match sub {
            12288 => Some(SidAlias::HI),
            4096 => Some(SidAlias::LW),
            8192 => Some(SidAlias::ME),
            8448 => Some(SidAlias::MP),
            16384 => Some(SidAlias::SI),
            _ => None,
        }
    }
}

} // verus!
