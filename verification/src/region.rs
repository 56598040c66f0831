//! Regions served by a single game server, each directed at by its platform
//! string.

use vstd::prelude::*;

use crate::text::str_eq;
use crate::VariantNotFound;

verus! {

/// A region served by a single game server. The Valorant regions are
/// prefixed with `VAL_` because their platform strings collide with the
/// League ones.
#[derive(Debug, Copy, Clone, Eq, PartialEq, Hash, PartialOrd, Ord, Structural)]
#[allow(non_camel_case_types)]
pub enum Region {
    BR,
    EUNE,
    EUW,
    NA,
    KR,
    LAN,
    LAS,
    OCE,
    RU,
    TR,
    JP,
    PBE,
    AMERICAS,
    EUROPE,
    ASIA,
    VAL_AP,
    VAL_BR,
    VAL_EU,
    VAL_KR,
    VAL_LATAM,
    VAL_NA,
}

/// The platform string of each region.
pub open spec fn spec_region_str(r: Region) -> Seq<char> {
    match r {
        Region::BR => "BR1"@,
        Region::EUNE => "EUN1"@,
        Region::EUW => "EUW1"@,
        Region::NA => "NA1"@,
        Region::KR => "KR"@,
        Region::LAN => "LA1"@,
        Region::LAS => "LA2"@,
        Region::OCE => "OC1"@,
        Region::RU => "RU"@,
        Region::TR => "TR1"@,
        Region::JP => "JP1"@,
        Region::PBE => "PBE1"@,
        Region::AMERICAS => "AMERICAS"@,
        Region::EUROPE => "EUROPE"@,
        Region::ASIA => "ASIA"@,
        Region::VAL_AP => "AP"@,
        Region::VAL_BR => "BR"@,
        Region::VAL_EU => "EU"@,
        Region::VAL_KR => "KR"@,
        Region::VAL_LATAM => "LATAM"@,
        Region::VAL_NA => "NA"@,
    }
}

/// The region a name denotes, if any: each region is named by its platform
/// string or its short name, earlier variants winning on collisions.
pub open spec fn spec_region_from_name(s: Seq<char>) -> Option<Region> {
    if s == "BR1"@ || s == "BR"@ {
        Some(Region::BR)
    } else if s == "EUN1"@ || s == "EUNE"@ {
        Some(Region::EUNE)
    } else if s == "EUW1"@ || s == "EUW"@ {
        Some(Region::EUW)
    } else if s == "NA1"@ || s == "NA"@ {
        Some(Region::NA)
    } else if s == "KR"@ {
        Some(Region::KR)
    } else if s == "LA1"@ || s == "LAN"@ {
        Some(Region::LAN)
    } else if s == "LA2"@ || s == "LAS"@ {
        Some(Region::LAS)
    } else if s == "OC1"@ || s == "OCE"@ {
        Some(Region::OCE)
    } else if s == "RU"@ {
        Some(Region::RU)
    } else if s == "TR1"@ || s == "TR"@ {
        Some(Region::TR)
    } else if s == "JP1"@ || s == "JP"@ {
        Some(Region::JP)
    } else if s == "PBE1"@ || s == "PBE"@ {
        Some(Region::PBE)
    } else if s == "AMERICAS"@ {
        Some(Region::AMERICAS)
    } else if s == "EUROPE"@ {
        Some(Region::EUROPE)
    } else if s == "ASIA"@ {
        Some(Region::ASIA)
    } else if s == "AP"@ {
        Some(Region::VAL_AP)
    } else if s == "EU"@ {
        Some(Region::VAL_EU)
    } else if s == "LATAM"@ {
        Some(Region::VAL_LATAM)
    } else {
        None
    }
}

impl Region {
    /// The region's platform string.
    pub fn as_ref(&self) -> (r: &'static str)
        ensures
            r@ == spec_region_str(*self),
    {
        match self {
            Region::BR => "BR1",
            Region::EUNE => "EUN1",
            Region::EUW => "EUW1",
            Region::NA => "NA1",
            Region::KR => "KR",
            Region::LAN => "LA1",
            Region::LAS => "LA2",
            Region::OCE => "OC1",
            Region::RU => "RU",
            Region::TR => "TR1",
            Region::JP => "JP1",
            Region::PBE => "PBE1",
            Region::AMERICAS => "AMERICAS",
            Region::EUROPE => "EUROPE",
            Region::ASIA => "ASIA",
            Region::VAL_AP => "AP",
            Region::VAL_BR => "BR",
            Region::VAL_EU => "EU",
            Region::VAL_KR => "KR",
            Region::VAL_LATAM => "LATAM",
            Region::VAL_NA => "NA",
        }
    }

    /// The region's platform string, owned.
    pub fn to_string(&self) -> (r: String)
        ensures
            r@ == spec_region_str(*self),
    {
        self.as_ref().to_owned()
    }

    /// The region a name denotes, if any.
    pub fn from_name(s: &str) -> (r: Option<Region>)
        ensures
            r == spec_region_from_name(s@),
    {
        if str_eq(s, "BR1") || str_eq(s, "BR") {
            Some(Region::BR)
        } else if str_eq(s, "EUN1") || str_eq(s, "EUNE") {
            Some(Region::EUNE)
        } else if str_eq(s, "EUW1") || str_eq(s, "EUW") {
            Some(Region::EUW)
        } else if str_eq(s, "NA1") || str_eq(s, "NA") {
            Some(Region::NA)
        } else if str_eq(s, "KR") {
            Some(Region::KR)
        } else if str_eq(s, "LA1") || str_eq(s, "LAN") {
            Some(Region::LAN)
        } else if str_eq(s, "LA2") || str_eq(s, "LAS") {
            Some(Region::LAS)
        } else if str_eq(s, "OC1") || str_eq(s, "OCE") {
            Some(Region::OCE)
        } else if str_eq(s, "RU") {
            Some(Region::RU)
        } else if str_eq(s, "TR1") || str_eq(s, "TR") {
            Some(Region::TR)
        } else if str_eq(s, "JP1") || str_eq(s, "JP") {
            Some(Region::JP)
        } else if str_eq(s, "PBE1") || str_eq(s, "PBE") {
            Some(Region::PBE)
        } else if str_eq(s, "AMERICAS") {
            Some(Region::AMERICAS)
        } else if str_eq(s, "EUROPE") {
            Some(Region::EUROPE)
        } else if str_eq(s, "ASIA") {
            Some(Region::ASIA)
        } else if str_eq(s, "AP") {
            Some(Region::VAL_AP)
        } else if str_eq(s, "EU") {
            Some(Region::VAL_EU)
        } else if str_eq(s, "LATAM") {
            Some(Region::VAL_LATAM)
        } else {
            None
        }
    }
}

impl core::str::FromStr for Region {
    type Err = VariantNotFound;

    fn from_str(s: &str) -> Result<Region, VariantNotFound> {
        match Region::from_name(s) {
            Some(r) => Ok(r),
            None => Err(VariantNotFound),
        }
    }
}

} // verus!
