//! Routes a request can be directed at: regional routes, League/TFT
//! platform routes, and Valorant platform routes.

use vstd::prelude::*;

use crate::text::str_eq;
use crate::VariantNotFound;

verus! {

/// Regional routes, used by tournament services and other endpoints.
#[derive(Debug, Copy, Clone, Eq, PartialEq, Hash, PartialOrd, Ord, Structural)]
pub enum RegionalRoute {
    /// Americas.
    AMERICAS,
    /// Asia.
    ASIA,
    /// Europe.
    EUROPE,
    /// Southeast Asia.
    SEA,
}

/// Platform routes for League of Legends and Teamfight Tactics.
#[derive(Debug, Copy, Clone, Eq, PartialEq, Hash, PartialOrd, Ord, Structural)]
pub enum PlatformRoute {
    /// Brazil.
    BR1,
    /// North-east Europe.
    EUN1,
    /// West Europe.
    EUW1,
    /// Japan.
    JP1,
    /// Korea.
    KR,
    /// North Latin America.
    LA1,
    /// South Latin America.
    LA2,
    /// North America.
    NA1,
    /// Oceania.
    OC1,
    /// Russia.
    RU,
    /// Turkey.
    TR1,
    /// Public beta environment.
    PBE1,
}

/// Platform routes for Valorant.
#[derive(Debug, Copy, Clone, Eq, PartialEq, Hash, PartialOrd, Ord, Structural)]
pub enum ValPlatformRoute {
    /// Asia Pacific.
    AP,
    /// Brazil.
    BR,
    /// Europe.
    EU,
    /// Latin America.
    LATAM,
    /// North America.
    NA,
    /// Korea.
    KR,
    /// Esports.
    ESPORTS,
}

/// Any routing variant.
#[derive(Debug, Copy, Clone, Eq, PartialEq, Hash, PartialOrd, Ord, Structural)]
pub enum Route {
    /// A regional route.
    Regional(RegionalRoute),
    /// A League/TFT platform route.
    Platform(PlatformRoute),
    /// A Valorant platform route.
    ValPlatform(ValPlatformRoute),
}

/// All regional routes, in id order.
pub open spec fn spec_regional_routes() -> Seq<RegionalRoute> {
    seq![RegionalRoute::AMERICAS, RegionalRoute::ASIA, RegionalRoute::EUROPE, RegionalRoute::SEA]
}

/// The numeric id of each regional route.
pub open spec fn spec_regional_u8(r: RegionalRoute) -> u8 {
    match r {
        RegionalRoute::AMERICAS => 1,
        RegionalRoute::ASIA => 2,
        RegionalRoute::EUROPE => 3,
        RegionalRoute::SEA => 4,
    }
}

/// The name of each regional route.
pub open spec fn spec_regional_str(r: RegionalRoute) -> Seq<char> {
    match r {
        RegionalRoute::AMERICAS => "AMERICAS"@,
        RegionalRoute::ASIA => "ASIA"@,
        RegionalRoute::EUROPE => "EUROPE"@,
        RegionalRoute::SEA => "SEA"@,
    }
}

/// The regional route a name denotes, if any.
pub open spec fn spec_regional_from_name(s: Seq<char>) -> Option<RegionalRoute> {
    if s == "AMERICAS"@ {
        Some(RegionalRoute::AMERICAS)
    } else if s == "ASIA"@ {
        Some(RegionalRoute::ASIA)
    } else if s == "EUROPE"@ {
        Some(RegionalRoute::EUROPE)
    } else if s == "SEA"@ {
        Some(RegionalRoute::SEA)
    } else {
        None
    }
}

impl RegionalRoute {
    /// The route's numeric id.
    pub fn to_u8(self) -> (v: u8)
        ensures
            v == spec_regional_u8(self),
    {
        match self {
            RegionalRoute::AMERICAS => 1,
            RegionalRoute::ASIA => 2,
            RegionalRoute::EUROPE => 3,
            RegionalRoute::SEA => 4,
        }
    }

    /// The route with this numeric id, if any.
    pub fn try_from_u8(v: u8) -> (r: Option<RegionalRoute>)
        ensures
            r == match v {
                1u8 => Some(RegionalRoute::AMERICAS),
                2u8 => Some(RegionalRoute::ASIA),
                3u8 => Some(RegionalRoute::EUROPE),
                4u8 => Some(RegionalRoute::SEA),
                _ => None::<RegionalRoute>,
            },
    {
        match v {
            1 => Some(RegionalRoute::AMERICAS),
            2 => Some(RegionalRoute::ASIA),
            3 => Some(RegionalRoute::EUROPE),
            4 => Some(RegionalRoute::SEA),
            _ => None,
        }
    }

    /// The route's name.
    pub fn as_str(self) -> (r: &'static str)
        ensures
            r@ == spec_regional_str(self),
    {
        match self {
            RegionalRoute::AMERICAS => "AMERICAS",
            RegionalRoute::ASIA => "ASIA",
            RegionalRoute::EUROPE => "EUROPE",
            RegionalRoute::SEA => "SEA",
        }
    }

    /// The route's name, owned.
    pub fn to_string(&self) -> (r: String)
        ensures
            r@ == spec_regional_str(*self),
    {
        self.as_str().to_owned()
    }

    /// The route a name denotes, if any.
    pub fn from_name(s: &str) -> (r: Option<RegionalRoute>)
        ensures
            r == spec_regional_from_name(s@),
    {
        if str_eq(s, "AMERICAS") {
            Some(RegionalRoute::AMERICAS)
        } else if str_eq(s, "ASIA") {
            Some(RegionalRoute::ASIA)
        } else if str_eq(s, "EUROPE") {
            Some(RegionalRoute::EUROPE)
        } else if str_eq(s, "SEA") {
            Some(RegionalRoute::SEA)
        } else {
            None
        }
    }

    /// All regional routes, in id order.
    pub fn iter() -> (v: Vec<RegionalRoute>)
        ensures
            v@ == spec_regional_routes(),
    {
        let mut v: Vec<RegionalRoute> = Vec::new();
        v.push(RegionalRoute::AMERICAS);
        v.push(RegionalRoute::ASIA);
        v.push(RegionalRoute::EUROPE);
        v.push(RegionalRoute::SEA);
        proof {
            assert(v@ =~= spec_regional_routes());
        }
        v
    }
}

/// All platform routes, in id order.
pub open spec fn spec_platform_routes() -> Seq<PlatformRoute> {
    seq![
        PlatformRoute::BR1,
        PlatformRoute::EUN1,
        PlatformRoute::EUW1,
        PlatformRoute::JP1,
        PlatformRoute::KR,
        PlatformRoute::LA1,
        PlatformRoute::LA2,
        PlatformRoute::NA1,
        PlatformRoute::OC1,
        PlatformRoute::RU,
        PlatformRoute::TR1,
        PlatformRoute::PBE1,
    ]
}

/// The numeric id of each platform route.
pub open spec fn spec_platform_u8(r: PlatformRoute) -> u8 {
    match r {
        PlatformRoute::BR1 => 16,
        PlatformRoute::EUN1 => 17,
        PlatformRoute::EUW1 => 18,
        PlatformRoute::JP1 => 19,
        PlatformRoute::KR => 20,
        PlatformRoute::LA1 => 21,
        PlatformRoute::LA2 => 22,
        PlatformRoute::NA1 => 23,
        PlatformRoute::OC1 => 24,
        PlatformRoute::RU => 25,
        PlatformRoute::TR1 => 26,
        PlatformRoute::PBE1 => 31,
    }
}

/// The name of each platform route.
pub open spec fn spec_platform_str(r: PlatformRoute) -> Seq<char> {
    match r {
        PlatformRoute::BR1 => "BR1"@,
        PlatformRoute::EUN1 => "EUN1"@,
        PlatformRoute::EUW1 => "EUW1"@,
        PlatformRoute::JP1 => "JP1"@,
        PlatformRoute::KR => "KR"@,
        PlatformRoute::LA1 => "LA1"@,
        PlatformRoute::LA2 => "LA2"@,
        PlatformRoute::NA1 => "NA1"@,
        PlatformRoute::OC1 => "OC1"@,
        PlatformRoute::RU => "RU"@,
        PlatformRoute::TR1 => "TR1"@,
        PlatformRoute::PBE1 => "PBE1"@,
    }
}

/// The platform route a name denotes, if any; each route also answers to
/// its older short name.
pub open spec fn spec_platform_from_name(s: Seq<char>) -> Option<PlatformRoute> {
    if s == "BR1"@ || s == "BR"@ {
        Some(PlatformRoute::BR1)
    } else if s == "EUN1"@ || s == "EUNE"@ {
        Some(PlatformRoute::EUN1)
    } else if s == "EUW1"@ || s == "EUW"@ {
        Some(PlatformRoute::EUW1)
    } else if s == "JP1"@ || s == "JP"@ {
        Some(PlatformRoute::JP1)
    } else if s == "KR"@ {
        Some(PlatformRoute::KR)
    } else if s == "LA1"@ || s == "LAN"@ {
        Some(PlatformRoute::LA1)
    } else if s == "LA2"@ || s == "LAS"@ {
        Some(PlatformRoute::LA2)
    } else if s == "NA1"@ || s == "NA"@ {
        Some(PlatformRoute::NA1)
    } else if s == "OC1"@ || s == "OCE"@ {
        Some(PlatformRoute::OC1)
    } else if s == "RU"@ {
        Some(PlatformRoute::RU)
    } else if s == "TR1"@ || s == "TR"@ {
        Some(PlatformRoute::TR1)
    } else if s == "PBE1"@ || s == "PBE"@ {
        Some(PlatformRoute::PBE1)
    } else {
        None
    }
}

impl PlatformRoute {
    /// The regional route this platform belongs to.
    pub fn to_regional(self) -> (r: RegionalRoute)
        ensures
            r == match self {
                PlatformRoute::BR1 => RegionalRoute::AMERICAS,
                PlatformRoute::LA1 => RegionalRoute::AMERICAS,
                PlatformRoute::LA2 => RegionalRoute::AMERICAS,
                PlatformRoute::NA1 => RegionalRoute::AMERICAS,
                PlatformRoute::OC1 => RegionalRoute::AMERICAS,
                PlatformRoute::PBE1 => RegionalRoute::AMERICAS,
                PlatformRoute::JP1 => RegionalRoute::ASIA,
                PlatformRoute::KR => RegionalRoute::ASIA,
                PlatformRoute::EUN1 => RegionalRoute::EUROPE,
                PlatformRoute::EUW1 => RegionalRoute::EUROPE,
                PlatformRoute::RU => RegionalRoute::EUROPE,
                PlatformRoute::TR1 => RegionalRoute::EUROPE,
            },
    {
        match self {
            PlatformRoute::BR1 => RegionalRoute::AMERICAS,
            PlatformRoute::LA1 => RegionalRoute::AMERICAS,
            PlatformRoute::LA2 => RegionalRoute::AMERICAS,
            PlatformRoute::NA1 => RegionalRoute::AMERICAS,
            PlatformRoute::OC1 => RegionalRoute::AMERICAS,
            PlatformRoute::PBE1 => RegionalRoute::AMERICAS,
            PlatformRoute::JP1 => RegionalRoute::ASIA,
            PlatformRoute::KR => RegionalRoute::ASIA,
            PlatformRoute::EUN1 => RegionalRoute::EUROPE,
            PlatformRoute::EUW1 => RegionalRoute::EUROPE,
            PlatformRoute::RU => RegionalRoute::EUROPE,
            PlatformRoute::TR1 => RegionalRoute::EUROPE,
        }
    }

    /// The short region name used by the tournament endpoints.
    pub fn as_region_str(self) -> (r: &'static str)
        ensures
            r@ == match self {
                PlatformRoute::BR1 => "BR"@,
                PlatformRoute::EUN1 => "EUNE"@,
                PlatformRoute::EUW1 => "EUW"@,
                PlatformRoute::JP1 => "JP"@,
                PlatformRoute::KR => "KR"@,
                PlatformRoute::LA1 => "LAN"@,
                PlatformRoute::LA2 => "LAS"@,
                PlatformRoute::NA1 => "NA"@,
                PlatformRoute::OC1 => "OCE"@,
                PlatformRoute::RU => "RU"@,
                PlatformRoute::TR1 => "TR"@,
                PlatformRoute::PBE1 => "PBE"@,
            },
    {
        match self {
            PlatformRoute::BR1 => "BR",
            PlatformRoute::EUN1 => "EUNE",
            PlatformRoute::EUW1 => "EUW",
            PlatformRoute::JP1 => "JP",
            PlatformRoute::KR => "KR",
            PlatformRoute::LA1 => "LAN",
            PlatformRoute::LA2 => "LAS",
            PlatformRoute::NA1 => "NA",
            PlatformRoute::OC1 => "OCE",
            PlatformRoute::RU => "RU",
            PlatformRoute::TR1 => "TR",
            PlatformRoute::PBE1 => "PBE",
        }
    }

    /// The route's numeric id.
    pub fn to_u8(self) -> (v: u8)
        ensures
            v == spec_platform_u8(self),
    {
        match self {
            PlatformRoute::BR1 => 16,
            PlatformRoute::EUN1 => 17,
            PlatformRoute::EUW1 => 18,
            PlatformRoute::JP1 => 19,
            PlatformRoute::KR => 20,
            PlatformRoute::LA1 => 21,
            PlatformRoute::LA2 => 22,
            PlatformRoute::NA1 => 23,
            PlatformRoute::OC1 => 24,
            PlatformRoute::RU => 25,
            PlatformRoute::TR1 => 26,
            PlatformRoute::PBE1 => 31,
        }
    }

    /// The route with this numeric id, if any.
    pub fn try_from_u8(v: u8) -> (r: Option<PlatformRoute>)
        ensures
            r == match v {
                16u8 => Some(PlatformRoute::BR1),
                17u8 => Some(PlatformRoute::EUN1),
                18u8 => Some(PlatformRoute::EUW1),
                19u8 => Some(PlatformRoute::JP1),
                20u8 => Some(PlatformRoute::KR),
                21u8 => Some(PlatformRoute::LA1),
                22u8 => Some(PlatformRoute::LA2),
                23u8 => Some(PlatformRoute::NA1),
                24u8 => Some(PlatformRoute::OC1),
                25u8 => Some(PlatformRoute::RU),
                26u8 => Some(PlatformRoute::TR1),
                31u8 => Some(PlatformRoute::PBE1),
                _ => None::<PlatformRoute>,
            },
    {
        match v {
            16 => Some(PlatformRoute::BR1),
            17 => Some(PlatformRoute::EUN1),
            18 => Some(PlatformRoute::EUW1),
            19 => Some(PlatformRoute::JP1),
            20 => Some(PlatformRoute::KR),
            21 => Some(PlatformRoute::LA1),
            22 => Some(PlatformRoute::LA2),
            23 => Some(PlatformRoute::NA1),
            24 => Some(PlatformRoute::OC1),
            25 => Some(PlatformRoute::RU),
            26 => Some(PlatformRoute::TR1),
            31 => Some(PlatformRoute::PBE1),
            _ => None,
        }
    }

    /// The route's name.
    pub fn as_str(self) -> (r: &'static str)
        ensures
            r@ == spec_platform_str(self),
    {
        match self {
            PlatformRoute::BR1 => "BR1",
            PlatformRoute::EUN1 => "EUN1",
            PlatformRoute::EUW1 => "EUW1",
            PlatformRoute::JP1 => "JP1",
            PlatformRoute::KR => "KR",
            PlatformRoute::LA1 => "LA1",
            PlatformRoute::LA2 => "LA2",
            PlatformRoute::NA1 => "NA1",
            PlatformRoute::OC1 => "OC1",
            PlatformRoute::RU => "RU",
            PlatformRoute::TR1 => "TR1",
            PlatformRoute::PBE1 => "PBE1",
        }
    }

    /// The route's name, owned.
    pub fn to_string(&self) -> (r: String)
        ensures
            r@ == spec_platform_str(*self),
    {
        self.as_str().to_owned()
    }

    /// The route a name denotes, if any.
    pub fn from_name(s: &str) -> (r: Option<PlatformRoute>)
        ensures
            r == spec_platform_from_name(s@),
    {
        if str_eq(s, "BR1") || str_eq(s, "BR") {
            Some(PlatformRoute::BR1)
        } else if str_eq(s, "EUN1") || str_eq(s, "EUNE") {
            Some(PlatformRoute::EUN1)
        } else if str_eq(s, "EUW1") || str_eq(s, "EUW") {
            Some(PlatformRoute::EUW1)
        } else if str_eq(s, "JP1") || str_eq(s, "JP") {
            Some(PlatformRoute::JP1)
        } else if str_eq(s, "KR") {
            Some(PlatformRoute::KR)
        } else if str_eq(s, "LA1") || str_eq(s, "LAN") {
            Some(PlatformRoute::LA1)
        } else if str_eq(s, "LA2") || str_eq(s, "LAS") {
            Some(PlatformRoute::LA2)
        } else if str_eq(s, "NA1") || str_eq(s, "NA") {
            Some(PlatformRoute::NA1)
        } else if str_eq(s, "OC1") || str_eq(s, "OCE") {
            Some(PlatformRoute::OC1)
        } else if str_eq(s, "RU") {
            Some(PlatformRoute::RU)
        } else if str_eq(s, "TR1") || str_eq(s, "TR") {
            Some(PlatformRoute::TR1)
        } else if str_eq(s, "PBE1") || str_eq(s, "PBE") {
            Some(PlatformRoute::PBE1)
        } else {
            None
        }
    }

    /// All platform routes, in id order.
    pub fn iter() -> (v: Vec<PlatformRoute>)
        ensures
            v@ == spec_platform_routes(),
    {
        let mut v: Vec<PlatformRoute> = Vec::new();
        v.push(PlatformRoute::BR1);
        v.push(PlatformRoute::EUN1);
        v.push(PlatformRoute::EUW1);
        v.push(PlatformRoute::JP1);
        v.push(PlatformRoute::KR);
        v.push(PlatformRoute::LA1);
        v.push(PlatformRoute::LA2);
        v.push(PlatformRoute::NA1);
        v.push(PlatformRoute::OC1);
        v.push(PlatformRoute::RU);
        v.push(PlatformRoute::TR1);
        v.push(PlatformRoute::PBE1);
        proof {
            assert(v@ =~= spec_platform_routes());
        }
        v
    }
}

/// All Valorant platform routes, in id order.
pub open spec fn spec_val_platform_routes() -> Seq<ValPlatformRoute> {
    seq![
        ValPlatformRoute::AP,
        ValPlatformRoute::BR,
        ValPlatformRoute::EU,
        ValPlatformRoute::LATAM,
        ValPlatformRoute::NA,
        ValPlatformRoute::KR,
        ValPlatformRoute::ESPORTS,
    ]
}

/// The numeric id of each Valorant platform route.
pub open spec fn spec_val_platform_u8(r: ValPlatformRoute) -> u8 {
    match r {
        ValPlatformRoute::AP => 64,
        ValPlatformRoute::BR => 65,
        ValPlatformRoute::EU => 66,
        ValPlatformRoute::LATAM => 68,
        ValPlatformRoute::NA => 69,
        ValPlatformRoute::KR => 70,
        ValPlatformRoute::ESPORTS => 95,
    }
}

/// The name of each Valorant platform route.
pub open spec fn spec_val_platform_str(r: ValPlatformRoute) -> Seq<char> {
    match r {
        ValPlatformRoute::AP => "AP"@,
        ValPlatformRoute::BR => "BR"@,
        ValPlatformRoute::EU => "EU"@,
        ValPlatformRoute::LATAM => "LATAM"@,
        ValPlatformRoute::NA => "NA"@,
        ValPlatformRoute::KR => "KR"@,
        ValPlatformRoute::ESPORTS => "ESPORTS"@,
    }
}

/// The Valorant platform route a name denotes, if any.
pub open spec fn spec_val_platform_from_name(s: Seq<char>) -> Option<ValPlatformRoute> {
    if s == "AP"@ {
        Some(ValPlatformRoute::AP)
    } else if s == "BR"@ {
        Some(ValPlatformRoute::BR)
    } else if s == "EU"@ {
        Some(ValPlatformRoute::EU)
    } else if s == "LATAM"@ {
        Some(ValPlatformRoute::LATAM)
    } else if s == "NA"@ {
        Some(ValPlatformRoute::NA)
    } else if s == "KR"@ {
        Some(ValPlatformRoute::KR)
    } else if s == "ESPORTS"@ {
        Some(ValPlatformRoute::ESPORTS)
    } else {
        None
    }
}

impl ValPlatformRoute {
    /// The route's numeric id.
    pub fn to_u8(self) -> (v: u8)
        ensures
            v == spec_val_platform_u8(self),
    {
        match self {
            ValPlatformRoute::AP => 64,
            ValPlatformRoute::BR => 65,
            ValPlatformRoute::EU => 66,
            ValPlatformRoute::LATAM => 68,
            ValPlatformRoute::NA => 69,
            ValPlatformRoute::KR => 70,
            ValPlatformRoute::ESPORTS => 95,
        }
    }

    /// The route with this numeric id, if any.
    pub fn try_from_u8(v: u8) -> (r: Option<ValPlatformRoute>)
        ensures
            r == match v {
                64u8 => Some(ValPlatformRoute::AP),
                65u8 => Some(ValPlatformRoute::BR),
                66u8 => Some(ValPlatformRoute::EU),
                68u8 => Some(ValPlatformRoute::LATAM),
                69u8 => Some(ValPlatformRoute::NA),
                70u8 => Some(ValPlatformRoute::KR),
                95u8 => Some(ValPlatformRoute::ESPORTS),
                _ => None::<ValPlatformRoute>,
            },
    {
        match v {
            64 => Some(ValPlatformRoute::AP),
            65 => Some(ValPlatformRoute::BR),
            66 => Some(ValPlatformRoute::EU),
            68 => Some(ValPlatformRoute::LATAM),
            69 => Some(ValPlatformRoute::NA),
            70 => Some(ValPlatformRoute::KR),
            95 => Some(ValPlatformRoute::ESPORTS),
            _ => None,
        }
    }

    /// The route's name.
    pub fn as_str(self) -> (r: &'static str)
        ensures
            r@ == spec_val_platform_str(self),
    {
        match self {
            ValPlatformRoute::AP => "AP",
            ValPlatformRoute::BR => "BR",
            ValPlatformRoute::EU => "EU",
            ValPlatformRoute::LATAM => "LATAM",
            ValPlatformRoute::NA => "NA",
            ValPlatformRoute::KR => "KR",
            ValPlatformRoute::ESPORTS => "ESPORTS",
        }
    }

    /// The route's name, owned.
    pub fn to_string(&self) -> (r: String)
        ensures
            r@ == spec_val_platform_str(*self),
    {
        self.as_str().to_owned()
    }

    /// The route a name denotes, if any.
    pub fn from_name(s: &str) -> (r: Option<ValPlatformRoute>)
        ensures
            r == spec_val_platform_from_name(s@),
    {
        if str_eq(s, "AP") {
            Some(ValPlatformRoute::AP)
        } else if str_eq(s, "BR") {
            Some(ValPlatformRoute::BR)
        } else if str_eq(s, "EU") {
            Some(ValPlatformRoute::EU)
        } else if str_eq(s, "LATAM") {
            Some(ValPlatformRoute::LATAM)
        } else if str_eq(s, "NA") {
            Some(ValPlatformRoute::NA)
        } else if str_eq(s, "KR") {
            Some(ValPlatformRoute::KR)
        } else if str_eq(s, "ESPORTS") {
            Some(ValPlatformRoute::ESPORTS)
        } else {
            None
        }
    }

    /// All Valorant platform routes, in id order.
    pub fn iter() -> (v: Vec<ValPlatformRoute>)
        ensures
            v@ == spec_val_platform_routes(),
    {
        let mut v: Vec<ValPlatformRoute> = Vec::new();
        v.push(ValPlatformRoute::AP);
        v.push(ValPlatformRoute::BR);
        v.push(ValPlatformRoute::EU);
        v.push(ValPlatformRoute::LATAM);
        v.push(ValPlatformRoute::NA);
        v.push(ValPlatformRoute::KR);
        v.push(ValPlatformRoute::ESPORTS);
        proof {
            assert(v@ =~= spec_val_platform_routes());
        }
        v
    }
}

/// Every route: regional ones first, then platform, then Valorant, each
/// group in id order.
pub open spec fn spec_all_routes() -> Seq<Route> {
    seq![
        Route::Regional(RegionalRoute::AMERICAS),
        Route::Regional(RegionalRoute::ASIA),
        Route::Regional(RegionalRoute::EUROPE),
        Route::Regional(RegionalRoute::SEA),
        Route::Platform(PlatformRoute::BR1),
        Route::Platform(PlatformRoute::EUN1),
        Route::Platform(PlatformRoute::EUW1),
        Route::Platform(PlatformRoute::JP1),
        Route::Platform(PlatformRoute::KR),
        Route::Platform(PlatformRoute::LA1),
        Route::Platform(PlatformRoute::LA2),
        Route::Platform(PlatformRoute::NA1),
        Route::Platform(PlatformRoute::OC1),
        Route::Platform(PlatformRoute::RU),
        Route::Platform(PlatformRoute::TR1),
        Route::Platform(PlatformRoute::PBE1),
        Route::ValPlatform(ValPlatformRoute::AP),
        Route::ValPlatform(ValPlatformRoute::BR),
        Route::ValPlatform(ValPlatformRoute::EU),
        Route::ValPlatform(ValPlatformRoute::LATAM),
        Route::ValPlatform(ValPlatformRoute::NA),
        Route::ValPlatform(ValPlatformRoute::KR),
        Route::ValPlatform(ValPlatformRoute::ESPORTS),
    ]
}

/// The name of any route.
pub open spec fn spec_route_str(r: Route) -> Seq<char> {
    match r {
        Route::Regional(x) => spec_regional_str(x),
        Route::Platform(x) => spec_platform_str(x),
        Route::ValPlatform(x) => spec_val_platform_str(x),
    }
}

/// The numeric id of any route.
pub open spec fn spec_route_u8(r: Route) -> u8 {
    match r {
        Route::Regional(x) => spec_regional_u8(x),
        Route::Platform(x) => spec_platform_u8(x),
        Route::ValPlatform(x) => spec_val_platform_u8(x),
    }
}

/// The route a name denotes, if any: regional routes are tried first, then
/// platform routes, then Valorant platform routes.
pub open spec fn spec_route_from_name(s: Seq<char>) -> Option<Route> {
    if spec_regional_from_name(s) is Some {
        Some(Route::Regional(spec_regional_from_name(s).unwrap()))
    } else if spec_platform_from_name(s) is Some {
        Some(Route::Platform(spec_platform_from_name(s).unwrap()))
    } else if spec_val_platform_from_name(s) is Some {
        Some(Route::ValPlatform(spec_val_platform_from_name(s).unwrap()))
    } else {
        None
    }
}

impl Route {
    /// The route's name.
    pub fn as_str(self) -> (r: &'static str)
        ensures
            r@ == spec_route_str(self),
    {
        match self {
            Route::Regional(x) => x.as_str(),
            Route::Platform(x) => x.as_str(),
            Route::ValPlatform(x) => x.as_str(),
        }
    }

    /// The route's name, owned.
    pub fn to_string(&self) -> (r: String)
        ensures
            r@ == spec_route_str(*self),
    {
        self.as_str().to_owned()
    }

    /// The route's numeric id.
    pub fn to_u8(self) -> (v: u8)
        ensures
            v == spec_route_u8(self),
    {
        match self {
            Route::Regional(x) => x.to_u8(),
            Route::Platform(x) => x.to_u8(),
            Route::ValPlatform(x) => x.to_u8(),
        }
    }

    /// The route with this numeric id, if any: regional ids are tried
    /// first, then platform ids, then Valorant platform ids.
    pub fn try_from_u8(v: u8) -> (r: Option<Route>)
        ensures
            r == if RegionalRoute::spec_try_from_u8(v) is Some {
                Some(Route::Regional(RegionalRoute::spec_try_from_u8(v).unwrap()))
            } else if PlatformRoute::spec_try_from_u8(v) is Some {
                Some(Route::Platform(PlatformRoute::spec_try_from_u8(v).unwrap()))
            } else if ValPlatformRoute::spec_try_from_u8(v) is Some {
                Some(Route::ValPlatform(ValPlatformRoute::spec_try_from_u8(v).unwrap()))
            } else {
                None::<Route>
            },
    {
        if let Some(x) = RegionalRoute::try_from_u8(v) {
            Some(Route::Regional(x))
        } else if let Some(x) = PlatformRoute::try_from_u8(v) {
            Some(Route::Platform(x))
        } else if let Some(x) = ValPlatformRoute::try_from_u8(v) {
            Some(Route::ValPlatform(x))
        } else {
            None
        }
    }

    /// The route a name denotes, if any.
    pub fn from_name(s: &str) -> (r: Option<Route>)
        ensures
            r == spec_route_from_name(s@),
    {
        if let Some(x) = RegionalRoute::from_name(s) {
            Some(Route::Regional(x))
        } else if let Some(x) = PlatformRoute::from_name(s) {
            Some(Route::Platform(x))
        } else if let Some(x) = ValPlatformRoute::from_name(s) {
            Some(Route::ValPlatform(x))
        } else {
            None
        }
    }

    /// All routes: regional ones first, then platform, then Valorant.
    pub fn iter() -> (v: Vec<Route>)
        ensures
            v@ == spec_all_routes(),
    {
        let mut v: Vec<Route> = Vec::new();
        let regional = RegionalRoute::iter();
        let platform = PlatformRoute::iter();
        let val_platform = ValPlatformRoute::iter();
        let mut i: usize = 0;
        while i < regional.len()
            invariant
                regional@.len() == 4,
                regional@ == spec_regional_routes(),
                0 <= i <= 4,
                v@ == spec_all_routes().subrange(0, i as int),
            decreases regional@.len() - i,
        {
            v.push(Route::Regional(regional[i]));
            i = i + 1;
            proof {
                assert(v@ =~= spec_all_routes().subrange(0, i as int));
            }
        }
        let mut j: usize = 0;
        while j < platform.len()
            invariant
                platform@.len() == 12,
                platform@ == spec_platform_routes(),
                0 <= j <= 12,
                v@ == spec_all_routes().subrange(0, 4 + j as int),
            decreases platform@.len() - j,
        {
            v.push(Route::Platform(platform[j]));
            j = j + 1;
            proof {
                assert(v@ =~= spec_all_routes().subrange(0, 4 + j as int));
            }
        }
        let mut k: usize = 0;
        while k < val_platform.len()
            invariant
                val_platform@.len() == 7,
                val_platform@ == spec_val_platform_routes(),
                0 <= k <= 7,
                v@ == spec_all_routes().subrange(0, 16 + k as int),
            decreases val_platform@.len() - k,
        {
            v.push(Route::ValPlatform(val_platform[k]));
            k = k + 1;
            proof {
                assert(v@ =~= spec_all_routes().subrange(0, 16 + k as int));
            }
        }
        proof {
            assert(spec_all_routes().subrange(0, 23) =~= spec_all_routes());
        }
        v
    }
}

impl RegionalRoute {
    /// The route with this numeric id, as a spec value.
    pub open spec fn spec_try_from_u8(v: u8) -> Option<RegionalRoute> {
        match v {
            1u8 => Some(RegionalRoute::AMERICAS),
            2u8 => Some(RegionalRoute::ASIA),
            3u8 => Some(RegionalRoute::EUROPE),
            4u8 => Some(RegionalRoute::SEA),
            _ => None,
        }
    }
}

impl PlatformRoute {
    /// The route with this numeric id, as a spec value.
    pub open spec fn spec_try_from_u8(v: u8) -> Option<PlatformRoute> {
        match v {
            16u8 => Some(PlatformRoute::BR1),
            17u8 => Some(PlatformRoute::EUN1),
            18u8 => Some(PlatformRoute::EUW1),
            19u8 => Some(PlatformRoute::JP1),
            20u8 => Some(PlatformRoute::KR),
            21u8 => Some(PlatformRoute::LA1),
            22u8 => Some(PlatformRoute::LA2),
            23u8 => Some(PlatformRoute::NA1),
            24u8 => Some(PlatformRoute::OC1),
            25u8 => Some(PlatformRoute::RU),
            26u8 => Some(PlatformRoute::TR1),
            31u8 => Some(PlatformRoute::PBE1),
            _ => None,
        }
    }
}

impl ValPlatformRoute {
    /// The route with this numeric id, as a spec value.
    pub open spec fn spec_try_from_u8(v: u8) -> Option<ValPlatformRoute> {
        match v {
            64u8 => Some(ValPlatformRoute::AP),
            65u8 => Some(ValPlatformRoute::BR),
            66u8 => Some(ValPlatformRoute::EU),
            68u8 => Some(ValPlatformRoute::LATAM),
            69u8 => Some(ValPlatformRoute::NA),
            70u8 => Some(ValPlatformRoute::KR),
            95u8 => Some(ValPlatformRoute::ESPORTS),
            _ => None,
        }
    }
}

impl core::str::FromStr for RegionalRoute {
    type Err = VariantNotFound;

    fn from_str(s: &str) -> Result<RegionalRoute, VariantNotFound> {
        match RegionalRoute::from_name(s) {
            Some(r) => Ok(r),
            None => Err(VariantNotFound),
        }
    }
}

impl core::str::FromStr for PlatformRoute {
    type Err = VariantNotFound;

    fn from_str(s: &str) -> Result<PlatformRoute, VariantNotFound> {
        match PlatformRoute::from_name(s) {
            Some(r) => Ok(r),
            None => Err(VariantNotFound),
        }
    }
}

impl core::str::FromStr for ValPlatformRoute {
    type Err = VariantNotFound;

    fn from_str(s: &str) -> Result<ValPlatformRoute, VariantNotFound> {
        match ValPlatformRoute::from_name(s) {
            Some(r) => Ok(r),
            None => Err(VariantNotFound),
        }
    }
}

impl core::str::FromStr for Route {
    type Err = VariantNotFound;

    fn from_str(s: &str) -> Result<Route, VariantNotFound> {
        match Route::from_name(s) {
            Some(r) => Ok(r),
            None => Err(VariantNotFound),
        }
    }
}

} // verus!
