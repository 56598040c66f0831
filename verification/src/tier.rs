//! Ranked tiers, from iron up to challenger.

use vstd::prelude::*;

use crate::text::str_eq;
use crate::VariantNotFound;

verus! {

/// A ranked tier. Declared from lowest to highest, so the derived order
/// sorts lower tiers below higher ones.
#[derive(Debug, Copy, Clone, Eq, PartialEq, Hash, PartialOrd, Ord, Structural)]
#[allow(non_camel_case_types)]
pub enum Tier {
    /// Unranked, no tier. Returned in place of a tier for unranked players.
    UNRANKED,
    /// Iron, the lowest tier.
    IRON,
    /// Bronze.
    BRONZE,
    /// Silver.
    SILVER,
    /// Gold.
    GOLD,
    /// Platinum.
    PLATINUM,
    /// Emerald.
    EMERALD,
    /// Diamond, the highest non-apex tier.
    DIAMOND,
    /// Master, an apex tier.
    MASTER,
    /// Grand Master, an apex tier.
    GRANDMASTER,
    /// Challenger, the highest tier, an apex tier.
    CHALLENGER,
}

/// The name of each tier.
pub open spec fn spec_tier_str(t: Tier) -> Seq<char> {
    match t {
        Tier::UNRANKED => "UNRANKED"@,
        Tier::IRON => "IRON"@,
        Tier::BRONZE => "BRONZE"@,
        Tier::SILVER => "SILVER"@,
        Tier::GOLD => "GOLD"@,
        Tier::PLATINUM => "PLATINUM"@,
        Tier::EMERALD => "EMERALD"@,
        Tier::DIAMOND => "DIAMOND"@,
        Tier::MASTER => "MASTER"@,
        Tier::GRANDMASTER => "GRANDMASTER"@,
        Tier::CHALLENGER => "CHALLENGER"@,
    }
}

/// The tier a name denotes, if any.
pub open spec fn spec_tier_from_name(s: Seq<char>) -> Option<Tier> {
    if s == "UNRANKED"@ {
        Some(Tier::UNRANKED)
    } else if s == "IRON"@ {
        Some(Tier::IRON)
    } else if s == "BRONZE"@ {
        Some(Tier::BRONZE)
    } else if s == "SILVER"@ {
        Some(Tier::SILVER)
    } else if s == "GOLD"@ {
        Some(Tier::GOLD)
    } else if s == "PLATINUM"@ {
        Some(Tier::PLATINUM)
    } else if s == "EMERALD"@ {
        Some(Tier::EMERALD)
    } else if s == "DIAMOND"@ {
        Some(Tier::DIAMOND)
    } else if s == "MASTER"@ {
        Some(Tier::MASTER)
    } else if s == "GRANDMASTER"@ {
        Some(Tier::GRANDMASTER)
    } else if s == "CHALLENGER"@ {
        Some(Tier::CHALLENGER)
    } else {
        None
    }
}

impl Tier {
    /// If this tier is an apex tier: master, grandmaster or challenger.
    /// Returns false for unranked.
    pub fn is_apex(self) -> (r: bool)
        ensures
            r == (self is MASTER || self is GRANDMASTER || self is CHALLENGER),
    {
        matches!(self, Tier::MASTER | Tier::GRANDMASTER | Tier::CHALLENGER)
    }

    /// If this tier is a "standard" tier, iron through diamond. Returns
    /// false for unranked.
    pub fn is_standard(self) -> (r: bool)
        ensures
            r == (!(self is UNRANKED) && !(self is MASTER) && !(self is GRANDMASTER) && !(
            self is CHALLENGER)),
    {
        !matches!(self, Tier::UNRANKED | Tier::MASTER | Tier::GRANDMASTER | Tier::CHALLENGER)
    }

    /// If this tier is ranked: iron through challenger, but not unranked.
    pub fn is_ranked(self) -> (r: bool)
        ensures
            r == !(self is UNRANKED),
    {
        !matches!(self, Tier::UNRANKED)
    }

    /// If this tier is unranked.
    pub fn is_unranked(self) -> (r: bool)
        ensures
            r == (self is UNRANKED),
    {
        matches!(self, Tier::UNRANKED)
    }

    /// Unranked becomes `None`; every ranked tier becomes `Some` of itself.
    pub fn to_ranked(self) -> (r: Option<Tier>)
        ensures
            r == if self is UNRANKED {
                None
            } else {
                Some(self)
            },
    {
        if self.is_unranked() {
            None
        } else {
            Some(self)
        }
    }

    /// The tier's name.
    pub fn as_ref(&self) -> (r: &'static str)
        ensures
            r@ == spec_tier_str(*self),
    {
        match self {
            Tier::UNRANKED => "UNRANKED",
            Tier::IRON => "IRON",
            Tier::BRONZE => "BRONZE",
            Tier::SILVER => "SILVER",
            Tier::GOLD => "GOLD",
            Tier::PLATINUM => "PLATINUM",
            Tier::EMERALD => "EMERALD",
            Tier::DIAMOND => "DIAMOND",
            Tier::MASTER => "MASTER",
            Tier::GRANDMASTER => "GRANDMASTER",
            Tier::CHALLENGER => "CHALLENGER",
        }
    }

    /// The tier's name, owned.
    pub fn to_string(&self) -> (r: String)
        ensures
            r@ == spec_tier_str(*self),
    {
        self.as_ref().to_owned()
    }

    /// The tier a name denotes, if any.
    pub fn from_name(s: &str) -> (r: Option<Tier>)
        ensures
            r == spec_tier_from_name(s@),
    {
        if str_eq(s, "UNRANKED") {
            Some(Tier::UNRANKED)
        } else if str_eq(s, "IRON") {
            Some(Tier::IRON)
        } else if str_eq(s, "BRONZE") {
            Some(Tier::BRONZE)
        } else if str_eq(s, "SILVER") {
            Some(Tier::SILVER)
        } else if str_eq(s, "GOLD") {
            Some(Tier::GOLD)
        } else if str_eq(s, "PLATINUM") {
            Some(Tier::PLATINUM)
        } else if str_eq(s, "EMERALD") {
            Some(Tier::EMERALD)
        } else if str_eq(s, "DIAMOND") {
            Some(Tier::DIAMOND)
        } else if str_eq(s, "MASTER") {
            Some(Tier::MASTER)
        } else if str_eq(s, "GRANDMASTER") {
            Some(Tier::GRANDMASTER)
        } else if str_eq(s, "CHALLENGER") {
            Some(Tier::CHALLENGER)
        } else {
            None
        }
    }
}

impl core::str::FromStr for Tier {
    type Err = VariantNotFound;

    fn from_str(s: &str) -> Result<Tier, VariantNotFound> {
        match Tier::from_name(s) {
            Some(t) => Ok(t),
            None => Err(VariantNotFound),
        }
    }
}

} // verus!
