//! Rank divisions I through V (V is historic).

use vstd::prelude::*;

use crate::text::str_eq;
use crate::VariantNotFound;

verus! {

/// A rank division. Higher divisions are greater than lower ones
/// (`Division::I > Division::IV`), so the variants are declared from the
/// lowest (V) to the highest (I).
#[derive(Debug, Copy, Clone, Eq, PartialEq, Hash, PartialOrd, Ord, Structural)]
pub enum Division {
    /// Division 5, the lowest division, unused since 2019.
    V,
    /// Division 4, the lowest division since 2019.
    IV,
    /// Division 3.
    III,
    /// Division 2.
    II,
    /// Division 1, the best division in a tier, and the only division in
    /// apex tiers.
    I,
}

/// The numeric value of each division.
pub open spec fn spec_division_u8(d: Division) -> u8 {
    match d {
        Division::I => 1,
        Division::II => 2,
        Division::III => 3,
        Division::IV => 4,
        Division::V => 5,
    }
}

/// The name of each division.
pub open spec fn spec_division_str(d: Division) -> Seq<char> {
    match d {
        Division::I => "I"@,
        Division::II => "II"@,
        Division::III => "III"@,
        Division::IV => "IV"@,
        Division::V => "V"@,
    }
}

impl Division {
    /// The division's numeric value, 1 through 5.
    pub fn to_u8(self) -> (v: u8)
        ensures
            v == spec_division_u8(self),
    {
        match self {
            Division::I => 1,
            Division::II => 2,
            Division::III => 3,
            Division::IV => 4,
            Division::V => 5,
        }
    }

    /// The division with this numeric value, if any.
    pub fn try_from_u8(v: u8) -> (r: Option<Division>)
        ensures
            r == if 1 <= v <= 5 {
                Some(
                    match v {
                        1u8 => Division::I,
                        2u8 => Division::II,
                        3u8 => Division::III,
                        4u8 => Division::IV,
                        _ => Division::V,
                    },
                )
            } else {
                None::<Division>
            },
    {
        match v {
            1 => Some(Division::I),
            2 => Some(Division::II),
            3 => Some(Division::III),
            4 => Some(Division::IV),
            5 => Some(Division::V),
            _ => None,
        }
    }

    /// The division's name.
    pub fn as_ref(&self) -> (r: &'static str)
        ensures
            r@ == spec_division_str(*self),
    {
        match self {
            Division::I => "I",
            Division::II => "II",
            Division::III => "III",
            Division::IV => "IV",
            Division::V => "V",
        }
    }

    /// The division's name, owned.
    pub fn to_string(&self) -> (r: String)
        ensures
            r@ == spec_division_str(*self),
    {
        self.as_ref().to_owned()
    }

    /// The division a name denotes, if any.
    pub fn from_name(s: &str) -> (r: Option<Division>)
        ensures
            r == if s@ == "I"@ {
                Some(Division::I)
            } else if s@ == "II"@ {
                Some(Division::II)
            } else if s@ == "III"@ {
                Some(Division::III)
            } else if s@ == "IV"@ {
                Some(Division::IV)
            } else if s@ == "V"@ {
                Some(Division::V)
            } else {
                None::<Division>
            },
    {
        if str_eq(s, "I") {
            Some(Division::I)
        } else if str_eq(s, "II") {
            Some(Division::II)
        } else if str_eq(s, "III") {
            Some(Division::III)
        } else if str_eq(s, "IV") {
            Some(Division::IV)
        } else if str_eq(s, "V") {
            Some(Division::V)
        } else {
            None
        }
    }
}

impl core::str::FromStr for Division {
    type Err = VariantNotFound;

    fn from_str(s: &str) -> Result<Division, VariantNotFound> {
        match Division::from_name(s) {
            Some(d) => Ok(d),
            None => Err(VariantNotFound),
        }
    }
}

} // verus!
