//! Ranked queue types, with a catch-all for queues this crate has not yet
//! heard of.

use vstd::prelude::*;

use crate::text::str_eq;

verus! {

/// A ranked queue type. Unrecognized names are kept verbatim in `UNKNOWN`,
/// so new queues the server introduces are never lost.
#[derive(Debug, Clone, Eq, Hash)]
#[allow(non_camel_case_types)]
pub enum QueueType {
    /// Catch-all variant for new, unknown queue types.
    UNKNOWN(String),
    /// Summoner's Rift (5v5), ranked solo queue.
    RANKED_SOLO_5x5,
    /// Summoner's Rift (5v5), flex queue.
    RANKED_FLEX_SR,
    /// Twisted Treeline (3v3), flex queue.
    RANKED_FLEX_TT,
    /// Ranked Teamfight Tactics.
    RANKED_TFT,
    /// Ranked Teamfight Tactics, Hyper Roll game mode.
    RANKED_TFT_TURBO,
    /// Ranked Teamfight Tactics, Double Up game mode.
    RANKED_TFT_DOUBLE_UP,
    /// Ranked Teamfight Tactics, the old Double Up name.
    RANKED_TFT_PAIRS,
}

/// The name of each queue type; an unknown queue keeps the name it came
/// with.
pub open spec fn spec_queue_str(q: QueueType) -> Seq<char> {
    match q {
        QueueType::UNKNOWN(s) => s@,
        QueueType::RANKED_SOLO_5x5 => "RANKED_SOLO_5x5"@,
        QueueType::RANKED_FLEX_SR => "RANKED_FLEX_SR"@,
        QueueType::RANKED_FLEX_TT => "RANKED_FLEX_TT"@,
        QueueType::RANKED_TFT => "RANKED_TFT"@,
        QueueType::RANKED_TFT_TURBO => "RANKED_TFT_TURBO"@,
        QueueType::RANKED_TFT_DOUBLE_UP => "RANKED_TFT_DOUBLE_UP"@,
        QueueType::RANKED_TFT_PAIRS => "RANKED_TFT_PAIRS"@,
    }
}

impl QueueType {
    /// The queue's name.
    pub fn as_ref(&self) -> (r: &str)
        ensures
            r@ == spec_queue_str(*self),
    {
        match self {
            QueueType::UNKNOWN(s) => s.as_str(),
            QueueType::RANKED_SOLO_5x5 => "RANKED_SOLO_5x5",
            QueueType::RANKED_FLEX_SR => "RANKED_FLEX_SR",
            QueueType::RANKED_FLEX_TT => "RANKED_FLEX_TT",
            QueueType::RANKED_TFT => "RANKED_TFT",
            QueueType::RANKED_TFT_TURBO => "RANKED_TFT_TURBO",
            QueueType::RANKED_TFT_DOUBLE_UP => "RANKED_TFT_DOUBLE_UP",
            QueueType::RANKED_TFT_PAIRS => "RANKED_TFT_PAIRS",
        }
    }

    /// The queue's name, owned.
    pub fn to_string(&self) -> (r: String)
        ensures
            r@ == spec_queue_str(*self),
    {
        self.as_ref().to_owned()
    }

    /// The queue a name denotes; never fails — an unrecognized name becomes
    /// `UNKNOWN` of itself, so the result's name is always the given name.
    pub fn from_name(s: &str) -> (q: QueueType)
        ensures
            spec_queue_str(q) == s@,
            !(q is UNKNOWN) ==> q == spec_known_queue(s@).unwrap(),
            q is UNKNOWN ==> spec_known_queue(s@) is None,
    {
        if str_eq(s, "RANKED_SOLO_5x5") {
            QueueType::RANKED_SOLO_5x5
        } else if str_eq(s, "RANKED_FLEX_SR") {
            QueueType::RANKED_FLEX_SR
        } else if str_eq(s, "RANKED_FLEX_TT") {
            QueueType::RANKED_FLEX_TT
        } else if str_eq(s, "RANKED_TFT") {
            QueueType::RANKED_TFT
        } else if str_eq(s, "RANKED_TFT_TURBO") {
            QueueType::RANKED_TFT_TURBO
        } else if str_eq(s, "RANKED_TFT_DOUBLE_UP") {
            QueueType::RANKED_TFT_DOUBLE_UP
        } else if str_eq(s, "RANKED_TFT_PAIRS") {
            QueueType::RANKED_TFT_PAIRS
        } else {
            QueueType::UNKNOWN(s.to_owned())
        }
    }
}

/// The known queue a name denotes, if any.
pub open spec fn spec_known_queue(s: Seq<char>) -> Option<QueueType> {
    if s == "RANKED_SOLO_5x5"@ {
        Some(QueueType::RANKED_SOLO_5x5)
    } else if s == "RANKED_FLEX_SR"@ {
        Some(QueueType::RANKED_FLEX_SR)
    } else if s == "RANKED_FLEX_TT"@ {
        Some(QueueType::RANKED_FLEX_TT)
    } else if s == "RANKED_TFT"@ {
        Some(QueueType::RANKED_TFT)
    } else if s == "RANKED_TFT_TURBO"@ {
        Some(QueueType::RANKED_TFT_TURBO)
    } else if s == "RANKED_TFT_DOUBLE_UP"@ {
        Some(QueueType::RANKED_TFT_DOUBLE_UP)
    } else if s == "RANKED_TFT_PAIRS"@ {
        Some(QueueType::RANKED_TFT_PAIRS)
    } else {
        None
    }
}

impl PartialEq for QueueType {
    fn eq(&self, other: &QueueType) -> (r: bool) {
        match (self, other) {
            (QueueType::UNKNOWN(a), QueueType::UNKNOWN(b)) => str_eq(a.as_str(), b.as_str()),
            (QueueType::RANKED_SOLO_5x5, QueueType::RANKED_SOLO_5x5) => true,
            (QueueType::RANKED_FLEX_SR, QueueType::RANKED_FLEX_SR) => true,
            (QueueType::RANKED_FLEX_TT, QueueType::RANKED_FLEX_TT) => true,
            (QueueType::RANKED_TFT, QueueType::RANKED_TFT) => true,
            (QueueType::RANKED_TFT_TURBO, QueueType::RANKED_TFT_TURBO) => true,
            (QueueType::RANKED_TFT_DOUBLE_UP, QueueType::RANKED_TFT_DOUBLE_UP) => true,
            (QueueType::RANKED_TFT_PAIRS, QueueType::RANKED_TFT_PAIRS) => true,
            _ => false,
        }
    }
}

impl vstd::std_specs::cmp::PartialEqSpecImpl for QueueType {
    open spec fn obeys_eq_spec() -> bool {
        true
    }

    open spec fn eq_spec(&self, other: &QueueType) -> bool {
        match (self, other) {
            (QueueType::UNKNOWN(a), QueueType::UNKNOWN(b)) => a@ == b@,
            (QueueType::RANKED_SOLO_5x5, QueueType::RANKED_SOLO_5x5) => true,
            (QueueType::RANKED_FLEX_SR, QueueType::RANKED_FLEX_SR) => true,
            (QueueType::RANKED_FLEX_TT, QueueType::RANKED_FLEX_TT) => true,
            (QueueType::RANKED_TFT, QueueType::RANKED_TFT) => true,
            (QueueType::RANKED_TFT_TURBO, QueueType::RANKED_TFT_TURBO) => true,
            (QueueType::RANKED_TFT_DOUBLE_UP, QueueType::RANKED_TFT_DOUBLE_UP) => true,
            (QueueType::RANKED_TFT_PAIRS, QueueType::RANKED_TFT_PAIRS) => true,
            _ => false,
        }
    }
}

impl From<&str> for QueueType {
    fn from(s: &str) -> (q: QueueType) {
        QueueType::from_name(s)
    }
}

impl core::str::FromStr for QueueType {
    type Err = crate::VariantNotFound;

    fn from_str(s: &str) -> Result<QueueType, crate::VariantNotFound> {
        Ok(QueueType::from_name(s))
    }
}

impl vstd::std_specs::convert::FromSpecImpl<&str> for QueueType {
    open spec fn obeys_from_spec() -> bool {
        // The unknown-queue variant owns a `String`, which a spec-level
        // conversion cannot build, so `From` carries no contract; callers
        // that need one use `from_name`.
        false
    }

    open spec fn from_spec(s: &str) -> QueueType {
        QueueType::RANKED_SOLO_5x5
    }
}

} // verus!
