//! The two teams of a match, plus the pseudo-team used for neutral kills.

use vstd::prelude::*;

verus! {

/// A team, represented on the wire as its numeric id.
#[derive(Debug, Copy, Clone, Eq, PartialEq, Hash, PartialOrd, Ord, Structural)]
pub enum Team {
    /// Blue team (bottom left on the map). Id 100.
    BLUE,
    /// Red team (top right on the map). Id 200.
    RED,
    /// The "killer team" id reported when a neutral monster gets the kill.
    /// Id 300.
    OTHER,
}

/// The numeric id of each team.
pub open spec fn spec_team_u16(t: Team) -> u16 {
    match t {
        Team::BLUE => 100,
        Team::RED => 200,
        Team::OTHER => 300,
    }
}

impl Team {
    /// The team's numeric id.
    pub fn to_u16(self) -> (v: u16)
        ensures
            v == spec_team_u16(self),
    {
        match self {
            Team::BLUE => 100,
            Team::RED => 200,
            Team::OTHER => 300,
        }
    }

    /// The team with this numeric id, if any.
    pub fn try_from_u16(v: u16) -> (r: Option<Team>)
        ensures
            r == match v {
                100u16 => Some(Team::BLUE),
                200u16 => Some(Team::RED),
                300u16 => Some(Team::OTHER),
                _ => None::<Team>,
            },
    {
        match v {
            100 => Some(Team::BLUE),
            200 => Some(Team::RED),
            300 => Some(Team::OTHER),
            _ => None,
        }
    }
}

} // verus!
