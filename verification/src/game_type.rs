//! The type of a game: custom, matched, or tutorial.

use vstd::prelude::*;

use crate::text::str_eq;
use crate::VariantNotFound;

verus! {

/// A game type.
#[derive(Debug, Copy, Clone, Eq, PartialEq, Hash, Structural)]
#[allow(non_camel_case_types)]
pub enum GameType {
    /// Custom games.
    CUSTOM_GAME,
    /// All other games.
    MATCHED_GAME,
    /// Tutorial games.
    TUTORIAL_GAME,
}

/// The name of each game type.
pub open spec fn spec_game_type_str(g: GameType) -> Seq<char> {
    match g {
        GameType::CUSTOM_GAME => "CUSTOM_GAME"@,
        GameType::MATCHED_GAME => "MATCHED_GAME"@,
        GameType::TUTORIAL_GAME => "TUTORIAL_GAME"@,
    }
}

/// The game type a name denotes, if any; each accepts the stem without the
/// `_GAME` suffix as well.
pub open spec fn spec_game_type_from_name(s: Seq<char>) -> Option<GameType> {
    if s == "CUSTOM_GAME"@ || s == "CUSTOM"@ {
        Some(GameType::CUSTOM_GAME)
    } else if s == "MATCHED_GAME"@ || s == "MATCHED"@ {
        Some(GameType::MATCHED_GAME)
    } else if s == "TUTORIAL_GAME"@ || s == "TUTORIAL"@ {
        Some(GameType::TUTORIAL_GAME)
    } else {
        None
    }
}

impl GameType {
    /// The game type's name.
    pub fn as_ref(&self) -> (r: &'static str)
        ensures
            r@ == spec_game_type_str(*self),
    {
        match self {
            GameType::CUSTOM_GAME => "CUSTOM_GAME",
            GameType::MATCHED_GAME => "MATCHED_GAME",
            GameType::TUTORIAL_GAME => "TUTORIAL_GAME",
        }
    }

    /// The game type's name, owned.
    pub fn to_string(&self) -> (r: String)
        ensures
            r@ == spec_game_type_str(*self),
    {
        self.as_ref().to_owned()
    }

    /// The game type a name denotes, if any.
    pub fn from_name(s: &str) -> (r: Option<GameType>)
        ensures
            r == spec_game_type_from_name(s@),
    {
        if str_eq(s, "CUSTOM_GAME") || str_eq(s, "CUSTOM") {
            Some(GameType::CUSTOM_GAME)
        } else if str_eq(s, "MATCHED_GAME") || str_eq(s, "MATCHED") {
            Some(GameType::MATCHED_GAME)
        } else if str_eq(s, "TUTORIAL_GAME") || str_eq(s, "TUTORIAL") {
            Some(GameType::TUTORIAL_GAME)
        } else {
            None
        }
    }
}

impl core::str::FromStr for GameType {
    type Err = VariantNotFound;

    fn from_str(s: &str) -> Result<GameType, VariantNotFound> {
        match GameType::from_name(s) {
            Some(g) => Ok(g),
            None => Err(VariantNotFound),
        }
    }
}

} // verus!
