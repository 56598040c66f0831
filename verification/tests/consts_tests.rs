use riven::division::Division;
use riven::game_type::GameType;
use riven::queue_type::QueueType;
use riven::region::Region;
use riven::team::Team;
use riven::tier::Tier;

#[test]
fn division_sort() {
    assert!(Division::IV < Division::I);
}

#[test]
fn check_as_ref() {
    assert_eq!("MATCHED_GAME", GameType::MATCHED_GAME.as_ref());
}

#[test]
fn check_to_string() {
    assert_eq!("MATCHED_GAME", GameType::MATCHED_GAME.to_string());
}

#[test]
fn check_from_string() {
    assert_eq!(Ok(GameType::MATCHED_GAME), "MATCHED_GAME".parse());
    assert_eq!(Ok(GameType::MATCHED_GAME), "MATCHED".parse());
}

#[test]
fn queue_type_check_as_ref() {
    assert_eq!("RANKED_SOLO_5x5", QueueType::RANKED_SOLO_5x5.as_ref());
}

#[test]
fn queue_type_check_to_string() {
    assert_eq!("RANKED_SOLO_5x5", QueueType::RANKED_SOLO_5x5.to_string());
}

#[test]
fn queue_type_check_from_string() {
    assert_eq!(QueueType::RANKED_SOLO_5x5, "RANKED_SOLO_5x5".into());
    assert_eq!(
        QueueType::UNKNOWN("RANKED_MYSTERY_UNKNOWN".to_owned()),
        "RANKED_MYSTERY_UNKNOWN".into()
    );
    assert_eq!(
        "RANKED_MYSTERY_UNKNOWN",
        QueueType::UNKNOWN("RANKED_MYSTERY_UNKNOWN".to_owned()).as_ref()
    );
    assert_eq!(Some(QueueType::RANKED_SOLO_5x5), "RANKED_SOLO_5x5".parse().ok());
}

#[test]
fn test_check_as_ref() {
    assert_eq!("RANKED_SOLO_5x5", QueueType::RANKED_SOLO_5x5.as_ref());
}

#[test]
fn test_check_to_string() {
    assert_eq!("RANKED_SOLO_5x5", QueueType::RANKED_SOLO_5x5.to_string());
}

#[test]
fn test_check_from_string() {
    assert_eq!(QueueType::RANKED_SOLO_5x5, "RANKED_SOLO_5x5".into());
    assert_eq!(
        QueueType::UNKNOWN("RANKED_MYSTERY_UNKNOWN".to_owned()),
        "RANKED_MYSTERY_UNKNOWN".into()
    );
    assert_eq!(
        "RANKED_MYSTERY_UNKNOWN",
        QueueType::UNKNOWN("RANKED_MYSTERY_UNKNOWN".to_owned()).as_ref()
    );
}

#[test]
fn ord() {
    assert!(Tier::GOLD < Tier::DIAMOND);
    assert!(Tier::UNRANKED < Tier::IRON);
}

#[test]
fn is_apex() {
    assert!(Tier::GRANDMASTER.is_apex());
    assert!(!Tier::DIAMOND.is_apex());
    assert!(!Tier::UNRANKED.is_apex());
}

#[test]
fn is_ranked() {
    assert!(Tier::GRANDMASTER.is_ranked());
    assert!(Tier::DIAMOND.is_ranked());
    assert!(!Tier::UNRANKED.is_ranked());
}

#[test]
fn is_unranked() {
    assert!(!Tier::GRANDMASTER.is_unranked());
    assert!(!Tier::DIAMOND.is_unranked());
    assert!(Tier::UNRANKED.is_unranked());
}

#[test]
fn to_ranked() {
    assert_eq!(Some(Tier::GRANDMASTER), Tier::GRANDMASTER.to_ranked());
    assert_eq!(Some(Tier::DIAMOND), Tier::DIAMOND.to_ranked());
    assert_eq!(None, Tier::UNRANKED.to_ranked());
}

#[test]
fn is_standard() {
    assert!(!Tier::GRANDMASTER.is_standard());
    assert!(Tier::DIAMOND.is_standard());
    assert!(!Tier::UNRANKED.is_standard());
}

#[test]
fn tier_to_string() {
    assert_eq!("GRANDMASTER", Tier::GRANDMASTER.as_ref());
    assert_eq!("GRANDMASTER", Tier::GRANDMASTER.to_string());
    assert_eq!("UNRANKED", Tier::UNRANKED.as_ref());
    assert_eq!("UNRANKED", Tier::UNRANKED.to_string());
}

#[test]
fn tier_from_string() {
    assert_eq!(Ok(Tier::GRANDMASTER), "GRANDMASTER".parse());
    assert_eq!(Ok(Tier::UNRANKED), "UNRANKED".parse());
}

#[test]
fn tier_sort() {
    assert!(Tier::GOLD < Tier::DIAMOND);
}

#[test]
fn apex_check() {
    assert!(Tier::GRANDMASTER.is_apex());
    assert!(!Tier::DIAMOND.is_apex());
}

#[test]
fn region_test_basic() {
    assert_eq!("BR1", Region::BR.to_string());
}

#[test]
fn test_get() {
    assert_eq!(Ok(Region::JP), "JP".parse());
    assert_eq!(Ok(Region::NA), "NA1".parse());
    assert!("LA".parse::<Region>().is_err());
}

#[test]
fn team_ids() {
    assert_eq!(100, Team::BLUE.to_u16());
    assert_eq!(200, Team::RED.to_u16());
    assert_eq!(300, Team::OTHER.to_u16());
    assert_eq!(Some(Team::BLUE), Team::try_from_u16(100));
    assert_eq!(None, Team::try_from_u16(150));
}

#[test]
fn division_values() {
    assert_eq!(1, Division::I.to_u8());
    assert_eq!(5, Division::V.to_u8());
    assert_eq!(Some(Division::IV), Division::try_from_u8(4));
    assert_eq!(None, Division::try_from_u8(0));
    assert_eq!(None, Division::try_from_u8(6));
    assert_eq!("IV", Division::IV.as_ref());
    assert_eq!(Ok(Division::III), "III".parse());
}
