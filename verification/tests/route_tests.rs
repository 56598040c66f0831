use riven::route::{PlatformRoute, RegionalRoute, Route, ValPlatformRoute};

#[test]
fn route_test_route_tostring() {
    assert_eq!("AMERICAS", Route::Regional(RegionalRoute::AMERICAS).as_str());
    assert_eq!("KR", Route::Platform(PlatformRoute::KR).as_str());
    assert_eq!("KR", Route::ValPlatform(ValPlatformRoute::KR).as_str());
}

#[test]
fn route_test_route_iter() {
    for (i, route) in Route::iter().into_iter().enumerate() {
        println!("{:>2}   {:<10}  {:>3}", i, route.to_string(), route.to_u8());
    }
}

#[test]
fn route_test_route_tryfrom() {
    for x in u8::MIN..=u8::MAX {
        if let Some(route) = Route::try_from_u8(x) {
            println!("{:>3}   {:<8}", x, route.to_string());
        }
    }
}

#[test]
fn route_test_regional_tostring() {
    assert_eq!("AMERICAS", RegionalRoute::AMERICAS.to_string());
    assert_eq!("SEA", RegionalRoute::SEA.to_string());

    assert_eq!("AMERICAS", RegionalRoute::AMERICAS.as_str());
    assert_eq!("SEA", RegionalRoute::SEA.as_str());
}

#[test]
fn route_test_regional_parse() {
    assert_eq!(Ok(RegionalRoute::AMERICAS), "AMERICAS".parse());
    assert_eq!(Ok(RegionalRoute::SEA), "SEA".parse());
    assert!("NA".parse::<RegionalRoute>().is_err());
}

#[test]
fn route_test_platform_tostring() {
    assert_eq!("BR1", PlatformRoute::BR1.to_string());
    assert_eq!("KR", PlatformRoute::KR.to_string());

    assert_eq!("BR1", PlatformRoute::BR1.as_str());
    assert_eq!("KR", PlatformRoute::KR.as_str());
}

#[test]
fn route_test_platform_parse() {
    assert_eq!(Ok(PlatformRoute::BR1), "BR1".parse());
    assert_eq!(Ok(PlatformRoute::KR), "KR".parse());
    assert_eq!(Ok(PlatformRoute::JP1), "JP1".parse());
    assert_eq!(Ok(PlatformRoute::JP1), "JP".parse());
    assert_eq!(Ok(PlatformRoute::NA1), "NA1".parse());
    assert_eq!(Ok(PlatformRoute::NA1), "NA".parse());
    assert!("LA".parse::<PlatformRoute>().is_err());
}

#[test]
fn route_test_valplatform_tostring() {
    assert_eq!("AP", ValPlatformRoute::AP.to_string());
    assert_eq!("KR", ValPlatformRoute::KR.to_string());
    assert_eq!("ESPORTS", ValPlatformRoute::ESPORTS.to_string());

    assert_eq!("AP", ValPlatformRoute::AP.as_str());
    assert_eq!("KR", ValPlatformRoute::KR.as_str());
    assert_eq!("ESPORTS", ValPlatformRoute::ESPORTS.as_str());
}

#[test]
fn route_test_valplatform_parse() {
    assert_eq!(Ok(ValPlatformRoute::AP), "AP".parse());
    assert_eq!(Ok(ValPlatformRoute::KR), "KR".parse());
    assert_eq!(Ok(ValPlatformRoute::ESPORTS), "ESPORTS".parse());
    assert!("SEA".parse::<ValPlatformRoute>().is_err());
}

#[test]
fn route_ext_test_route_tostring() {
    assert_eq!("AMERICAS", Route::Regional(RegionalRoute::AMERICAS).as_str());
    assert_eq!("KR", Route::Platform(PlatformRoute::KR).as_str());
    assert_eq!("KR", Route::ValPlatform(ValPlatformRoute::KR).as_str());
}

#[test]
fn route_ext_test_route_iter() {
    for (i, route) in Route::iter().into_iter().enumerate() {
        println!("{:>2}   {:<10}  {:>3}", i, route.to_string(), route.to_u8());
    }
}

#[test]
fn route_ext_test_route_tryfrom() {
    for x in u8::MIN..=u8::MAX {
        if let Some(route) = Route::try_from_u8(x) {
            println!("{:>3}   {:<8}", x, route.to_string());
        }
    }
}

#[test]
fn route_ext_test_regional_tostring() {
    assert_eq!("AMERICAS", RegionalRoute::AMERICAS.to_string());
    assert_eq!("SEA", RegionalRoute::SEA.to_string());

    assert_eq!("AMERICAS", RegionalRoute::AMERICAS.as_str());
    assert_eq!("SEA", RegionalRoute::SEA.as_str());
}

#[test]
fn route_ext_test_regional_parse() {
    assert_eq!(Ok(RegionalRoute::AMERICAS), "AMERICAS".parse());
    assert_eq!(Ok(RegionalRoute::SEA), "SEA".parse());
    assert!("NA".parse::<RegionalRoute>().is_err());
}

#[test]
fn route_ext_test_platform_tostring() {
    assert_eq!("BR1", PlatformRoute::BR1.to_string());
    assert_eq!("KR", PlatformRoute::KR.to_string());

    assert_eq!("BR1", PlatformRoute::BR1.as_str());
    assert_eq!("KR", PlatformRoute::KR.as_str());
}

#[test]
fn route_ext_test_platform_parse() {
    assert_eq!(Ok(PlatformRoute::BR1), "BR1".parse());
    assert_eq!(Ok(PlatformRoute::KR), "KR".parse());
    assert_eq!(Ok(PlatformRoute::JP1), "JP1".parse());
    assert_eq!(Ok(PlatformRoute::JP1), "JP".parse());
    assert_eq!(Ok(PlatformRoute::NA1), "NA1".parse());
    assert_eq!(Ok(PlatformRoute::NA1), "NA".parse());
    assert!("LA".parse::<PlatformRoute>().is_err());
}

#[test]
fn route_ext_test_valplatform_tostring() {
    assert_eq!("AP", ValPlatformRoute::AP.to_string());
    assert_eq!("KR", ValPlatformRoute::KR.to_string());
    assert_eq!("ESPORTS", ValPlatformRoute::ESPORTS.to_string());

    assert_eq!("AP", ValPlatformRoute::AP.as_str());
    assert_eq!("KR", ValPlatformRoute::KR.as_str());
    assert_eq!("ESPORTS", ValPlatformRoute::ESPORTS.as_str());
}

#[test]
fn route_ext_test_valplatform_parse() {
    assert_eq!(Ok(ValPlatformRoute::AP), "AP".parse());
    assert_eq!(Ok(ValPlatformRoute::KR), "KR".parse());
    assert_eq!(Ok(ValPlatformRoute::ESPORTS), "ESPORTS".parse());
    assert!("SEA".parse::<ValPlatformRoute>().is_err());
}

#[test]
fn platform_to_regional() {
    assert_eq!(RegionalRoute::AMERICAS, PlatformRoute::NA1.to_regional());
    assert_eq!(RegionalRoute::ASIA, PlatformRoute::KR.to_regional());
    assert_eq!(RegionalRoute::EUROPE, PlatformRoute::EUW1.to_regional());
}

#[test]
fn platform_as_region_str() {
    assert_eq!("NA", PlatformRoute::NA1.as_region_str());
    assert_eq!("EUNE", PlatformRoute::EUN1.as_region_str());
    assert_eq!("KR", PlatformRoute::KR.as_region_str());
}
