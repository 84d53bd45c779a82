use entsoe::BiddingZone;

#[test]
fn test_eic_codes() {
    assert_eq!(BiddingZone::FI.eic_code(), "10YFI-1--------U");
    assert_eq!(BiddingZone::NO2.eic_code(), "10YNO-2--------T");
    assert_eq!(BiddingZone::DE.eic_code(), "10Y1001A1001A82H");
}

#[test]
fn test_from_code() {
    assert_eq!(BiddingZone::from_code("FI"), Some(BiddingZone::FI));
    assert_eq!(BiddingZone::from_code("fi"), Some(BiddingZone::FI));
    assert_eq!(BiddingZone::from_code("NO2"), Some(BiddingZone::NO2));
    assert_eq!(BiddingZone::from_code("no2"), Some(BiddingZone::NO2));
    assert_eq!(BiddingZone::from_code("SE3"), Some(BiddingZone::SE3));
    assert_eq!(BiddingZone::from_code("INVALID"), None);
}

#[test]
fn test_code() {
    assert_eq!(BiddingZone::FI.code(), "FI");
    assert_eq!(BiddingZone::NO2.code(), "NO2");
    assert_eq!(BiddingZone::SE3.code(), "SE3");
}

#[test]
fn test_display() {
    assert_eq!(BiddingZone::FI.to_string(), "FI");
    assert_eq!(BiddingZone::NO2.to_string(), "NO2");
}

#[test]
fn from_code_reads_northern_italy_both_ways() {
    assert_eq!(BiddingZone::from_code("it-north"), Some(BiddingZone::ITNorth));
    assert_eq!(BiddingZone::from_code("ITNorth"), Some(BiddingZone::ITNorth));
    assert_eq!(BiddingZone::ITNorth.code(), "IT-North");
}

#[test]
fn from_upper_code_does_not_fold_case() {
    assert_eq!(BiddingZone::from_upper_code("SE3"), Some(BiddingZone::SE3));
    assert_eq!(BiddingZone::from_upper_code("se3"), None);
    assert_eq!(BiddingZone::from_upper_code(""), None);
}

#[test]
fn every_zone_round_trips_through_its_code() {
    let zones = BiddingZone::all_zones();
    assert_eq!(zones.len(), 22);
    for z in zones {
        assert_eq!(BiddingZone::from_code(z.code()), Some(z));
        assert_eq!(z.eic_code().len(), 16);
    }
}
