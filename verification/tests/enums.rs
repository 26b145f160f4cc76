use betfair_data::enums::{MarketBettingType, MarketStatus, PriceLadderDefinition, SelectionStatus};

#[test]
fn test_strum_static_str() {
    let s1: &'static str = "SUSPENDED";
    let s2: &'static str = MarketStatus::Suspended.as_ref();
    let s3: &'static str = MarketStatus::Suspended.into();

    assert_eq!(s1, s2);
    assert_eq!(s2, s3);
    assert_eq!(s1, s3);
}

#[test]
fn enum_names_as_the_stream_gives_them() {
    assert_eq!(MarketStatus::InActive.as_ref(), "INACTIVE");
    assert_eq!(MarketStatus::Open.as_ref(), "OPEN");
    assert_eq!(MarketStatus::Closed.as_ref(), "CLOSED");
    assert_eq!(SelectionStatus::RemovedVacant.as_ref(), "REMOVED_VACANT");
    assert_eq!(SelectionStatus::Hidden.as_ref(), "HIDDEN");
    let s: &'static str = SelectionStatus::Winner.into();
    assert_eq!(s, "WINNER");
    assert_eq!(MarketBettingType::AsianHandicapDoubleLine.as_ref(), "ASIAN_HANDICAP_DOUBLE_LINE");
    let b: &'static str = MarketBettingType::FixedOdds.into();
    assert_eq!(b, "FIXED_ODDS");
    let p: &'static str = PriceLadderDefinition::Classic.into();
    assert_eq!(p, "CLASSIC");
}

#[test]
fn enum_defaults() {
    assert_eq!(MarketStatus::default(), MarketStatus::InActive);
    assert_eq!(SelectionStatus::default(), SelectionStatus::Hidden);
    assert_eq!(MarketBettingType::default(), MarketBettingType::Odds);
    assert_eq!(PriceLadderDefinition::default(), PriceLadderDefinition::Classic);
}
