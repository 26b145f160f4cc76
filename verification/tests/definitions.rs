use betfair_data::datetime::DateTimeString;
use betfair_data::enums::{MarketBettingType, MarketStatus};
use betfair_data::market_definition::{MarketDefinition, MarketDefinitionUpdate};

fn dt(s: &str) -> DateTimeString {
    DateTimeString::new(s).unwrap()
}

fn full_update() -> MarketDefinitionUpdate {
    MarketDefinitionUpdate {
        bet_delay: Some(5),
        betting_type: Some(MarketBettingType::Odds),
        bsp_market: Some(true),
        bsp_reconciled: Some(false),
        complete: Some(true),
        cross_matching: Some(false),
        discount_allowed: Some(true),
        event_id: Some(30981234),
        event_type_id: Some(7),
        in_play: Some(false),
        market_base_rate: Some(8),
        number_of_winners: Some(1),
        persistence_enabled: Some(true),
        runners_voidable: Some(false),
        version: Some(4123456789),
        status: Some(MarketStatus::Open),
        turn_in_play_enabled: Some(true),
        number_of_active_runners: Some(9),
        timezone: Some("Australia/Sydney".to_owned()),
        market_type: Some("WIN".to_owned()),
        market_time: Some(dt("2021-10-04T03:00:00.000Z")),
        open_date: Some(dt("2021-10-04T01:00:00.000Z")),
        regulators: Some(vec!["MR_INT".to_owned()]),
        venue: Some("Randwick".to_owned()),
        market_name: Some("R1 1200m Mdn".to_owned()),
        event_name: Some("Rand 4th Oct".to_owned()),
        race_type: Some("Flat".to_owned()),
        country_code: Some("AU".to_owned()),
        suspend_time: None,
        settled_time: None,
        each_way_divisor: None,
    }
}

#[test]
fn definition_create_takes_every_field() {
    let d = full_update().create().expect("all required fields");
    assert_eq!(d.bet_delay, 5);
    assert_eq!(d.status, MarketStatus::Open);
    assert_eq!(d.version, 4123456789);
    assert_eq!(d.timezone, "Australia/Sydney");
    assert_eq!(d.market_type, "WIN");
    assert_eq!(d.regulators, vec!["MR_INT".to_owned()]);
    assert_eq!(d.venue.as_deref(), Some("Randwick"));
    assert_eq!(d.race_type.as_deref(), Some("Flat"));
    assert_eq!(d.country_code.as_ref().map(|c| c.as_str()), Some("AU"));
    assert_eq!(d.market_time.as_str(), "2021-10-04T03:00:00.000Z");
    assert_eq!(d.market_time.timestamp_millis(), 1633316400000);
}

#[test]
fn definition_create_names_the_first_missing_field() {
    let mut u = full_update();
    u.bet_delay = None;
    u.open_date = None;
    assert_eq!(u.create().err().map(|e| e.missing_field), Some("betDelay"));

    // a new definition checks the regulators third
    let mut u = full_update();
    u.regulators = None;
    u.bsp_market = None;
    assert_eq!(u.create().err().map(|e| e.missing_field), Some("regulators"));

    let mut u = full_update();
    u.open_date = None;
    assert_eq!(u.create().err().map(|e| e.missing_field), Some("openDate"));
}

#[test]
fn definition_updated_checks_in_its_own_order() {
    let base = full_update().create().unwrap();
    // into a new definition, the regulators come before the timezone
    let mut u = full_update();
    u.regulators = None;
    u.timezone = None;
    assert_eq!(u.updated(&base).err().map(|e| e.missing_field), Some("regulators"));

    let mut u = full_update();
    u.bsp_market = None;
    u.bsp_reconciled = None;
    assert_eq!(u.updated(&base).err().map(|e| e.missing_field), Some("bspMarket"));
}

#[test]
fn definition_updated_replaces_every_field() {
    let base = full_update().create().unwrap();
    let mut u = full_update();
    u.bet_delay = Some(0);
    u.status = Some(MarketStatus::Suspended);
    u.venue = None;
    u.suspend_time = Some(dt("2021-10-04T03:01:00.000Z"));
    let d = u.updated(&base).unwrap();
    assert_eq!(d.bet_delay, 0);
    assert_eq!(d.status, MarketStatus::Suspended);
    assert_eq!(d.venue, None);
    assert_eq!(d.suspend_time.map(|t| t.timestamp_millis()), Some(1633316460000));
    // the earlier definition is left as it was
    assert_eq!(base.bet_delay, 5);
    assert_eq!(base.venue.as_deref(), Some("Randwick"));
}

#[test]
fn definition_update_in_place_sets_fields_up_to_the_missing_one() {
    let mut d = full_update().create().unwrap();
    let mut u = full_update();
    u.bet_delay = Some(1);
    u.complete = Some(false);
    u.regulators = None;
    u.timezone = None;
    u.version = Some(99);
    // in place, the timezone is checked before the regulators
    let e = u.update(&mut d).err().unwrap();
    assert_eq!(e.missing_field, "timezone");
    // the fields before it were set all the same
    assert_eq!(d.bet_delay, 1);
    assert_eq!(d.complete, false);
    assert_eq!(d.version, 99);
    assert_eq!(d.timezone, "Australia/Sydney");
}

#[test]
fn definition_update_in_place_missing_venue_clears_race_type() {
    let mut d = full_update().create().unwrap();
    let mut u = full_update();
    u.venue = None;
    u.race_type = Some("Harness".to_owned());
    assert!(u.update(&mut d).is_ok());
    // the venue stays, but the race type is cleared
    assert_eq!(d.venue.as_deref(), Some("Randwick"));
    assert_eq!(d.race_type, None);

    let mut u = full_update();
    u.race_type = Some("Harness".to_owned());
    assert!(u.update(&mut d).is_ok());
    assert_eq!(d.race_type.as_deref(), Some("Harness"));
}

#[test]
fn definition_same_message_twice_is_stable() {
    let u = full_update();
    let d = u.create().unwrap();
    let mut d2 = d.clone();
    assert!(full_update().update(&mut d2).is_ok());
    assert_eq!(d2.market_name, d.market_name);
    assert_eq!(d2.race_type, d.race_type);
    assert_eq!(d2.market_time.as_str(), d.market_time.as_str());
    let d3 = full_update().updated(&d).unwrap();
    assert_eq!(d3.regulators, d.regulators);
    assert_eq!(d3.event_name, d.event_name);
}

#[test]
fn definition_default_is_empty() {
    let d = MarketDefinition::default();
    assert_eq!(d.status, MarketStatus::InActive);
    assert_eq!(d.betting_type, MarketBettingType::Odds);
    assert!(d.regulators.is_empty());
    assert_eq!(d.market_time.timestamp_millis(), 0);
}
