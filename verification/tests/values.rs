use betfair_data::bflw::config::ConfigBuilder;
use betfair_data::config::Config;
use betfair_data::datetime::{DateTime, DateTimeString};
use betfair_data::deser::DeserializerWithData;
use betfair_data::ids::SelectionID;
use betfair_data::market_source::ConfigProducer;
use betfair_data::price_size::{ImmutablePriceSizeBackLadder, PriceSize, PriceSizeBackLadder};
use betfair_data::strings::{FixedSizeString, StringSetExtNeq, str_eq};

#[test]
fn fixed_size_string_takes_exact_length() {
    let s = FixedSizeString::<2>::new("AU").unwrap();
    assert_eq!(s.as_str(), "AU");
    assert!(FixedSizeString::<2>::new("AUS").is_err());
    assert!(FixedSizeString::<2>::new("A").is_err());
    assert_eq!(FixedSizeString::<3>::default().as_str(), "\0\0\0");
}

#[test]
fn date_time_string_reads_the_instant() {
    let d = DateTimeString::new("2021-10-04T03:00:00.000Z").unwrap();
    assert_eq!(d.as_str(), "2021-10-04T03:00:00.000Z");
    assert_eq!(d.timestamp_millis(), 1633316400000);
    assert_eq!(d.as_fs_str().as_str(), "2021-10-04T03:00:00.000Z");
    assert!(DateTimeString::new("not a date").is_err());
    // an accepted text that is not 24 bytes is not taken
    assert!(DateTimeString::parse("2021-10-04T03:00:00Z").is_none());
    assert!(matches!(DateTimeString::parse("2021-10-04T03:00:00.000Z"), Some(Ok(_))));
    let f = FixedSizeString::<24>::new("2021-10-04T03:00:01.500Z").unwrap();
    assert_eq!(DateTimeString::try_from(f).unwrap().timestamp_millis(), 1633316401500);
    assert_eq!(DateTime::new(12).0, 12);
    assert_eq!(DateTimeString::default().timestamp_millis(), 0);
}

#[test]
fn deserializer_with_data_checks_utf8() {
    let d = DeserializerWithData::build(b"{\"op\":\"mcm\"}".to_vec()).unwrap();
    assert_eq!(d.as_str(), "{\"op\":\"mcm\"}");
    let e = DeserializerWithData::build(vec![0xff, 0xfe]);
    assert_eq!(e.err().map(|e| e.kind()), Some(std::io::ErrorKind::InvalidData));
}

#[test]
fn set_if_ne_reports_change() {
    let mut s = "abc".to_owned();
    assert!(!s.set_if_ne("abc"));
    assert!(s.set_if_ne("abd"));
    assert_eq!(s, "abd");
    let mut o: Option<String> = None;
    assert!(o.set_if_ne("x"));
    assert!(!o.set_if_ne("x"));
    assert_eq!(o.as_deref(), Some("x"));
    assert!(str_eq("é", "é"));
    assert!(!str_eq("é", "e"));
}

#[test]
fn config_builder_counts_stream_ids() {
    let mut b = ConfigBuilder { cumulative_runner_tv: true, streaming_unique_id: Some(u32::MAX - 1) };
    assert_eq!(b.get().streaming_unique_id, Some(u32::MAX - 1));
    assert_eq!(b.get().streaming_unique_id, Some(u32::MAX));
    let c = b.get();
    assert_eq!(c.streaming_unique_id, Some(0));
    assert!(c.cumulative_runner_tv);
    let mut n = ConfigBuilder { cumulative_runner_tv: false, streaming_unique_id: None };
    assert_eq!(n.get().streaming_unique_id, None);
    let mut plain = Config { cumulative_runner_tv: true };
    assert_eq!(plain.get(), Config { cumulative_runner_tv: true });
}

#[test]
fn selection_id_parts() {
    let s = SelectionID::from((7, Some(3)));
    assert_eq!(s.id(), 7);
    assert_eq!(s.handicap(), Some(3));
    assert!(s.same(&SelectionID(7, Some(3))));
    assert!(!s.same(&SelectionID(7, None)));
    assert_eq!(SelectionID::default(), SelectionID(0, None));
}

#[test]
fn ladder_updates_compose() {
    // two batches give what the two applied as one give
    let a = vec![PriceSize::new(200, 5), PriceSize::new(300, 7)];
    let b = vec![PriceSize::new(300, 0), PriceSize::new(250, 2)];
    let mut one: Vec<PriceSize> = Vec::new();
    PriceSizeBackLadder(&a).deserialize(&mut one);
    PriceSizeBackLadder(&b).deserialize(&mut one);
    let mut ab = a.clone();
    ab.extend(b.iter().copied());
    let mut two: Vec<PriceSize> = Vec::new();
    PriceSizeBackLadder(&ab).deserialize(&mut two);
    assert_eq!(one, two);
    assert_eq!(one, vec![PriceSize::new(200, 5), PriceSize::new(250, 2)]);
}

#[test]
fn ladder_later_update_wins_and_no_zero_sizes() {
    let us = vec![PriceSize::new(200, 5), PriceSize::new(200, 9), PriceSize::new(300, 0), PriceSize::new(400, 1), PriceSize::new(400, 0)];
    let r = ImmutablePriceSizeBackLadder(None).deserialize(&us);
    assert_eq!(r, vec![PriceSize::new(200, 9)]);
    assert!(r.iter().all(|l| l.size != 0));
    // the in-place and the copying ladders agree
    let mut m: Vec<PriceSize> = Vec::new();
    PriceSizeBackLadder(&us).deserialize(&mut m);
    assert_eq!(m, r);
}
