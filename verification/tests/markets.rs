use betfair_data::bflw::market_book::{book_changes_are_well_formed, books_distinct};
use betfair_data::immutable::definition::defs_distinct as imm_defs_distinct;
use betfair_data::immutable::market::changes_are_well_formed;
use betfair_data::market::mut_changes_are_well_formed;
use betfair_data::market_definition::code_ok;
use betfair_data::runner::defs_distinct;
use betfair_data::bflw::market_book::{MarketBook, MarketBooksDeser};
use betfair_data::bflw::market_definition_runner::{
    HANDICAP_ZERO, MarketDefRunnerUpdate, MarketDefinitionRunner, RunnerDefSeq as BflwRunnerDefSeq,
};
use betfair_data::config::Config;
use betfair_data::datetime::DateTimeString;
use betfair_data::enums::{MarketBettingType, MarketStatus, SelectionStatus};
use betfair_data::file_iter::{FileIter, FileStep, MutFileIter};
use betfair_data::ids::SelectionID;
use betfair_data::immutable::definition::RunnerDefUpdate as ImmRunnerDefUpdate;
use betfair_data::immutable::market::{Market, MarketMc, MarketsDeser};
use betfair_data::market::{MarketMut, MarketMutDeser, MutBook};
use betfair_data::market_change::{MarketChange, MarketChangeError, MarketChangeField};
use betfair_data::market_definition::MarketDefinitionUpdate;
use betfair_data::price_size::PriceSize;
use betfair_data::runner::{RunnerChange, RunnerDefUpdate};

const HIST: Config = Config { cumulative_runner_tv: true };
const STREAM: Config = Config { cumulative_runner_tv: false };

fn market<M>(s: FileStep<M>) -> M {
    match s {
        FileStep::Market(m) => m,
        FileStep::ReadMore => panic!("asked for another message"),
        FileStep::End => panic!("ended"),
    }
}

fn dt(s: &str) -> DateTimeString {
    DateTimeString::new(s).unwrap()
}

fn full_update() -> MarketDefinitionUpdate {
    MarketDefinitionUpdate {
        bet_delay: Some(0),
        betting_type: Some(MarketBettingType::Odds),
        bsp_market: Some(true),
        bsp_reconciled: Some(false),
        complete: Some(true),
        cross_matching: Some(false),
        discount_allowed: Some(true),
        event_id: Some(30981234),
        event_type_id: Some(7),
        in_play: Some(false),
        market_base_rate: Some(8),
        number_of_winners: Some(1),
        persistence_enabled: Some(true),
        runners_voidable: Some(false),
        version: Some(1),
        status: Some(MarketStatus::Open),
        turn_in_play_enabled: Some(true),
        number_of_active_runners: Some(2),
        timezone: Some("Australia/Sydney".to_owned()),
        market_type: Some("WIN".to_owned()),
        market_time: Some(dt("2021-10-04T03:00:00.000Z")),
        open_date: Some(dt("2021-10-04T01:00:00.000Z")),
        regulators: Some(vec!["MR_INT".to_owned()]),
        venue: Some("Randwick".to_owned()),
        market_name: Some("R1".to_owned()),
        event_name: Some("Rand".to_owned()),
        race_type: None,
        country_code: Some("AU".to_owned()),
        suspend_time: None,
        settled_time: None,
        each_way_divisor: None,
    }
}

fn change(id: u32, ltp: u64, trd: Vec<PriceSize>) -> RunnerChange {
    RunnerChange {
        id,
        hc: None,
        atb: None,
        atl: None,
        trd: Some(trd),
        spb: None,
        spl: None,
        spn: None,
        spf: None,
        ltp: Some(ltp),
        tv: None,
    }
}

fn imm_defs() -> Vec<ImmRunnerDefUpdate> {
    (1..=2)
        .map(|id| ImmRunnerDefUpdate {
            id,
            adjustment_factor: None,
            status: SelectionStatus::Active,
            sort_priority: id as u16,
            name: None,
            bsp: None,
            removal_date: None,
            hc: None,
        })
        .collect()
}

fn mut_defs() -> Vec<RunnerDefUpdate> {
    (1..=2)
        .map(|id| RunnerDefUpdate {
            id,
            adjustment_factor: None,
            status: SelectionStatus::Active,
            sort_priority: id as u16,
            name: None,
            bsp: None,
            removal_date: None,
            hc: None,
        })
        .collect()
}

fn bflw_defs() -> Vec<MarketDefRunnerUpdate> {
    (1..=2)
        .map(|id| MarketDefRunnerUpdate {
            id: SelectionID::from((id, None)),
            adjustment_factor: None,
            status: SelectionStatus::Active,
            sort_priority: id as u16,
            name: None,
            bsp: None,
            removal_date: None,
            hc: Some(HANDICAP_ZERO),
        })
        .collect()
}

#[test]
fn immutable_new_market_needs_runners_and_definition() {
    let r = MarketMc { id: "1.123456789".to_owned(), market: None, config: HIST }.deserialize(vec![MarketChangeField::TradedVolume(5)]);
    assert!(matches!(r, Err(MarketChangeError::NoSelections)));
    let r = MarketMc { id: "1.123456789".to_owned(), market: None, config: HIST }
        .deserialize(vec![MarketChangeField::RunnerChanges(vec![change(1, 200, vec![])])]);
    assert!(matches!(r, Err(MarketChangeError::NoDefinition)));
    let mut u = full_update();
    u.bet_delay = None;
    let r = MarketMc { id: "1.123456789".to_owned(), market: None, config: HIST }
        .deserialize(vec![MarketChangeField::Definition(u, Some(imm_defs()))]);
    assert!(matches!(r, Err(MarketChangeError::MissingField("betDelay"))));
}

#[test]
fn immutable_message_makes_new_markets() {
    let msg1 = vec![MarketChange {
        id: "1.123456789".to_owned(),
        img: false,
        fields: vec![
            MarketChangeField::Definition(full_update(), Some(imm_defs())),
            MarketChangeField::RunnerChanges(vec![change(1, 250, vec![PriceSize::new(250, 1000)])]),
        ],
    }];
    let books = MarketsDeser { markets: &[], config: HIST }
        .deserialize(Some(1633316400000), Some("123".to_owned()), Some(msg1))
        .unwrap();
    assert_eq!(books.len(), 1);
    let m: &Market = &books[0];
    assert_eq!(m.market_id, "1.123456789");
    assert_eq!(m.publish_time.0, 1633316400000);
    assert_eq!(m.clk, "123");
    assert_eq!(m.runners.len(), 2);
    assert_eq!(m.runners[0].last_price_traded, Some(250));
    // with cumulative volumes the market total is the runners' total
    assert_eq!(m.total_matched, 1000);
    assert_eq!(m.def.status, MarketStatus::Open);

    // a later message changes a copy; the earlier market stays
    let msg2 = vec![MarketChange {
        id: "1.123456789".to_owned(),
        img: false,
        fields: vec![MarketChangeField::RunnerChanges(vec![change(2, 300, vec![PriceSize::new(300, 500)])])],
    }];
    let books2 = MarketsDeser { markets: books.as_slice(), config: HIST }.deserialize(Some(1633316401000), None, Some(msg2)).unwrap();
    assert_eq!(books2[0].total_matched, 1500);
    assert_eq!(books2[0].runners[1].last_price_traded, Some(300));
    // without a clock the message does not stamp its time
    assert_eq!(books2[0].publish_time.0, 1633316400000);
    assert_eq!(books[0].total_matched, 1000);
}

#[test]
fn immutable_stream_traded_volume_is_taken_as_given() {
    let msg = vec![MarketChange {
        id: "1.1".to_owned(),
        img: false,
        fields: vec![
            MarketChangeField::Definition(full_update(), Some(imm_defs())),
            MarketChangeField::TradedVolume(777),
        ],
    }];
    let books = MarketsDeser { markets: &[], config: STREAM }.deserialize(None, None, Some(msg)).unwrap();
    assert_eq!(books[0].total_matched, 777);
}

#[test]
fn historic_files_ignore_the_market_traded_volume() {
    let msg = vec![MarketChange {
        id: "1.1".to_owned(),
        img: false,
        fields: vec![
            MarketChangeField::Definition(full_update(), Some(imm_defs())),
            MarketChangeField::TradedVolume(777),
        ],
    }];
    let books = MarketsDeser { markets: &[], config: HIST }.deserialize(None, None, Some(msg)).unwrap();
    assert_eq!(books[0].total_matched, 0);

    let mut markets: Vec<MarketMut> = Vec::new();
    let msg = vec![MarketChange {
        id: "1.2".to_owned(),
        img: false,
        fields: vec![
            MarketChangeField::Definition(full_update(), Some(mut_defs())),
            MarketChangeField::RunnerChanges(vec![change(1, 250, vec![PriceSize::new(250, 1000), PriceSize::new(260, 234)])]),
            MarketChangeField::TradedVolume(99),
        ],
    }];
    let books = MarketMutDeser { config: HIST }.deserialize(&mut markets, None, None, Some(msg)).unwrap();
    match &books[0] {
        MutBook::Created(m) => assert_eq!(m.total_matched, 1234),
        MutBook::Existing(_) => panic!("a new market"),
    }
}

#[test]
fn mutable_messages_change_markets_in_place() {
    let mut markets: Vec<MarketMut> = Vec::new();
    let msg1 = vec![MarketChange {
        id: "1.222".to_owned(),
        img: false,
        fields: vec![MarketChangeField::Definition(full_update(), Some(mut_defs())), MarketChangeField::TradedVolume(100)],
    }];
    let books = MarketMutDeser { config: STREAM }
        .deserialize(&mut markets, Some(5), Some("c1".to_owned()), Some(msg1))
        .unwrap();
    assert_eq!(books.len(), 1);
    let created = match &books[0] {
        MutBook::Created(m) => m,
        MutBook::Existing(_) => panic!("a new market"),
    };
    assert_eq!(created.total_matched, 100);
    assert_eq!(created.publish_time.0, 5);
    assert_eq!(created.clk, "c1");
    assert_eq!(created.runners.len(), 2);

    // the file's market is changed in place; the stream sends the total itself
    markets.push(created.clone());
    let msg2 = vec![MarketChange { id: "1.222".to_owned(), img: false, fields: vec![MarketChangeField::TradedVolume(15000)] }];
    let books2 = MarketMutDeser { config: STREAM }.deserialize(&mut markets, Some(6), Some("c2".to_owned()), Some(msg2)).unwrap();
    assert!(matches!(books2[0], MutBook::Existing(0)));
    assert_eq!(markets[0].total_matched, 15000);
    assert_eq!(markets[0].publish_time.0, 6);
}

#[test]
fn mutable_missing_field_stops_the_message() {
    let mut markets: Vec<MarketMut> = vec![MarketMut::new("1.333".to_owned())];
    let mut u = full_update();
    u.regulators = None;
    let msg = vec![MarketChange { id: "1.333".to_owned(), img: false, fields: vec![MarketChangeField::Definition(u, None)] }];
    let r = MarketMutDeser { config: STREAM }.deserialize(&mut markets, None, None, Some(msg));
    assert!(matches!(r, Err(MarketChangeError::MissingField("regulators"))));
    // the fields before it were set in place
    assert_eq!(markets[0].def.status, MarketStatus::Open);
}

#[test]
fn file_iter_hands_out_markets_one_by_one() {
    let msg = vec![
        MarketChange {
            id: "1.1".to_owned(),
            img: false,
            fields: vec![MarketChangeField::Definition(full_update(), Some(imm_defs()))],
        },
        MarketChange {
            id: "1.2".to_owned(),
            img: false,
            fields: vec![MarketChangeField::Definition(full_update(), Some(imm_defs()))],
        },
    ];
    let mut it = FileIter::new();
    assert!(it.needs_message());
    let books = MarketsDeser { markets: it.books.as_slice(), config: HIST }.deserialize(None, None, Some(msg)).unwrap();
    let first = market(it.next(Some(books)));
    assert_eq!(first.market_id, "1.1");
    assert!(!it.needs_message());
    let second = market(it.next(None));
    assert_eq!(second.market_id, "1.2");
    assert_eq!(it.books.len(), 2);
    assert!(it.needs_message());
    // a message that changed nothing asks for the next one
    assert!(matches!(it.next(Some(Vec::new())), FileStep::ReadMore));
    assert!(it.needs_message());
    let msg3 = vec![MarketChange { id: "1.2".to_owned(), img: false, fields: vec![MarketChangeField::TradedVolume(5)] }];
    let books3 = MarketsDeser { markets: it.books.as_slice(), config: HIST }.deserialize(None, None, Some(msg3)).unwrap();
    let third = market(it.next(Some(books3)));
    assert_eq!(third.market_id, "1.2");
    // the file has ended
    assert!(matches!(it.next(None), FileStep::End));
}

#[test]
fn mutable_file_iter_records_new_markets() {
    let mut it = MutFileIter::new();
    let msg = vec![MarketChange {
        id: "1.9".to_owned(),
        img: false,
        fields: vec![MarketChangeField::Definition(full_update(), Some(mut_defs()))],
    }];
    let books = MarketMutDeser { config: HIST }.deserialize(&mut it.books, None, None, Some(msg)).unwrap();
    let m = market(it.next(Some(books)));
    assert_eq!(m.market_id, "1.9");
    assert_eq!(it.books.len(), 1);
    let msg2 = vec![MarketChange { id: "1.9".to_owned(), img: false, fields: vec![MarketChangeField::RunnerChanges(vec![change(1, 400, vec![PriceSize::new(400, 60)])])] }];
    let books2 = MarketMutDeser { config: HIST }.deserialize(&mut it.books, None, None, Some(msg2)).unwrap();
    let m2 = market(it.next(Some(books2)));
    assert!(matches!(it.next(Some(Vec::new())), FileStep::ReadMore));
    assert!(matches!(it.next(None), FileStep::End));
    assert_eq!(m2.total_matched, 60);
    assert_eq!(it.books.len(), 1);
}

#[test]
fn bflw_books_keep_file_order() {
    let msg = vec![MarketChange {
        id: "1.100000001".to_owned(),
        img: false,
        fields: vec![MarketChangeField::Definition(full_update(), Some(bflw_defs()))],
    }];
    let books = MarketBooksDeser { markets: &[], config: HIST }.deserialize(Some(77), Some(msg)).unwrap();
    assert_eq!(books.len(), 1);
    let b: &MarketBook = &books[0];
    assert_eq!(b.publish_time.0, 77);
    assert_eq!(b.number_of_runners, 2);
    assert_eq!(b.runners.len(), 2);
    assert_eq!(b.status, MarketStatus::Open);
    assert!(b.is_market_data_delayed.is_none());
    assert!(b.total_available.is_none());
    assert!(b.last_match_time.is_none());
    assert_eq!(b.market_definition.runners.len(), 2);

    // a definition that changes one runner still lists every runner, in order
    let mut changed = bflw_defs();
    changed[0].status = SelectionStatus::Removed;
    let msg_changed = vec![MarketChange {
        id: "1.100000001".to_owned(),
        img: false,
        fields: vec![MarketChangeField::Definition(full_update(), Some(changed))],
    }];
    let changed_books =
        MarketBooksDeser { markets: books.as_slice(), config: HIST }.deserialize(Some(79), Some(msg_changed)).unwrap();
    let runners = &changed_books[0].market_definition.runners;
    assert_eq!(runners.len(), 2);
    assert_eq!(runners[0].status, SelectionStatus::Removed);
    assert_eq!(runners[1].selection_id.id(), 2);
    assert_eq!(runners[1].status, SelectionStatus::Active);

    // a second market comes after the first; an unchanged market stays in place
    let msg2 = vec![MarketChange {
        id: "1.100000002".to_owned(),
        img: false,
        fields: vec![MarketChangeField::Definition(full_update(), Some(bflw_defs()))],
    }];
    let books2 = MarketBooksDeser { markets: books.as_slice(), config: HIST }.deserialize(Some(78), Some(msg2)).unwrap();
    assert_eq!(books2.len(), 2);
    assert_eq!(books2[0].market_id, "1.100000001");
    assert_eq!(books2[0].publish_time.0, 77);
    assert_eq!(books2[1].market_id, "1.100000002");
    assert_eq!(books2[1].publish_time.0, 78);
}

#[test]
fn bflw_new_market_without_definition_fails() {
    let msg = vec![MarketChange {
        id: "1.100000001".to_owned(),
        img: false,
        fields: vec![MarketChangeField::RunnerChanges(vec![change(1, 200, vec![])])],
    }];
    let r = MarketBooksDeser { markets: &[], config: HIST }.deserialize(None, Some(msg));
    assert!(matches!(r, Err(MarketChangeError::NoDefinition)));
}

#[test]
fn bflw_definition_runners_one_per_entry() {
    let from: Vec<MarketDefinitionRunner> = bflw_defs().iter().map(MarketDefinitionRunner::new).collect();
    assert_eq!(from[0].handicap, HANDICAP_ZERO);
    // nothing changes: the earlier runners stay
    let (same, _) = BflwRunnerDefSeq(Some(from.as_slice()), None).deserialize(&bflw_defs());
    assert!(same.is_none());
    let mut changed = bflw_defs();
    changed[1].status = SelectionStatus::Removed;
    let (defs, books) = BflwRunnerDefSeq(Some(from.as_slice()), None).deserialize(&changed);
    // one runner per entry, in order; the unchanged one copied
    let defs = defs.unwrap();
    assert_eq!(defs.len(), 2);
    assert_eq!(defs[0].selection_id.id(), 1);
    assert_eq!(defs[0].status, SelectionStatus::Active);
    assert_eq!(defs[1].selection_id.id(), 2);
    assert_eq!(defs[1].status, SelectionStatus::Removed);
    assert_eq!(books.unwrap().len(), 2);
    assert!(from[1].would_change(&changed[1]));
    assert!(!from[0].would_change(&bflw_defs()[0]));
    // an entry that gives no handicap always changes a runner
    let mut no_hc = bflw_defs();
    no_hc[0].hc = None;
    assert!(from[0].would_change(&no_hc[0]));
}

#[test]
fn well_formed_changes_are_recognised() {
    assert!(code_ok(&full_update()));
    let bad_code = || {
        let mut u = full_update();
        u.country_code = Some("AUS".to_owned());
        u
    };
    assert!(!code_ok(&bad_code()));
    let mut no_code = full_update();
    no_code.country_code = None;
    assert!(code_ok(&no_code));

    assert!(defs_distinct(&mut_defs()));
    let mut twice = mut_defs();
    twice[1].id = 1;
    assert!(!defs_distinct(&twice));
    // the same selection with another handicap is another runner
    twice[1].hc = Some(7);
    assert!(defs_distinct(&twice));
    assert!(imm_defs_distinct(&imm_defs()));

    let ok = vec![MarketChange {
        id: "1.1".to_owned(),
        img: false,
        fields: vec![MarketChangeField::Definition(full_update(), Some(imm_defs()))],
    }];
    assert!(changes_are_well_formed(&ok));
    let mut dup = imm_defs();
    dup.push(imm_defs().remove(0));
    let bad = vec![MarketChange {
        id: "1.1".to_owned(),
        img: false,
        fields: vec![MarketChangeField::TradedVolume(1), MarketChangeField::Definition(full_update(), Some(dup))],
    }];
    assert!(!changes_are_well_formed(&bad));

    let bad = vec![MarketChange {
        id: "1.1".to_owned(),
        img: false,
        fields: vec![MarketChangeField::Definition(bad_code(), Some(mut_defs()))],
    }];
    assert!(!mut_changes_are_well_formed(&bad));
    let ok = vec![MarketChange { id: "1.1".to_owned(), img: false, fields: vec![MarketChangeField::Definition(full_update(), Some(mut_defs()))] }];
    assert!(mut_changes_are_well_formed(&ok));

    let bad = vec![MarketChange { id: "1.1".to_owned(), img: false, fields: vec![MarketChangeField::Definition(bad_code(), Some(bflw_defs()))] }];
    assert!(!book_changes_are_well_formed(&bad));
    let ok = vec![MarketChange { id: "1.1".to_owned(), img: false, fields: vec![MarketChangeField::Definition(full_update(), Some(bflw_defs()))] }];
    assert!(book_changes_are_well_formed(&ok));

    let msg = vec![
        MarketChange { id: "1.1".to_owned(), img: false, fields: vec![MarketChangeField::Definition(full_update(), Some(bflw_defs()))] },
        MarketChange { id: "1.2".to_owned(), img: false, fields: vec![MarketChangeField::Definition(full_update(), Some(bflw_defs()))] },
    ];
    let books = MarketBooksDeser { markets: &[], config: HIST }.deserialize(None, Some(msg)).unwrap();
    assert!(books_distinct(&books));
    let twice: Vec<MarketBook> = vec![books[0].clone(), books[1].clone(), books[0].clone()];
    assert!(!books_distinct(&twice));
}

#[test]
fn markets_changing_by_copy_do_not_read_the_race_type() {
    let mut u = full_update();
    u.race_type = Some("Flat".to_owned());
    let msg = vec![MarketChange {
        id: "1.5".to_owned(),
        img: false,
        fields: vec![MarketChangeField::Definition(u, Some(imm_defs()))],
    }];
    let books = MarketsDeser { markets: &[], config: HIST }.deserialize(None, None, Some(msg)).unwrap();
    assert_eq!(books[0].def.race_type, None);
    assert_eq!(books[0].def.venue.as_deref(), Some("Randwick"));

    // the in-place form reads it
    let mut markets: Vec<MarketMut> = Vec::new();
    let mut u = full_update();
    u.race_type = Some("Flat".to_owned());
    let msg = vec![MarketChange {
        id: "1.6".to_owned(),
        img: false,
        fields: vec![MarketChangeField::Definition(u, Some(mut_defs()))],
    }];
    let books = MarketMutDeser { config: HIST }.deserialize(&mut markets, None, None, Some(msg)).unwrap();
    match &books[0] {
        MutBook::Created(m) => assert_eq!(m.def.race_type.as_deref(), Some("Flat")),
        MutBook::Existing(_) => panic!("a new market"),
    }
}
