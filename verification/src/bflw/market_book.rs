use vstd::prelude::*;
use vstd::utf8::encode_utf8;

use crate::bflw::market_definition::{
    BflwDefinitionModel, MarketDefinition, MarketDefinitionDeser, bflw_next_books, bflw_next_def,
    opt_bflw_def, opt_slice_defs,
};
use crate::bflw::market_definition_runner::{MarketDefRunnerUpdate, opt_books, opt_vec_books};
use crate::bflw::runner_book::{RunnerBook, RunnerChangeSeq, all_books_wf, book_runners, copy_books};
use crate::config::Config;
use crate::datetime::{DateTime, DateTimeString};
use crate::enums::MarketStatus;
use crate::immutable::runner::runners_after_keyed_changes;
use crate::market_change::{
    MarketChange, MarketChangeError, MarketChangeField, lemma_name_index, lemma_name_index_prefix, name_index,
    runners_total,
};
use crate::market_definition::{code_ok, country_code_ok};
use crate::runner::{Runner, RunnerModel};
use crate::strings::str_eq;

verus! {

/// A market at one point of a stream, in the betfairlightweight form: the
/// main fields of its definition, its runner books and its definition.
pub struct MarketBook {
    pub market_id: String,
    pub publish_time: DateTime,
    pub bet_delay: u16,
    pub bsp_reconciled: bool,
    pub complete: bool,
    pub cross_matching: bool,
    pub inplay: bool,
    pub number_of_active_runners: u16,
    pub number_of_runners: u16,
    pub number_of_winners: u8,
    pub runners_voidable: bool,
    pub status: MarketStatus,
    pub total_matched: u64,
    pub version: u64,
    pub runners: Vec<RunnerBook>,
    pub market_definition: MarketDefinition,
    /// Never sent in stream files: always `None`.
    pub is_market_data_delayed: Option<bool>,
    /// Never sent in stream files: always `None`.
    pub total_available: Option<()>,
    /// Never sent in stream files: always `None`.
    pub last_match_time: Option<DateTimeString>,
}

pub struct MarketBookModel {
    pub market_id: Seq<char>,
    pub publish_time: u64,
    pub bet_delay: u16,
    pub bsp_reconciled: bool,
    pub complete: bool,
    pub cross_matching: bool,
    pub inplay: bool,
    pub number_of_active_runners: u16,
    pub number_of_runners: u16,
    pub number_of_winners: u8,
    pub runners_voidable: bool,
    pub status: MarketStatus,
    pub total_matched: u64,
    pub version: u64,
    pub runners: Seq<RunnerModel>,
    pub market_definition: BflwDefinitionModel,
    pub is_market_data_delayed: Option<bool>,
    pub total_available: Option<()>,
    pub last_match_time: Option<DateTimeString>,
}

impl View for MarketBook {
    type V = MarketBookModel;

    open spec fn view(&self) -> MarketBookModel {
        MarketBookModel {
            market_id: self.market_id@,
            publish_time: self.publish_time.0,
            bet_delay: self.bet_delay,
            bsp_reconciled: self.bsp_reconciled,
            complete: self.complete,
            cross_matching: self.cross_matching,
            inplay: self.inplay,
            number_of_active_runners: self.number_of_active_runners,
            number_of_runners: self.number_of_runners,
            number_of_winners: self.number_of_winners,
            runners_voidable: self.runners_voidable,
            status: self.status,
            total_matched: self.total_matched,
            version: self.version,
            runners: book_runners(self.runners@),
            market_definition: self.market_definition@,
            is_market_data_delayed: self.is_market_data_delayed,
            total_available: self.total_available,
            last_match_time: self.last_match_time,
        }
    }
}

impl MarketBook {
    pub open spec fn wf(&self) -> bool {
        all_books_wf(self.runners@)
    }

    pub fn clone(&self) -> (r: Self)
        requires
            self.wf(),
        ensures
            r.wf(),
            r@ == self@,
    {
        MarketBook {
            market_id: self.market_id.clone(),
            publish_time: self.publish_time,
            bet_delay: self.bet_delay,
            bsp_reconciled: self.bsp_reconciled,
            complete: self.complete,
            cross_matching: self.cross_matching,
            inplay: self.inplay,
            number_of_active_runners: self.number_of_active_runners,
            number_of_runners: self.number_of_runners,
            number_of_winners: self.number_of_winners,
            runners_voidable: self.runners_voidable,
            status: self.status,
            total_matched: self.total_matched,
            version: self.version,
            runners: copy_books(self.runners.as_slice()),
            market_definition: self.market_definition.clone(),
            is_market_data_delayed: self.is_market_data_delayed,
            total_available: self.total_available,
            last_match_time: self.last_match_time,
        }
    }
}

/// What a market change gives a market book: its id, and where the change
/// gave them, a definition, runner books and a total matched.
pub struct MarketBookUpdate {
    pub market_id: String,
    pub definition: Option<MarketDefinition>,
    pub runners: Option<Vec<RunnerBook>>,
    pub total_volume: Option<u64>,
}

/// A new market book from a definition.
pub open spec fn book_new(id: Seq<char>, d: BflwDefinitionModel, runners: Option<Seq<RunnerModel>>, total: Option<
    u64,
>) -> MarketBookModel {
    MarketBookModel {
        market_id: id,
        publish_time: 0,
        bet_delay: d.def.bet_delay,
        bsp_reconciled: d.def.bsp_reconciled,
        complete: d.def.complete,
        cross_matching: d.def.cross_matching,
        inplay: d.def.in_play,
        number_of_active_runners: d.def.number_of_active_runners,
        number_of_runners: #[verifier::truncate] (d.runners.len() as u16),
        number_of_winners: d.def.number_of_winners,
        runners_voidable: d.def.runners_voidable,
        status: d.def.status,
        total_matched: match total {
            Some(t) => t,
            None => 0,
        },
        version: d.def.version,
        runners: match runners {
            Some(r) => r,
            None => Seq::empty(),
        },
        market_definition: d,
        is_market_data_delayed: None,
        total_available: None,
        last_match_time: None,
    }
}

/// A market book after a change: what the change gives, the rest kept.
pub open spec fn book_updated(
    mb: MarketBookModel,
    d: Option<BflwDefinitionModel>,
    runners: Option<Seq<RunnerModel>>,
    total: Option<u64>,
) -> MarketBookModel {
    match d {
        Some(def) => MarketBookModel {
            bet_delay: def.def.bet_delay,
            bsp_reconciled: def.def.bsp_reconciled,
            complete: def.def.complete,
            cross_matching: def.def.cross_matching,
            inplay: def.def.in_play,
            number_of_active_runners: def.def.number_of_active_runners,
            number_of_runners: #[verifier::truncate] (def.runners.len() as u16),
            number_of_winners: def.def.number_of_winners,
            runners_voidable: def.def.runners_voidable,
            status: def.def.status,
            version: def.def.version,
            market_definition: def,
            runners: match runners {
                Some(r) => r,
                None => mb.runners,
            },
            total_matched: match total {
                Some(t) => t,
                None => mb.total_matched,
            },
            is_market_data_delayed: None,
            total_available: None,
            last_match_time: None,
            ..mb
        },
        None => MarketBookModel {
            runners: match runners {
                Some(r) => r,
                None => mb.runners,
            },
            total_matched: match total {
                Some(t) => t,
                None => mb.total_matched,
            },
            is_market_data_delayed: None,
            total_available: None,
            last_match_time: None,
            ..mb
        },
    }
}

pub open spec fn opt_def_of(d: Option<MarketDefinition>) -> Option<BflwDefinitionModel> {
    match d {
        Some(x) => Some(x@),
        None => None,
    }
}

impl MarketBook {
    pub fn new(change: MarketBookUpdate) -> (r: Self)
        requires
            change.definition is Some,
            change.runners matches Some(v) ==> all_books_wf(v@),
        ensures
            r.wf(),
            r@ == book_new(
                change.market_id@,
                change.definition->0@,
                opt_vec_books(change.runners),
                change.total_volume,
            ),
    {
        let def = change.definition.unwrap();
        let n = def.runners.len();
        let runners = match change.runners {
            Some(r) => r,
            None => Vec::new(),
        };
        assert(book_runners(runners@) =~= opt_seq(opt_vec_books(change.runners)));
        assert(def@.runners.len() == n);
        MarketBook {
            market_id: change.market_id,
            runners,
            total_matched: match change.total_volume {
                Some(t) => t,
                None => 0,
            },
            bet_delay: def.def.bet_delay,
            bsp_reconciled: def.def.bsp_reconciled,
            complete: def.def.complete,
            cross_matching: def.def.cross_matching,
            inplay: def.def.in_play,
            number_of_active_runners: def.def.number_of_active_runners,
            number_of_runners: #[verifier::truncate] (n as u16),
            runners_voidable: def.def.runners_voidable,
            status: def.def.status,
            number_of_winners: def.def.number_of_winners,
            version: def.def.version,
            market_definition: def,
            publish_time: DateTime::new(0),
            is_market_data_delayed: None,
            total_available: None,
            last_match_time: None,
        }
    }

    /// The market book after a change; this one is left as it was.
    #[verifier::rlimit(60)]
    pub fn update_from_change(&self, change: MarketBookUpdate) -> (r: Self)
        requires
            self.wf(),
            change.runners matches Some(v) ==> all_books_wf(v@),
        ensures
            r.wf(),
            r@ == book_updated(self@, opt_def_of(change.definition), opt_vec_books(change.runners), change.total_volume),
    {
        let runners = match change.runners {
            Some(r) => r,
            None => copy_books(self.runners.as_slice()),
        };
        let total_matched = match change.total_volume {
            Some(t) => t,
            None => self.total_matched,
        };
        match change.definition {
            Some(def) => {
                let n = def.runners.len();
                assert(def@.runners.len() == n);
                MarketBook {
                    market_id: self.market_id.clone(),
                    runners,
                    total_matched,
                    bet_delay: def.def.bet_delay,
                    bsp_reconciled: def.def.bsp_reconciled,
                    complete: def.def.complete,
                    cross_matching: def.def.cross_matching,
                    inplay: def.def.in_play,
                    number_of_active_runners: def.def.number_of_active_runners,
                    number_of_runners: #[verifier::truncate] (n as u16),
                    runners_voidable: def.def.runners_voidable,
                    status: def.def.status,
                    number_of_winners: def.def.number_of_winners,
                    version: def.def.version,
                    market_definition: def,
                    publish_time: self.publish_time,
                    is_market_data_delayed: None,
                    total_available: None,
                    last_match_time: None,
                }
            },
            None => MarketBook {
                market_id: self.market_id.clone(),
                runners,
                total_matched,
                bet_delay: self.bet_delay,
                bsp_reconciled: self.bsp_reconciled,
                complete: self.complete,
                cross_matching: self.cross_matching,
                inplay: self.inplay,
                number_of_active_runners: self.number_of_active_runners,
                number_of_runners: self.number_of_runners,
                runners_voidable: self.runners_voidable,
                status: self.status,
                number_of_winners: self.number_of_winners,
                version: self.version,
                market_definition: self.market_definition.clone(),
                publish_time: self.publish_time,
                is_market_data_delayed: None,
                total_available: None,
                last_match_time: None,
            },
        }
    }
}

/// What the fields of a market change have given so far.
pub struct BookState {
    pub definition: Option<BflwDefinitionModel>,
    pub runners: Option<Seq<RunnerModel>>,
    pub total: Option<u64>,
}

pub open spec fn book_base_def(m: Option<MarketBookModel>) -> Option<BflwDefinitionModel> {
    match m {
        Some(mb) => Some(mb.market_definition),
        None => None,
    }
}

/// The runner books a field works from: those given so far, else the
/// market's.
pub open spec fn current_books(m: Option<MarketBookModel>, st: BookState) -> Option<Seq<RunnerModel>> {
    match st.runners {
        Some(r) => Some(r),
        None => match m {
            Some(mb) => Some(mb.runners),
            None => None,
        },
    }
}

pub open spec fn opt_seq(o: Option<Seq<RunnerModel>>) -> Seq<RunnerModel> {
    match o {
        Some(s) => s,
        None => Seq::empty(),
    }
}

/// One field of a market change applied. A definition gives the definition
/// and replaces the runner books by those its runners give (none where it
/// lists no runners); runner changes give the runner books and, with
/// cumulative volumes, the total; a traded volume gives the total otherwise.
pub open spec fn book_step(m: Option<MarketBookModel>, st: BookState, f: MarketChangeField<MarketDefRunnerUpdate>, cfg: Config) -> Result<
    BookState,
    Seq<char>,
> {
    match f {
        MarketChangeField::Definition(u, rd) => {
            let rds = match rd {
                Some(v) => Some(v@),
                None => None,
            };
            match bflw_next_def(book_base_def(m), current_books(m, st), u, rds) {
                Err(e) => Err(e),
                Ok(d) => Ok(
                    BookState {
                        definition: Some(d),
                        runners: bflw_next_books(book_base_def(m), current_books(m, st), rds),
                        total: st.total,
                    },
                ),
            }
        },
        MarketChangeField::RunnerChanges(cs) => {
            let rs = runners_after_keyed_changes(opt_seq(current_books(m, st)), cs@, cfg);
            Ok(
                BookState {
                    definition: st.definition,
                    runners: Some(rs),
                    total: if cfg.cumulative_runner_tv {
                        Some(runners_total(rs))
                    } else {
                        st.total
                    },
                },
            )
        },
        MarketChangeField::TradedVolume(v) => Ok(
            if cfg.cumulative_runner_tv {
                st
            } else {
                BookState { total: Some(v), ..st }
            },
        ),
    }
}

pub open spec fn book_fold(m: Option<MarketBookModel>, fs: Seq<MarketChangeField<MarketDefRunnerUpdate>>, cfg: Config) -> Result<
    BookState,
    Seq<char>,
>
    decreases fs.len(),
{
    if fs.len() == 0 {
        Ok(BookState { definition: None, runners: None, total: None })
    } else {
        match book_fold(m, fs.drop_last(), cfg) {
            Ok(st) => book_step(m, st, fs.last(), cfg),
            Err(e) => Err(e),
        }
    }
}

pub proof fn lemma_book_fold_err(m: Option<MarketBookModel>, fs: Seq<MarketChangeField<MarketDefRunnerUpdate>>, cfg: Config, n: int)
    requires
        0 <= n <= fs.len(),
        book_fold(m, fs.take(n), cfg) is Err,
    ensures
        book_fold(m, fs, cfg) == book_fold(m, fs.take(n), cfg),
    decreases fs.len() - n,
{
    if n < fs.len() {
        assert(fs.take(n + 1).drop_last() =~= fs.take(n));
        lemma_book_fold_err(m, fs, cfg, n + 1);
    } else {
        assert(fs.take(n) =~= fs);
    }
}

/// What a market change gives a market book.
pub enum BookOutcome {
    Done(MarketBookModel),
    Missing(Seq<char>),
    NoDefinition,
}

/// The market book after a change: the earlier book with what the fields
/// gave; a new book needs a definition.
pub open spec fn book_outcome(id: Seq<char>, m: Option<MarketBookModel>, fs: Seq<MarketChangeField<MarketDefRunnerUpdate>>, cfg: Config) -> BookOutcome {
    match book_fold(m, fs, cfg) {
        Err(e) => BookOutcome::Missing(e),
        Ok(st) => match m {
            Some(mb) => BookOutcome::Done(book_updated(mb, st.definition, st.runners, st.total)),
            None => match st.definition {
                Some(d) => BookOutcome::Done(book_new(id, d, st.runners, st.total)),
                None => BookOutcome::NoDefinition,
            },
        },
    }
}

pub open spec fn book_outcome_of(r: Result<MarketBook, MarketChangeError>) -> BookOutcome {
    match r {
        Ok(mb) => BookOutcome::Done(mb@),
        Err(MarketChangeError::MissingField(f)) => BookOutcome::Missing(f@),
        Err(MarketChangeError::NoDefinition) => BookOutcome::NoDefinition,
        Err(MarketChangeError::NoSelections) => BookOutcome::NoDefinition,
    }
}

/// The fields can be applied without fault: a definition's country code
/// that is not two bytes comes with a required field missing before it.
pub open spec fn book_fields_ok(m: Option<MarketBookModel>, fs: Seq<MarketChangeField<MarketDefRunnerUpdate>>, cfg: Config) -> bool {
    forall|k: int|
        0 <= k < fs.len() ==> match #[trigger] fs[k] {
            MarketChangeField::Definition(u, rd) => (book_fold(m, fs.take(k), cfg) matches Ok(st) ==> (country_code_ok(u)
                || (bflw_next_def(
                book_base_def(m),
                current_books(m, st),
                u,
                match rd {
                    Some(v) => Some(v@),
                    None => None,
                },
            ) matches Err(f) && f != "openDate"@))),
            _ => true,
        }
}

pub open spec fn opt_book(m: Option<&MarketBook>) -> Option<MarketBookModel> {
    match m {
        Some(mb) => Some(mb@),
        None => None,
    }
}

/// One market change (`mc` entry) applied to the market book it is for, or
/// to a new book.
pub struct MarketMc<'a> {
    pub market: Option<&'a MarketBook>,
    pub config: Config,
}

impl<'a> MarketMc<'a> {
    #[verifier::rlimit(60)]
    #[verifier::loop_isolation(false)]
    pub fn deserialize(self, id: String, fields: Vec<MarketChangeField<MarketDefRunnerUpdate>>) -> (r: Result<
        MarketBook,
        MarketChangeError,
    >)
        requires
            self.market matches Some(mb) ==> mb.wf(),
            book_fields_ok(opt_book(self.market), fields@, self.config),
        ensures
            book_outcome_of(r) == book_outcome(id@, opt_book(self.market), fields@, self.config),
            r matches Ok(mb) ==> mb.wf(),
            !(r matches Err(MarketChangeError::NoSelections)),
    {
        let ghost m = opt_book(self.market);
        let ghost fs = fields@;
        let cfg = self.config;
        let mut fields = fields;
        let mut next_def: Option<MarketDefinition> = None;
        let mut next_runners: Option<Vec<RunnerBook>> = None;
        let mut total: Option<u64> = None;
        let mut i: usize = 0;
        while i < fields.len()
            invariant
                fs.len() == fields@.len(),
                forall|k: int| i <= k < fs.len() ==> fields@[k] == fs[k],
                i <= fs.len(),
                next_runners matches Some(v) ==> all_books_wf(v@),
                book_fold(m, fs.take(i as int), cfg) == Ok::<BookState, Seq<char>>(
                    BookState { definition: opt_def_of(next_def), runners: opt_vec_books(next_runners), total },
                ),
            decreases fs.len() - i,
        {
            assert(fs.take(i + 1).drop_last() =~= fs.take(i as int));
            let mut f = MarketChangeField::TradedVolume(0);
            fields.set_and_swap(i, &mut f);
            assert(f == fs[i as int]);
            let current: Option<&[RunnerBook]> = match &next_runners {
                Some(v) => Some(v.as_slice()),
                None => match self.market {
                    Some(mb) => Some(mb.runners.as_slice()),
                    None => None,
                },
            };
            assert(opt_books(current) == current_books(
                m,
                BookState { definition: opt_def_of(next_def), runners: opt_vec_books(next_runners), total },
            ));
            match f {
                MarketChangeField::Definition(u, rd) => {
                    let base: Option<&MarketDefinition> = match self.market {
                        Some(mb) => Some(&mb.market_definition),
                        None => None,
                    };
                    assert(opt_bflw_def(base) == book_base_def(m));
                    let defs: Option<&[MarketDefRunnerUpdate]> = match &rd {
                        Some(v) => Some(v.as_slice()),
                        None => None,
                    };
                    let res = MarketDefinitionDeser { def: base, runners: current }.deserialize(u, defs);
                    match res {
                        Ok((d, b)) => {
                            next_def = Some(d);
                            next_runners = b;
                        },
                        Err(e) => {
                            proof {
                                lemma_book_fold_err(m, fs, cfg, i + 1);
                            }
                            return Err(MarketChangeError::MissingField(e.missing_field));
                        },
                    }
                },
                MarketChangeField::RunnerChanges(cs) => {
                    let nr = RunnerChangeSeq { runners: current, config: cfg }.deserialize(cs.as_slice());
                    if cfg.cumulative_runner_tv {
                        total = Some(total_of_books(&nr));
                    }
                    next_runners = Some(nr);
                },
                MarketChangeField::TradedVolume(v) => {
                    if !cfg.cumulative_runner_tv {
                        total = Some(v);
                    }
                },
            }
            i = i + 1;
        }
        assert(fs.take(i as int) =~= fs);
        let upt = MarketBookUpdate { market_id: id, definition: next_def, runners: next_runners, total_volume: total };
        match self.market {
            Some(mb) => Ok(mb.update_from_change(upt)),
            None => {
                if upt.definition.is_some() {
                    Ok(MarketBook::new(upt))
                } else {
                    Err(MarketChangeError::NoDefinition)
                }
            },
        }
    }
}

/// The sum of the books' total matched.
fn total_of_books(v: &Vec<RunnerBook>) -> (r: u64)
    ensures
        r == runners_total(book_runners(v@)),
{
    let ghost ms = book_runners(v@);
    let mut acc: u64 = 0;
    let mut i: usize = 0;
    while i < v.len()
        invariant
            i <= v@.len(),
            ms == book_runners(v@),
            acc == crate::runner::saturate(crate::market_change::total_sum(ms.take(i as int))),
        decreases v@.len() - i,
    {
        assert(ms.take(i + 1).drop_last() =~= ms.take(i as int));
        proof {
            lemma_total_sum_nonneg(ms.take(i as int));
        }
        acc = acc.saturating_add(v[i].runner.total_matched);
        i = i + 1;
    }
    assert(ms.take(i as int) =~= ms);
    acc
}

proof fn lemma_total_sum_nonneg(rs: Seq<RunnerModel>)
    ensures
        crate::market_change::total_sum(rs) >= 0,
    decreases rs.len(),
{
    if rs.len() > 0 {
        lemma_total_sum_nonneg(rs.drop_last());
    }
}

pub open spec fn book_models(v: Seq<MarketBook>) -> Seq<MarketBookModel> {
    v.map_values(|m: MarketBook| m@)
}

pub open spec fn book_ids(ms: Seq<MarketBookModel>) -> Seq<Seq<char>> {
    ms.map_values(|m: MarketBookModel| m.market_id)
}

pub open spec fn all_market_books_wf(v: Seq<MarketBook>) -> bool {
    forall|k: int| 0 <= k < v.len() ==> (#[trigger] v[k]).wf()
}

/// Where the first book of the given market id stands.
pub fn market_book_position(ms: &[MarketBook], id: &str) -> (r: Option<usize>)
    ensures
        match r {
            Some(i) => i < ms@.len() && name_index(book_ids(book_models(ms@)), id@) == i,
            None => name_index(book_ids(book_models(ms@)), id@) == -1,
        },
{
    let ghost names = book_ids(book_models(ms@));
    let mut i: usize = 0;
    while i < ms.len()
        invariant
            i <= ms@.len(),
            names == book_ids(book_models(ms@)),
            name_index(names.take(i as int), id@) == -1,
        decreases ms@.len() - i,
    {
        assert(names.take(i + 1).drop_last() =~= names.take(i as int));
        if str_eq(ms[i].market_id.as_str(), id) {
            proof {
                lemma_name_index_prefix(names, id@, i as int + 1);
            }
            return Some(i);
        }
        i = i + 1;
    }
    assert(names.take(i as int) =~= names);
    None
}

/// The book a change applies to: the one this message has already
/// produced, else the file's; none for a full image.
pub open spec fn book_source(markets: Seq<MarketBookModel>, books: Seq<MarketBookModel>, id: Seq<char>, img: bool) -> Option<
    MarketBookModel,
> {
    let i = name_index(book_ids(books), id);
    if img {
        None
    } else if i >= 0 {
        Some(books[i])
    } else {
        let j = name_index(book_ids(markets), id);
        if j >= 0 {
            Some(markets[j])
        } else {
            None
        }
    }
}

pub open spec fn book_seq_step(markets: Seq<MarketBookModel>, books: Seq<MarketBookModel>, mc: MarketChange<MarketDefRunnerUpdate>, cfg: Config) -> Result<
    Seq<MarketBookModel>,
    BookOutcome,
> {
    let i = name_index(book_ids(books), mc.id@);
    match book_outcome(mc.id@, book_source(markets, books, mc.id@, mc.img), mc.fields@, cfg) {
        BookOutcome::Done(mb) => Ok(
            if i >= 0 {
                books.update(i, mb)
            } else {
                books.push(mb)
            },
        ),
        o => Err(o),
    }
}

pub open spec fn book_seq_fold(markets: Seq<MarketBookModel>, mcs: Seq<MarketChange<MarketDefRunnerUpdate>>, cfg: Config) -> Result<
    Seq<MarketBookModel>,
    BookOutcome,
>
    decreases mcs.len(),
{
    if mcs.len() == 0 {
        Ok(Seq::empty())
    } else {
        match book_seq_fold(markets, mcs.drop_last(), cfg) {
            Ok(books) => book_seq_step(markets, books, mcs.last(), cfg),
            Err(e) => Err(e),
        }
    }
}

pub proof fn lemma_book_seq_err(markets: Seq<MarketBookModel>, mcs: Seq<MarketChange<MarketDefRunnerUpdate>>, cfg: Config, n: int)
    requires
        0 <= n <= mcs.len(),
        book_seq_fold(markets, mcs.take(n), cfg) is Err,
    ensures
        book_seq_fold(markets, mcs, cfg) == book_seq_fold(markets, mcs.take(n), cfg),
    decreases mcs.len() - n,
{
    if n < mcs.len() {
        assert(mcs.take(n + 1).drop_last() =~= mcs.take(n));
        lemma_book_seq_err(markets, mcs, cfg, n + 1);
    } else {
        assert(mcs.take(n) =~= mcs);
    }
}

/// Every market change of the message can be applied without fault.
pub open spec fn book_seq_ok(markets: Seq<MarketBookModel>, mcs: Seq<MarketChange<MarketDefRunnerUpdate>>, cfg: Config) -> bool {
    forall|k: int|
        0 <= k < mcs.len() ==> (book_seq_fold(markets, mcs.take(k), cfg) matches Ok(books) ==> book_fields_ok(
            book_source(markets, books, (#[trigger] mcs[k]).id@, mcs[k].img),
            mcs[k].fields@,
            cfg,
        ))
}

/// The market changes of a message (`mc`), producing the books the message
/// changes, in the order in which it first names them.
pub struct MarketMcSeq<'a> {
    pub markets: &'a [MarketBook],
    pub config: Config,
}

impl<'a> MarketMcSeq<'a> {
    #[verifier::loop_isolation(false)]
    pub fn deserialize(self, mcs: Vec<MarketChange<MarketDefRunnerUpdate>>) -> (r: Result<Vec<MarketBook>, MarketChangeError>)
        requires
            all_market_books_wf(self.markets@),
            book_seq_ok(book_models(self.markets@), mcs@, self.config),
        ensures
            match r {
                Ok(v) => all_market_books_wf(v@) && book_seq_fold(book_models(self.markets@), mcs@, self.config) == Ok::<
                    Seq<MarketBookModel>,
                    BookOutcome,
                >(book_models(v@)),
                Err(e) => book_seq_fold(book_models(self.markets@), mcs@, self.config) == Err::<
                    Seq<MarketBookModel>,
                    BookOutcome,
                >(book_outcome_of(Err(e))),
            },
    {
        let ghost ms = book_models(self.markets@);
        let ghost cs = mcs@;
        let cfg = self.config;
        let mut mcs = mcs;
        let mut next_books: Vec<MarketBook> = Vec::with_capacity(self.markets.len());
        let mut i: usize = 0;
        assert(book_models(next_books@) =~= Seq::<MarketBookModel>::empty());
        while i < mcs.len()
            invariant
                cs.len() == mcs@.len(),
                forall|k: int| i <= k < cs.len() ==> mcs@[k] == cs[k],
                i <= cs.len(),
                all_market_books_wf(next_books@),
                book_seq_ok(ms, cs, cfg),
                book_seq_fold(ms, cs.take(i as int), cfg) == Ok::<Seq<MarketBookModel>, BookOutcome>(book_models(next_books@)),
            decreases cs.len() - i,
        {
            assert(cs.take(i + 1).drop_last() =~= cs.take(i as int));
            let mut mc = MarketChange { id: String::new(), img: false, fields: Vec::new() };
            mcs.set_and_swap(i, &mut mc);
            assert(mc == cs[i as int]);
            let MarketChange { id, img, fields } = mc;
            let pos = market_book_position(next_books.as_slice(), id.as_str());
            let source: Option<&MarketBook> = if img {
                None
            } else {
                match pos {
                    Some(p) => Some(&next_books[p]),
                    None => match market_book_position(self.markets, id.as_str()) {
                        Some(j) => Some(&self.markets[j]),
                        None => None,
                    },
                }
            };
            assert(opt_book(source) == book_source(ms, book_models(next_books@), id@, img));
            let result = MarketMc { market: source, config: cfg }.deserialize(id, fields);
            match result {
                Ok(m) => {
                    let ghost before = next_books@;
                    match pos {
                        Some(p) => {
                            next_books.set(p, m);
                            assert(book_models(next_books@) =~= book_models(before).update(p as int, m@));
                        },
                        None => {
                            next_books.push(m);
                            assert(book_models(next_books@) =~= book_models(before).push(m@));
                        },
                    }
                },
                Err(e) => {
                    proof {
                        lemma_book_seq_err(ms, cs, cfg, i + 1);
                    }
                    return Err(e);
                },
            }
            i = i + 1;
        }
        assert(cs.take(i as int) =~= cs);
        Ok(next_books)
    }
}

/// The books after the `i`th market of the file is put at its place: the
/// book of its id is exchanged with the one there; where there is none, the
/// market itself is added and exchanged with the one there.
pub open spec fn reorder_step(nb: Seq<MarketBookModel>, m: MarketBookModel, i: int) -> Seq<MarketBookModel> {
    let ni = name_index(book_ids(nb), m.market_id);
    if ni >= 0 {
        if ni != i {
            nb.update(i, nb[ni]).update(ni, nb[i])
        } else {
            nb
        }
    } else {
        let p = nb.push(m);
        p.update(i, p[p.len() - 1]).update(p.len() - 1, p[i])
    }
}

pub open spec fn reordered(nb: Seq<MarketBookModel>, ms: Seq<MarketBookModel>) -> Seq<MarketBookModel>
    decreases ms.len(),
{
    if ms.len() == 0 {
        nb
    } else {
        reorder_step(reordered(nb, ms.drop_last()), ms.last(), ms.len() - 1)
    }
}

/// Every exchange of the reordering stays within the books.
pub open spec fn reorder_ok(nb: Seq<MarketBookModel>, ms: Seq<MarketBookModel>) -> bool {
    forall|i: int|
        0 <= i < ms.len() ==> {
            let cur = #[trigger] reordered(nb, ms.take(i));
            let ni = name_index(book_ids(cur), ms[i].market_id);
            ni >= 0 && ni != i ==> i < cur.len()
        }
}

/// A field whose definition, if it is one, gives a two-byte country code
/// (where it gives one).
pub open spec fn book_field_well_formed(f: MarketChangeField<MarketDefRunnerUpdate>) -> bool {
    match f {
        MarketChangeField::Definition(u, _) => country_code_ok(u),
        _ => true,
    }
}

/// Every field of every market change is well formed.
pub open spec fn book_changes_well_formed(mcs: Seq<MarketChange<MarketDefRunnerUpdate>>) -> bool {
    forall|k: int, f: int|
        0 <= k < mcs.len() && 0 <= f < mcs[k].fields@.len() ==> book_field_well_formed(#[trigger] mcs[k].fields@[f])
}

/// Market changes whose definitions give two-byte country codes can be
/// applied to any market books without fault.
pub proof fn lemma_book_well_formed_changes_apply(
    markets: Seq<MarketBookModel>,
    mcs: Seq<MarketChange<MarketDefRunnerUpdate>>,
    cfg: Config,
)
    requires
        book_changes_well_formed(mcs),
    ensures
        book_seq_ok(markets, mcs, cfg),
{
    assert forall|k: int| 0 <= k < mcs.len() && book_seq_fold(markets, mcs.take(k), cfg) is Ok implies book_fields_ok(
        book_source(markets, book_seq_fold(markets, mcs.take(k), cfg)->Ok_0, (#[trigger] mcs[k]).id@, mcs[k].img),
        mcs[k].fields@,
        cfg,
    ) by {
        let fs = mcs[k].fields@;
        assert forall|f: int| 0 <= f < fs.len() implies book_field_well_formed(#[trigger] fs[f]) by {
            assert(book_field_well_formed(mcs[k].fields@[f]));
        }
    }
}

/// Whether every definition of the market changes gives a two-byte country
/// code (where it gives one).
pub fn book_changes_are_well_formed(mcs: &[MarketChange<MarketDefRunnerUpdate>]) -> (r: bool)
    ensures
        r == book_changes_well_formed(mcs@),
{
    let mut k: usize = 0;
    while k < mcs.len()
        invariant
            k <= mcs@.len(),
            forall|a: int, f: int|
                0 <= a < k && 0 <= f < mcs@[a].fields@.len() ==> book_field_well_formed(#[trigger] mcs@[a].fields@[f]),
        decreases mcs@.len() - k,
    {
        let fs = &mcs[k].fields;
        let mut f: usize = 0;
        while f < fs.len()
            invariant
                k < mcs@.len(),
                fs@ == mcs@[k as int].fields@,
                f <= fs@.len(),
                forall|a: int, g: int|
                    0 <= a < k && 0 <= g < mcs@[a].fields@.len() ==> book_field_well_formed(#[trigger] mcs@[a].fields@[g]),
                forall|g: int| 0 <= g < f ==> book_field_well_formed(#[trigger] fs@[g]),
            decreases fs@.len() - f,
        {
            let ok = match &fs[f] {
                MarketChangeField::Definition(u, _) => code_ok(u),
                _ => true,
            };
            if !ok {
                assert(!book_field_well_formed(mcs@[k as int].fields@[f as int]));
                return false;
            }
            f = f + 1;
        }
        assert forall|a: int, g: int|
            0 <= a < k + 1 && 0 <= g < mcs@[a].fields@.len() implies book_field_well_formed(#[trigger] mcs@[a].fields@[g]) by {
            if a == k {
                assert(book_field_well_formed(fs@[g]));
            }
        }
        k = k + 1;
    }
    true
}

/// No two books are of the same market.
pub open spec fn book_ids_distinct(ms: Seq<MarketBookModel>) -> bool {
    forall|a: int, b: int|
        0 <= a < ms.len() && 0 <= b < ms.len() && a != b ==> (#[trigger] ms[a]).market_id != (#[trigger] ms[b]).market_id
}

/// After the first `i` markets of the file are put in place, the books
/// reach at least `i` places, and the first `i` are of those markets.
spec fn placed_books(cur: Seq<MarketBookModel>, ms: Seq<MarketBookModel>, i: int) -> bool {
    &&& i <= cur.len()
    &&& forall|k: int| 0 <= k < i ==> (#[trigger] cur[k]).market_id == ms[k].market_id
}

proof fn lemma_placed_books(nb: Seq<MarketBookModel>, ms: Seq<MarketBookModel>, i: int)
    requires
        book_ids_distinct(ms),
        0 <= i <= ms.len(),
    ensures
        placed_books(reordered(nb, ms.take(i)), ms, i),
    decreases i,
{
    if i > 0 {
        lemma_placed_books(nb, ms, i - 1);
        let prev = reordered(nb, ms.take(i - 1));
        assert(ms.take(i).drop_last() =~= ms.take(i - 1));
        assert(ms.take(i).last() == ms[i - 1]);
        let m = ms[i - 1];
        let ids = book_ids(prev);
        lemma_name_index(ids, m.market_id);
        let ni = name_index(ids, m.market_id);
        if ni >= 0 && ni < i - 1 {
            assert(ids[ni] == prev[ni].market_id);
            assert(prev[ni].market_id == ms[ni].market_id);
            assert(false);
        }
        let cur = reordered(nb, ms.take(i));
        assert(cur == reorder_step(prev, m, i - 1));
        if ni >= 0 {
            assert(ids[ni] == prev[ni].market_id);
        }
        assert forall|k: int| 0 <= k < i implies (#[trigger] cur[k]).market_id == ms[k].market_id by {
            if k < i - 1 {
                assert(cur[k] == prev[k]);
            }
        }
    }
}

/// Putting the books in the file's order keeps every exchange within the
/// books when the file holds each market once.
pub proof fn lemma_distinct_books_reorder_ok(nb: Seq<MarketBookModel>, ms: Seq<MarketBookModel>)
    requires
        book_ids_distinct(ms),
    ensures
        reorder_ok(nb, ms),
{
    assert forall|i: int| 0 <= i < ms.len() implies {
        let cur = #[trigger] reordered(nb, ms.take(i));
        let ni = name_index(book_ids(cur), ms[i].market_id);
        ni >= 0 && ni != i ==> i < cur.len()
    } by {
        lemma_placed_books(nb, ms, i);
        let cur = reordered(nb, ms.take(i));
        let ids = book_ids(cur);
        lemma_name_index(ids, ms[i].market_id);
        let ni = name_index(ids, ms[i].market_id);
        if ni >= 0 && ni < i {
            assert(ids[ni] == cur[ni].market_id);
            assert(cur[ni].market_id == ms[ni].market_id);
            assert(false);
        }
    }
}

/// Whether no two books are of the same market.
pub fn books_distinct(ms: &[MarketBook]) -> (r: bool)
    ensures
        r == book_ids_distinct(book_models(ms@)),
{
    let ghost bm = book_models(ms@);
    let mut a: usize = 0;
    while a < ms.len()
        invariant
            bm == book_models(ms@),
            a <= ms@.len(),
            forall|x: int, y: int|
                0 <= x < a && 0 <= y < bm.len() && x != y ==> (#[trigger] bm[x]).market_id != (#[trigger] bm[y]).market_id,
        decreases ms@.len() - a,
    {
        let mut b: usize = 0;
        while b < ms.len()
            invariant
                bm == book_models(ms@),
                a < ms@.len(),
                b <= ms@.len(),
                forall|x: int, y: int|
                    0 <= x < a && 0 <= y < bm.len() && x != y ==> (#[trigger] bm[x]).market_id != (#[trigger] bm[y]).market_id,
                forall|y: int| 0 <= y < b && y != a ==> bm[a as int].market_id != (#[trigger] bm[y]).market_id,
            decreases ms@.len() - b,
        {
            if b != a && str_eq(ms[a].market_id.as_str(), ms[b].market_id.as_str()) {
                assert(bm[a as int].market_id == bm[b as int].market_id);
                return false;
            }
            b = b + 1;
        }
        a = a + 1;
    }
    true
}

pub open spec fn stamped_books(books: Seq<MarketBookModel>, pt: Option<u64>) -> Seq<MarketBookModel> {
    match pt {
        Some(t) => books.map_values(|b: MarketBookModel| MarketBookModel { publish_time: t, ..b }),
        None => books,
    }
}

/// A message of the stream (`op`, `pt`, `clk`, `mc`), producing every book
/// of the file: the file's, changed or not, in their order, then the new
/// ones. The books the message changes carry its publish time.
pub struct MarketBooksDeser<'a> {
    pub markets: &'a [MarketBook],
    pub config: Config,
}

impl<'a> MarketBooksDeser<'a> {
    #[verifier::loop_isolation(false)]
    pub fn deserialize(self, pt: Option<u64>, mcs: Option<Vec<MarketChange<MarketDefRunnerUpdate>>>) -> (r: Result<
        Vec<MarketBook>,
        MarketChangeError,
    >)
        requires
            all_market_books_wf(self.markets@),
            mcs matches Some(v) ==> book_seq_ok(book_models(self.markets@), v@, self.config),
            mcs matches Some(v) ==> (book_seq_fold(book_models(self.markets@), v@, self.config) matches Ok(b) ==> reorder_ok(
                stamped_books(b, pt),
                book_models(self.markets@),
            )),
            mcs is None ==> reorder_ok(Seq::empty(), book_models(self.markets@)),
        ensures
            match r {
                Ok(v) => {
                    &&& all_market_books_wf(v@)
                    &&& match mcs {
                        Some(cs) => book_seq_fold(book_models(self.markets@), cs@, self.config) matches Ok(b) && book_models(v@)
                            == reordered(stamped_books(b, pt), book_models(self.markets@)),
                        None => book_models(v@) == reordered(Seq::empty(), book_models(self.markets@)),
                    }
                },
                Err(e) => mcs matches Some(cs) && book_seq_fold(book_models(self.markets@), cs@, self.config) == Err::<
                    Seq<MarketBookModel>,
                    BookOutcome,
                >(book_outcome_of(Err(e))),
            },
    {
        let ghost ms = book_models(self.markets@);
        let ghost mseq: Option<Seq<MarketChange<MarketDefRunnerUpdate>>> = if mcs is Some {
            Some(mcs->0@)
        } else {
            None
        };
        let mut next_books = match mcs {
            Some(v) => match (MarketMcSeq { markets: self.markets, config: self.config }).deserialize(v) {
                Ok(b) => {
                    assert(book_seq_fold(ms, mseq->0, self.config) == Ok::<Seq<MarketBookModel>, BookOutcome>(book_models(b@)));
                    b
                },
                Err(e) => {
                    return Err(e);
                },
            },
            None => {
                let b: Vec<MarketBook> = Vec::new();
                assert(book_models(b@) =~= Seq::<MarketBookModel>::empty());
                b
            },
        };
        let ghost b0 = book_models(next_books@);
        assert(mseq is Some ==> book_seq_fold(ms, mseq->0, self.config) == Ok::<Seq<MarketBookModel>, BookOutcome>(b0));
        assert(mseq is None ==> b0 == Seq::<MarketBookModel>::empty());
        stamp_books(&mut next_books, pt);
        let ghost stamped = book_models(next_books@);
        assert(stamped =~= stamped_books(b0, pt));
        proof {
            if mseq is Some {
                assert(mcs matches Some(v) && v@ == mseq->0);
                assert(reorder_ok(stamped_books(b0, pt), ms));
            } else {
                assert(stamped_books(b0, pt) =~= Seq::<MarketBookModel>::empty());
            }
        }
        reorder_books(&mut next_books, self.markets);
        Ok(next_books)
    }
}

/// Stamps every book with the publish time, where there is one.
fn stamp_books(next_books: &mut Vec<MarketBook>, pt: Option<u64>)
    requires
        all_market_books_wf(old(next_books)@),
    ensures
        all_market_books_wf(final(next_books)@),
        book_models(final(next_books)@) == stamped_books(book_models(old(next_books)@), pt),
{
    let ghost b0 = book_models(next_books@);
    match pt {
        Some(t) => {
            let mut k: usize = 0;
            while k < next_books.len()
                invariant
                    k <= next_books@.len(),
                    next_books@.len() == b0.len(),
                    all_market_books_wf(next_books@),
                    forall|j: int| 0 <= j < k ==> (#[trigger] next_books@[j])@ == (MarketBookModel { publish_time: t, ..b0[j] }),
                    forall|j: int| k <= j < next_books@.len() ==> (#[trigger] next_books@[j])@ == b0[j],
                decreases next_books@.len() - k,
            {
                let mut m = MarketBook {
                    market_id: String::new(),
                    publish_time: DateTime::new(0),
                    bet_delay: 0,
                    bsp_reconciled: false,
                    complete: false,
                    cross_matching: false,
                    inplay: false,
                    number_of_active_runners: 0,
                    number_of_runners: 0,
                    number_of_winners: 0,
                    runners_voidable: false,
                    status: MarketStatus::default(),
                    total_matched: 0,
                    version: 0,
                    runners: Vec::new(),
                    market_definition: MarketDefinition {
                        def: crate::market_definition::MarketDefinition::default(),
                        runners: Vec::new(),
                    },
                    is_market_data_delayed: None,
                    total_available: None,
                    last_match_time: None,
                };
                next_books.set_and_swap(k, &mut m);
                m.publish_time = DateTime::new(t);
                next_books.set_and_swap(k, &mut m);
                k = k + 1;
            }
        },
        None => {},
    }
    assert(book_models(next_books@) =~= stamped_books(b0, pt));
}

/// Puts the file's markets' books in the file's order, adding the market
/// itself where the message gave no book for it.
#[verifier::loop_isolation(false)]
fn reorder_books(next_books: &mut Vec<MarketBook>, markets: &[MarketBook])
    requires
        all_market_books_wf(old(next_books)@),
        all_market_books_wf(markets@),
        reorder_ok(book_models(old(next_books)@), book_models(markets@)),
    ensures
        all_market_books_wf(final(next_books)@),
        book_models(final(next_books)@) == reordered(book_models(old(next_books)@), book_models(markets@)),
{
    let ghost ms = book_models(markets@);
    let ghost stamped = book_models(next_books@);
    assert(ms.take(0) =~= Seq::<MarketBookModel>::empty());
    let mut i: usize = 0;
    while i < markets.len()
        invariant
            i <= ms.len(),
            ms == book_models(markets@),
            all_market_books_wf(markets@),
            all_market_books_wf(next_books@),
            reorder_ok(stamped, ms),
            book_models(next_books@) == reordered(stamped, ms.take(i as int)),
            next_books@.len() >= i,
        decreases ms.len() - i,
    {
        assert(ms.take(i + 1).drop_last() =~= ms.take(i as int));
        let ghost cur = book_models(next_books@);
        let mb = &markets[i];
        match market_book_position(next_books.as_slice(), mb.market_id.as_str()) {
            Some(ni) => {
                if ni != i {
                    assert(i < cur.len()) by {
                        assert(reordered(stamped, ms.take(i as int)) == cur);
                    }
                    let mut a = mb.clone();
                    next_books.set_and_swap(i, &mut a);
                    next_books.set_and_swap(ni, &mut a);
                    next_books.set_and_swap(i, &mut a);
                    assert(book_models(next_books@) =~= cur.update(i as int, cur[ni as int]).update(ni as int, cur[i as int]));
                }
            },
            None => {
                let c = mb.clone();
                next_books.push(c);
                let last = next_books.len() - 1;
                let ghost p = book_models(next_books@);
                assert(p =~= cur.push(ms[i as int]));
                if i != last {
                    let mut a = mb.clone();
                    next_books.set_and_swap(i, &mut a);
                    next_books.set_and_swap(last, &mut a);
                    next_books.set_and_swap(i, &mut a);
                }
                assert(book_models(next_books@) =~= p.update(i as int, p[last as int]).update(last as int, p[i as int]));
            },
        }
        i = i + 1;
    }
    assert(ms.take(i as int) =~= ms);
}

} // verus!
