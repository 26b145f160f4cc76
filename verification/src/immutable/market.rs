use vstd::prelude::*;

use crate::config::Config;
use crate::datetime::DateTime;
use crate::immutable::definition::{
    MarketDefinitionDeser, RunnerDefUpdate, def_ids_distinct, def_seq_models, defs_distinct, in_progress_ok,
    lemma_distinct_defs_in_progress_ok, next_def_model, opt_def_model, opt_models, prev_models,
};
use crate::immutable::runner::{RunnerChangeSeq, copy_runners, runners_after_keyed_changes};
use crate::market_change::{
    MarketChange, MarketChangeError, MarketChangeField, lemma_name_index, lemma_name_index_prefix,
    name_index, runners_total, total_of_runners,
};
use crate::market_definition::{MarketDefinition, MarketDefinitionModel, code_ok, country_code_ok};
use crate::runner::{Runner, RunnerModel, all_wf, models};
use crate::strings::str_eq;

verus! {

/// A market at one point of a stream. A change makes a new market; the
/// earlier one stays as it was.
pub struct Market {
    pub market_id: String,
    pub publish_time: DateTime,
    pub clk: String,
    pub runners: Vec<Runner>,
    pub total_matched: u64,
    pub def: MarketDefinition,
}

/// What a market is: its id, time and clock as given, its runners and its
/// definition as models, and its total matched in whole hundredths.
pub struct MarketModel {
    pub market_id: Seq<char>,
    pub publish_time: u64,
    pub clk: Seq<char>,
    pub runners: Seq<RunnerModel>,
    pub total_matched: u64,
    pub def: MarketDefinitionModel,
}

impl View for Market {
    type V = MarketModel;

    open spec fn view(&self) -> MarketModel {
        MarketModel {
            market_id: self.market_id@,
            publish_time: self.publish_time.0,
            clk: self.clk@,
            runners: models(self.runners@),
            total_matched: self.total_matched,
            def: self.def@,
        }
    }
}

impl Market {
    pub open spec fn wf(&self) -> bool {
        all_wf(self.runners@)
    }

    pub fn clone(&self) -> (r: Self)
        requires
            self.wf(),
        ensures
            r.wf(),
            r@ == self@,
    {
        Market {
            market_id: self.market_id.clone(),
            publish_time: self.publish_time,
            clk: self.clk.clone(),
            runners: copy_runners(self.runners.as_slice()),
            total_matched: self.total_matched,
            def: self.def.clone(),
        }
    }
}

pub open spec fn opt_market(m: Option<&Market>) -> Option<MarketModel> {
    match m {
        Some(mk) => Some(mk@),
        None => None,
    }
}

/// What the fields of a market change have produced so far: a next
/// definition, next runners and a total matched, each where a field gave
/// one.
pub struct McState {
    pub def: Option<MarketDefinitionModel>,
    pub runners: Option<Seq<RunnerModel>>,
    pub total: Option<u64>,
}

pub open spec fn base_runners(m: Option<MarketModel>) -> Seq<RunnerModel> {
    match m {
        Some(mk) => mk.runners,
        None => Seq::empty(),
    }
}

pub open spec fn base_def(m: Option<MarketModel>) -> Option<MarketDefinitionModel> {
    match m {
        Some(mk) => Some(mk.def),
        None => None,
    }
}

/// One field of a market change applied. A definition gives the next
/// definition (from the market's) and, where it lists runners, the next
/// runners; runner changes give the next runners (from those so far, else
/// the market's) and, with cumulative volumes, the total as the sum of the
/// runners'; a traded volume gives the total otherwise.
pub open spec fn mc_step(m: Option<MarketModel>, st: McState, f: MarketChangeField<RunnerDefUpdate>, cfg: Config) -> Result<
    McState,
    Seq<char>,
> {
    match f {
        MarketChangeField::Definition(u, rd) => match next_def_model(base_def(m), u) {
            Err(e) => Err(e),
            Ok(d) => Ok(
                McState {
                    def: Some(d),
                    runners: match rd {
                        Some(ds) => def_seq_models(base_runners(m), st.runners, ds@),
                        None => st.runners,
                    },
                    total: st.total,
                },
            ),
        },
        MarketChangeField::RunnerChanges(cs) => {
            let start = match st.runners {
                Some(n) => n,
                None => base_runners(m),
            };
            let rs = runners_after_keyed_changes(start, cs@, cfg);
            Ok(
                McState {
                    def: st.def,
                    runners: Some(rs),
                    total: if cfg.cumulative_runner_tv {
                        Some(runners_total(rs))
                    } else {
                        st.total
                    },
                },
            )
        },
        MarketChangeField::TradedVolume(v) => Ok(
            if cfg.cumulative_runner_tv {
                st
            } else {
                McState { total: Some(v), ..st }
            },
        ),
    }
}

/// The fields applied first to last; the first missing required field of a
/// definition stops them.
pub open spec fn mc_fold(m: Option<MarketModel>, fs: Seq<MarketChangeField<RunnerDefUpdate>>, cfg: Config) -> Result<
    McState,
    Seq<char>,
>
    decreases fs.len(),
{
    if fs.len() == 0 {
        Ok(McState { def: None, runners: None, total: None })
    } else {
        match mc_fold(m, fs.drop_last(), cfg) {
            Ok(st) => mc_step(m, st, fs.last(), cfg),
            Err(e) => Err(e),
        }
    }
}

/// A missing field stops the fields that follow it.
pub proof fn lemma_fold_err(m: Option<MarketModel>, fs: Seq<MarketChangeField<RunnerDefUpdate>>, cfg: Config, n: int)
    requires
        0 <= n <= fs.len(),
        mc_fold(m, fs.take(n), cfg) is Err,
    ensures
        mc_fold(m, fs, cfg) == mc_fold(m, fs.take(n), cfg),
    decreases fs.len() - n,
{
    if n < fs.len() {
        assert(fs.take(n + 1).drop_last() =~= fs.take(n));
        lemma_fold_err(m, fs, cfg, n + 1);
    } else {
        assert(fs.take(n) =~= fs);
    }
}

/// What a market change gives.
pub enum McOutcome {
    Done(MarketModel),
    Missing(Seq<char>),
    NoSelections,
    NoDefinition,
}

/// The market after a change: the earlier market with what the fields
/// gave; a new market needs runners and a definition.
pub open spec fn mc_outcome(id: Seq<char>, m: Option<MarketModel>, fs: Seq<MarketChangeField<RunnerDefUpdate>>, cfg: Config) -> McOutcome {
    match mc_fold(m, fs, cfg) {
        Err(e) => McOutcome::Missing(e),
        Ok(st) => match m {
            Some(mk) => McOutcome::Done(
                MarketModel {
                    total_matched: match st.total {
                        Some(t) => t,
                        None => mk.total_matched,
                    },
                    runners: match st.runners {
                        Some(rs) => rs,
                        None => mk.runners,
                    },
                    def: match st.def {
                        Some(d) => d,
                        None => mk.def,
                    },
                    ..mk
                },
            ),
            None => if st.runners is None {
                McOutcome::NoSelections
            } else if st.def is None {
                McOutcome::NoDefinition
            } else {
                McOutcome::Done(
                    MarketModel {
                        market_id: id,
                        publish_time: 0,
                        clk: Seq::empty(),
                        runners: st.runners->0,
                        total_matched: match st.total {
                            Some(t) => t,
                            None => 0,
                        },
                        def: st.def->0,
                    },
                )
            },
        },
    }
}

/// With cumulative volumes (historic files), a market's traded volume
/// field changes nothing: the fields read as if it were not there.
pub proof fn lemma_cumulative_ignores_market_tv(
    m: Option<MarketModel>,
    fs: Seq<MarketChangeField<RunnerDefUpdate>>,
    v: u64,
    cfg: Config,
)
    requires
        cfg.cumulative_runner_tv,
    ensures
        mc_fold(m, fs.push(MarketChangeField::TradedVolume(v)), cfg) == mc_fold(m, fs, cfg),
{
    assert(fs.push(MarketChangeField::TradedVolume(v)).drop_last() =~= fs);
}

/// With cumulative volumes (historic files), a market change whose last
/// field is runner changes leaves the market's total matched as the sum of
/// its runners' totals.
pub proof fn lemma_cumulative_market_total(
    id: Seq<char>,
    m: Option<MarketModel>,
    fs: Seq<MarketChangeField<RunnerDefUpdate>>,
    cs: Vec<crate::runner::RunnerChange>,
    cfg: Config,
)
    requires
        cfg.cumulative_runner_tv,
    ensures
        mc_outcome(id, m, fs.push(MarketChangeField::RunnerChanges(cs)), cfg) matches McOutcome::Done(mk)
            ==> mk.total_matched == runners_total(mk.runners),
{
    assert(fs.push(MarketChangeField::RunnerChanges(cs)).drop_last() =~= fs);
}

pub open spec fn outcome_of(r: Result<Market, MarketChangeError>) -> McOutcome {
    match r {
        Ok(mk) => McOutcome::Done(mk@),
        Err(MarketChangeError::MissingField(f)) => McOutcome::Missing(f@),
        Err(MarketChangeError::NoSelections) => McOutcome::NoSelections,
        Err(MarketChangeError::NoDefinition) => McOutcome::NoDefinition,
    }
}

/// The fields can be applied without fault: each definition's country code
/// is two bytes, and runners listed where runners are already being
/// changed have distinct identities.
pub open spec fn fields_ok(m: Option<MarketModel>, fs: Seq<MarketChangeField<RunnerDefUpdate>>, cfg: Config) -> bool {
    forall|k: int|
        0 <= k < fs.len() ==> match #[trigger] fs[k] {
            MarketChangeField::Definition(u, rd) => {
                &&& (country_code_ok(u) || (next_def_model(base_def(m), u) matches Err(f) && f != "openDate"@))
                &&& (rd matches Some(ds) ==> (mc_fold(m, fs.take(k), cfg) matches Ok(st) ==> (
                st.runners matches Some(n) ==> in_progress_ok(n, ds@))))
            },
            _ => true,
        }
}

/// One market change (`mc` entry) applied to the market it is for, or to a
/// new market.
pub struct MarketMc<'a> {
    pub id: String,
    pub market: Option<&'a Market>,
    pub config: Config,
}

impl<'a> MarketMc<'a> {
    #[verifier::rlimit(60)]
    #[verifier::loop_isolation(false)]
    pub fn deserialize(self, fields: Vec<MarketChangeField<RunnerDefUpdate>>) -> (r: Result<Market, MarketChangeError>)
        requires
            self.market matches Some(mk) ==> mk.wf(),
            fields_ok(opt_market(self.market), fields@, self.config),
        ensures
            outcome_of(r) == mc_outcome(self.id@, opt_market(self.market), fields@, self.config),
            r matches Ok(mk) ==> mk.wf(),
    {
        let ghost m = opt_market(self.market);
        let ghost fs = fields@;
        let cfg = self.config;
        let mut fields = fields;
        let mut next_def: Option<MarketDefinition> = None;
        let mut next_runners: Option<Vec<Runner>> = None;
        let mut total: Option<u64> = None;
        let (base_def_ref, base_runners_ref): (Option<&MarketDefinition>, Option<&[Runner]>) = match self.market {
            Some(mk) => (Some(&mk.def), Some(mk.runners.as_slice())),
            None => (None, None),
        };
        let mut i: usize = 0;
        while i < fields.len()
            invariant
                fs.len() == fields@.len(),
                forall|k: int| i <= k < fs.len() ==> fields@[k] == fs[k],
                i <= fs.len(),
                m == opt_market(self.market),
                cfg == self.config,
                fields_ok(m, fs, cfg),
                self.market matches Some(mk) ==> mk.wf(),
                prev_models(base_runners_ref) == base_runners(m),
                base_runners_ref matches Some(s) ==> all_wf(s@),
                opt_def_model(base_def_ref) == base_def(m),
                next_runners matches Some(n) ==> all_wf(n@),
                mc_fold(m, fs.take(i as int), cfg) == Ok::<McState, Seq<char>>(
                    McState {
                        def: match next_def {
                            Some(d) => Some(d@),
                            None => None,
                        },
                        runners: opt_models(next_runners),
                        total,
                    },
                ),
            decreases fs.len() - i,
        {
            assert(fs.take(i + 1).drop_last() =~= fs.take(i as int));
            let mut f = MarketChangeField::TradedVolume(0);
            fields.set_and_swap(i, &mut f);
            assert(f == fs[i as int]);
            match f {
                MarketChangeField::Definition(u, rd) => {
                    let deser = MarketDefinitionDeser {
                        def: base_def_ref,
                        runners: base_runners_ref,
                        next_runners,
                    };
                    let defs: Option<&[RunnerDefUpdate]> = match &rd {
                        Some(v) => Some(v.as_slice()),
                        None => None,
                    };
                    match deser.deserialize(u, defs) {
                        Ok((d, nr)) => {
                            next_def = Some(d);
                            next_runners = nr;
                        },
                        Err(e) => {
                            proof {
                                assert(next_def_model(base_def(m), u) == Err::<MarketDefinitionModel, Seq<char>>(e.missing_field@));
                                assert(fs.take(i + 1).last() == fs[i as int]);
                                assert(mc_fold(m, fs.take(i + 1), cfg) == Err::<McState, Seq<char>>(e.missing_field@));
                                lemma_fold_err(m, fs, cfg, i + 1);
                                assert(mc_fold(m, fs, cfg) == Err::<McState, Seq<char>>(e.missing_field@));
                            }
                            return Err(MarketChangeError::MissingField(e.missing_field));
                        },
                    }
                },
                MarketChangeField::RunnerChanges(cs) => {
                    let nr = RunnerChangeSeq {
                        runners: base_runners_ref,
                        next: next_runners,
                        config: cfg,
                    }.deserialize(cs.as_slice());
                    if cfg.cumulative_runner_tv {
                        total = match &nr {
                            Some(v) => Some(total_of_runners(v.as_slice())),
                            None => total,
                        };
                    }
                    next_runners = nr;
                },
                MarketChangeField::TradedVolume(v) => {
                    if !cfg.cumulative_runner_tv {
                        total = Some(v);
                    }
                },
            }
            i = i + 1;
        }
        assert(fs.take(i as int) =~= fs);
        match self.market {
            Some(mk) => Ok(
                Market {
                    market_id: mk.market_id.clone(),
                    publish_time: mk.publish_time,
                    clk: mk.clk.clone(),
                    total_matched: match total {
                        Some(t) => t,
                        None => mk.total_matched,
                    },
                    runners: match next_runners {
                        Some(rs) => rs,
                        None => copy_runners(mk.runners.as_slice()),
                    },
                    def: match next_def {
                        Some(d) => d,
                        None => mk.def.clone(),
                    },
                },
            ),
            None => {
                let runners = match next_runners {
                    Some(rs) => rs,
                    None => {
                        return Err(MarketChangeError::NoSelections);
                    },
                };
                let def = match next_def {
                    Some(d) => d,
                    None => {
                        return Err(MarketChangeError::NoDefinition);
                    },
                };
                Ok(
                    Market {
                        market_id: self.id,
                        publish_time: DateTime::new(0),
                        clk: String::new(),
                        total_matched: match total {
                            Some(t) => t,
                            None => 0,
                        },
                        runners,
                        def,
                    },
                )
            },
        }
    }
}

pub open spec fn market_models(v: Seq<Market>) -> Seq<MarketModel> {
    v.map_values(|m: Market| m@)
}

pub open spec fn market_ids(ms: Seq<MarketModel>) -> Seq<Seq<char>> {
    ms.map_values(|m: MarketModel| m.market_id)
}

pub open spec fn all_markets_wf(v: Seq<Market>) -> bool {
    forall|k: int| 0 <= k < v.len() ==> (#[trigger] v[k]).wf()
}

/// Where the first market with the given id stands.
pub fn market_position(ms: &[Market], id: &str) -> (r: Option<usize>)
    ensures
        match r {
            Some(i) => i < ms@.len() && name_index(market_ids(market_models(ms@)), id@) == i,
            None => name_index(market_ids(market_models(ms@)), id@) == -1,
        },
{
    let ghost names = market_ids(market_models(ms@));
    let mut i: usize = 0;
    while i < ms.len()
        invariant
            i <= ms@.len(),
            names == market_ids(market_models(ms@)),
            name_index(names.take(i as int), id@) == -1,
        decreases ms@.len() - i,
    {
        assert(names.take(i + 1).drop_last() =~= names.take(i as int));
        if str_eq(ms[i].market_id.as_str(), id) {
            proof {
                lemma_name_index_prefix(names, id@, i as int + 1);
            }
            return Some(i);
        }
        i = i + 1;
    }
    assert(names.take(i as int) =~= names);
    None
}

/// The market a change applies to: the one this message has already
/// produced, else the file's; none for a full image (`img`), which starts
/// the market afresh.
pub open spec fn mc_source(markets: Seq<MarketModel>, books: Seq<MarketModel>, id: Seq<char>, img: bool) -> Option<
    MarketModel,
> {
    let i = name_index(market_ids(books), id);
    if img {
        None
    } else if i >= 0 {
        Some(books[i])
    } else {
        let j = name_index(market_ids(markets), id);
        if j >= 0 {
            Some(markets[j])
        } else {
            None
        }
    }
}

/// The markets a message has produced, after one more market change: the
/// market replaces the one of its id produced earlier, else is added.
pub open spec fn seq_step(markets: Seq<MarketModel>, books: Seq<MarketModel>, mc: MarketChange<RunnerDefUpdate>, cfg: Config) -> Result<
    Seq<MarketModel>,
    McOutcome,
> {
    let i = name_index(market_ids(books), mc.id@);
    match mc_outcome(mc.id@, mc_source(markets, books, mc.id@, mc.img), mc.fields@, cfg) {
        McOutcome::Done(mk) => Ok(
            if i >= 0 {
                books.update(i, mk)
            } else {
                books.push(mk)
            },
        ),
        o => Err(o),
    }
}

pub open spec fn seq_fold(markets: Seq<MarketModel>, mcs: Seq<MarketChange<RunnerDefUpdate>>, cfg: Config) -> Result<
    Seq<MarketModel>,
    McOutcome,
>
    decreases mcs.len(),
{
    if mcs.len() == 0 {
        Ok(Seq::empty())
    } else {
        match seq_fold(markets, mcs.drop_last(), cfg) {
            Ok(books) => seq_step(markets, books, mcs.last(), cfg),
            Err(e) => Err(e),
        }
    }
}

pub proof fn lemma_seq_err(markets: Seq<MarketModel>, mcs: Seq<MarketChange<RunnerDefUpdate>>, cfg: Config, n: int)
    requires
        0 <= n <= mcs.len(),
        seq_fold(markets, mcs.take(n), cfg) is Err,
    ensures
        seq_fold(markets, mcs, cfg) == seq_fold(markets, mcs.take(n), cfg),
    decreases mcs.len() - n,
{
    if n < mcs.len() {
        assert(mcs.take(n + 1).drop_last() =~= mcs.take(n));
        lemma_seq_err(markets, mcs, cfg, n + 1);
    } else {
        assert(mcs.take(n) =~= mcs);
    }
}

/// Every market change of the message can be applied without fault.
pub open spec fn seq_ok(markets: Seq<MarketModel>, mcs: Seq<MarketChange<RunnerDefUpdate>>, cfg: Config) -> bool {
    forall|k: int|
        0 <= k < mcs.len() ==> (seq_fold(markets, mcs.take(k), cfg) matches Ok(books) ==> fields_ok(
            mc_source(markets, books, (#[trigger] mcs[k]).id@, mcs[k].img),
            mcs[k].fields@,
            cfg,
        ))
}

/// A field whose definition, if it is one, gives a two-byte country code
/// (where it gives one) and names each runner once.
pub open spec fn field_well_formed(f: MarketChangeField<RunnerDefUpdate>) -> bool {
    match f {
        MarketChangeField::Definition(u, rd) => country_code_ok(u) && (rd matches Some(ds) ==> def_ids_distinct(ds@)),
        _ => true,
    }
}

/// Every field of every market change is well formed.
pub open spec fn changes_well_formed(mcs: Seq<MarketChange<RunnerDefUpdate>>) -> bool {
    forall|k: int, f: int|
        0 <= k < mcs.len() && 0 <= f < mcs[k].fields@.len() ==> field_well_formed(#[trigger] mcs[k].fields@[f])
}

proof fn lemma_well_formed_fields_ok(m: Option<MarketModel>, fs: Seq<MarketChangeField<RunnerDefUpdate>>, cfg: Config)
    requires
        forall|f: int| 0 <= f < fs.len() ==> field_well_formed(#[trigger] fs[f]),
    ensures
        fields_ok(m, fs, cfg),
{
    assert forall|k: int| 0 <= k < fs.len() implies match #[trigger] fs[k] {
        MarketChangeField::Definition(u, rd) => {
            &&& (country_code_ok(u) || (next_def_model(base_def(m), u) matches Err(f) && f != "openDate"@))
            &&& (rd matches Some(ds) ==> (mc_fold(m, fs.take(k), cfg) matches Ok(st) ==> (st.runners matches Some(
                n,
            ) ==> in_progress_ok(n, ds@))))
        },
        _ => true,
    } by {
        assert(field_well_formed(fs[k]));
        match fs[k] {
            MarketChangeField::Definition(u, rd) => {
                match rd {
                    Some(ds) => match mc_fold(m, fs.take(k), cfg) {
                        Ok(st) => match st.runners {
                            Some(n) => {
                                lemma_distinct_defs_in_progress_ok(n, ds@);
                            },
                            None => {},
                        },
                        Err(_) => {},
                    },
                    None => {},
                }
            },
            _ => {},
        }
    }
}

/// Market changes whose definitions give two-byte country codes and name
/// each runner once can be applied to any markets without fault.
pub proof fn lemma_well_formed_changes_apply(markets: Seq<MarketModel>, mcs: Seq<MarketChange<RunnerDefUpdate>>, cfg: Config)
    requires
        changes_well_formed(mcs),
    ensures
        seq_ok(markets, mcs, cfg),
{
    assert forall|k: int| 0 <= k < mcs.len() && seq_fold(markets, mcs.take(k), cfg) is Ok implies fields_ok(
        mc_source(markets, seq_fold(markets, mcs.take(k), cfg)->Ok_0, (#[trigger] mcs[k]).id@, mcs[k].img),
        mcs[k].fields@,
        cfg,
    ) by {
        let fs = mcs[k].fields@;
        assert forall|f: int| 0 <= f < fs.len() implies field_well_formed(#[trigger] fs[f]) by {
            assert(field_well_formed(mcs[k].fields@[f]));
        }
        lemma_well_formed_fields_ok(
            mc_source(markets, seq_fold(markets, mcs.take(k), cfg)->Ok_0, mcs[k].id@, mcs[k].img),
            fs,
            cfg,
        );
    }
}

/// Whether every definition of the market changes gives a two-byte country
/// code (where it gives one) and names each runner once.
pub fn changes_are_well_formed(mcs: &[MarketChange<RunnerDefUpdate>]) -> (r: bool)
    ensures
        r == changes_well_formed(mcs@),
{
    let mut k: usize = 0;
    while k < mcs.len()
        invariant
            k <= mcs@.len(),
            forall|a: int, f: int|
                0 <= a < k && 0 <= f < mcs@[a].fields@.len() ==> field_well_formed(#[trigger] mcs@[a].fields@[f]),
        decreases mcs@.len() - k,
    {
        let fs = &mcs[k].fields;
        let mut f: usize = 0;
        while f < fs.len()
            invariant
                k < mcs@.len(),
                fs@ == mcs@[k as int].fields@,
                f <= fs@.len(),
                forall|a: int, g: int|
                    0 <= a < k && 0 <= g < mcs@[a].fields@.len() ==> field_well_formed(#[trigger] mcs@[a].fields@[g]),
                forall|g: int| 0 <= g < f ==> field_well_formed(#[trigger] fs@[g]),
            decreases fs@.len() - f,
        {
            let ok = match &fs[f] {
                MarketChangeField::Definition(u, rd) => code_ok(u) && match rd {
                    Some(ds) => defs_distinct(ds.as_slice()),
                    None => true,
                },
                _ => true,
            };
            if !ok {
                assert(!field_well_formed(mcs@[k as int].fields@[f as int]));
                return false;
            }
            f = f + 1;
        }
        assert forall|a: int, g: int|
            0 <= a < k + 1 && 0 <= g < mcs@[a].fields@.len() implies field_well_formed(#[trigger] mcs@[a].fields@[g]) by {
            if a == k {
                assert(field_well_formed(fs@[g]));
            }
        }
        k = k + 1;
    }
    true
}

/// The market changes of a message (`mc`), producing the markets the
/// message changes, in the order in which it first names them.
pub struct MarketMcSeq<'a> {
    pub markets: &'a [Market],
    pub config: Config,
}

impl<'a> MarketMcSeq<'a> {
    #[verifier::loop_isolation(false)]
    pub fn deserialize(self, mcs: Vec<MarketChange<RunnerDefUpdate>>) -> (r: Result<Vec<Market>, MarketChangeError>)
        requires
            all_markets_wf(self.markets@),
            seq_ok(market_models(self.markets@), mcs@, self.config),
        ensures
            match r {
                Ok(v) => all_markets_wf(v@) && seq_fold(market_models(self.markets@), mcs@, self.config) == Ok::<
                    Seq<MarketModel>,
                    McOutcome,
                >(market_models(v@)),
                Err(e) => seq_fold(market_models(self.markets@), mcs@, self.config) == Err::<
                    Seq<MarketModel>,
                    McOutcome,
                >(outcome_of(Err(e))),
            },
    {
        let ghost ms = market_models(self.markets@);
        let ghost cs = mcs@;
        let cfg = self.config;
        let mut mcs = mcs;
        let mut next_books: Vec<Market> = Vec::new();
        let mut i: usize = 0;
        assert(market_models(next_books@) =~= Seq::<MarketModel>::empty());
        while i < mcs.len()
            invariant
                cs.len() == mcs@.len(),
                forall|k: int| i <= k < cs.len() ==> mcs@[k] == cs[k],
                i <= cs.len(),
                all_markets_wf(next_books@),
                seq_fold(ms, cs.take(i as int), cfg) == Ok::<Seq<MarketModel>, McOutcome>(market_models(next_books@)),
            decreases cs.len() - i,
        {
            assert(cs.take(i + 1).drop_last() =~= cs.take(i as int));
            let mut mc = MarketChange { id: String::new(), img: false, fields: Vec::new() };
            mcs.set_and_swap(i, &mut mc);
            assert(mc == cs[i as int]);
            let MarketChange { id, img, fields } = mc;
            let pos = market_position(next_books.as_slice(), id.as_str());
            let source: Option<&Market> = if img {
                None
            } else {
                match pos {
                    Some(p) => Some(&next_books[p]),
                    None => match market_position(self.markets, id.as_str()) {
                        Some(j) => Some(&self.markets[j]),
                        None => None,
                    },
                }
            };
            assert(opt_market(source) == mc_source(ms, market_models(next_books@), id@, img));
            let result = MarketMc { id, market: source, config: cfg }.deserialize(fields);
            match result {
                Ok(m) => {
                    let ghost before = next_books@;
                    match pos {
                        Some(p) => {
                            next_books.set(p, m);
                            assert(market_models(next_books@) =~= market_models(before).update(p as int, m@));
                        },
                        None => {
                            next_books.push(m);
                            assert(market_models(next_books@) =~= market_models(before).push(m@));
                        },
                    }
                },
                Err(e) => {
                    proof {
                        lemma_seq_err(ms, cs, cfg, i + 1);
                    }
                    return Err(e);
                },
            }
            i = i + 1;
        }
        assert(cs.take(i as int) =~= cs);
        Ok(next_books)
    }
}

/// The markets after stamping them with a message's publish time and clock,
/// where the message gives both.
pub open spec fn stamped(books: Seq<MarketModel>, pt: Option<u64>, clk: Option<Seq<char>>) -> Seq<MarketModel> {
    if pt is Some && clk is Some {
        books.map_values(|b: MarketModel| MarketModel { publish_time: pt->0, clk: clk->0, ..b })
    } else {
        books
    }
}

pub open spec fn opt_text_of(s: Option<String>) -> Option<Seq<char>> {
    match s {
        Some(t) => Some(t@),
        None => None,
    }
}

/// A message of the stream (`op`, `pt`, `clk`, `mc`), producing the markets
/// it changes, stamped with its publish time and clock.
pub struct MarketsDeser<'a> {
    pub markets: &'a [Market],
    pub config: Config,
}

impl<'a> MarketsDeser<'a> {
    pub fn deserialize(self, pt: Option<u64>, clk: Option<String>, mcs: Option<Vec<MarketChange<RunnerDefUpdate>>>) -> (r: Result<
        Vec<Market>,
        MarketChangeError,
    >)
        requires
            all_markets_wf(self.markets@),
            mcs matches Some(v) ==> seq_ok(market_models(self.markets@), v@, self.config),
        ensures
            match mcs {
                None => r matches Ok(v) && v@.len() == 0,
                Some(cs) => match r {
                    Ok(v) => {
                        &&& all_markets_wf(v@)
                        &&& seq_fold(market_models(self.markets@), cs@, self.config) matches Ok(books)
                        &&& market_models(v@) == stamped(books, pt, opt_text_of(clk))
                    },
                    Err(e) => seq_fold(market_models(self.markets@), cs@, self.config) == Err::<
                        Seq<MarketModel>,
                        McOutcome,
                    >(outcome_of(Err(e))),
                },
            },
    {
        let mut books = match mcs {
            Some(v) => match (MarketMcSeq { markets: self.markets, config: self.config }).deserialize(v) {
                Ok(b) => b,
                Err(e) => {
                    return Err(e);
                },
            },
            None => Vec::new(),
        };
        match (pt, clk) {
            (Some(t), Some(c)) => {
                let ghost before = market_models(books@);
                let mut i: usize = 0;
                while i < books.len()
                    invariant
                        i <= books@.len(),
                        books@.len() == before.len(),
                        all_markets_wf(books@),
                        forall|k: int| 0 <= k < i ==> (#[trigger] books@[k])@ == (MarketModel {
                            publish_time: t,
                            clk: c@,
                            ..before[k]
                        }),
                        forall|k: int| i <= k < books@.len() ==> (#[trigger] books@[k])@ == before[k],
                    decreases books@.len() - i,
                {
                    let mut m = Market {
                        market_id: String::new(),
                        publish_time: DateTime::new(0),
                        clk: String::new(),
                        runners: Vec::new(),
                        total_matched: 0,
                        def: MarketDefinition::default(),
                    };
                    books.set_and_swap(i, &mut m);
                    m.publish_time = DateTime::new(t);
                    m.clk = c.clone();
                    books.set_and_swap(i, &mut m);
                    i = i + 1;
                }
                assert(market_models(books@) =~= stamped(before, Some(t), Some(c@)));
            },
            _ => {},
        }
        Ok(books)
    }
}

} // verus!
