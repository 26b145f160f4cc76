use vstd::prelude::*;

use crate::config::Config;
use crate::datetime::DateTime;
use crate::immutable::market::opt_text_of;
use crate::market_change::{
    MarketChange, MarketChangeError, MarketChangeField, lemma_name_index_prefix, name_index,
    runners_total, total_of_runners,
};
use crate::market_definition::{
    MarketDefinition, MarketDefinitionModel, code_ok, country_code_ok, default_definition, update_ok,
    definition_after_update, update_missing,
};
use crate::runner::{
    Runner, RunnerChangeSeqDeser, RunnerDefSeqDeser, RunnerDefUpdate, RunnerModel, all_wf, def_ids_distinct,
    defs_distinct, defs_in_place, defs_in_place_ok, lemma_distinct_defs_in_place_ok, models,
    runners_after_changes,
};
use crate::strings::str_eq;

verus! {

/// A market whose changes are applied in place.
pub struct MarketMut {
    pub market_id: String,
    pub clk: String,
    pub publish_time: DateTime,
    pub total_matched: u64,
    pub runners: Vec<Runner>,
    pub def: MarketDefinition,
}

pub struct MarketMutModel {
    pub market_id: Seq<char>,
    pub clk: Seq<char>,
    pub publish_time: u64,
    pub total_matched: u64,
    pub runners: Seq<RunnerModel>,
    pub def: MarketDefinitionModel,
}

impl View for MarketMut {
    type V = MarketMutModel;

    open spec fn view(&self) -> MarketMutModel {
        MarketMutModel {
            market_id: self.market_id@,
            clk: self.clk@,
            publish_time: self.publish_time.0,
            total_matched: self.total_matched,
            runners: models(self.runners@),
            def: self.def@,
        }
    }
}

/// A market seen for the first time: nothing yet but its id.
pub open spec fn new_market(id: Seq<char>) -> MarketMutModel {
    MarketMutModel {
        market_id: id,
        clk: Seq::empty(),
        publish_time: 0,
        total_matched: 0,
        runners: Seq::empty(),
        def: default_definition(),
    }
}

impl MarketMut {
    pub open spec fn wf(&self) -> bool {
        all_wf(self.runners@)
    }

    pub fn new(market_id: String) -> (r: Self)
        ensures
            r.wf(),
            r@ == new_market(market_id@),
    {
        let r = MarketMut {
            market_id,
            clk: String::new(),
            publish_time: DateTime::default(),
            total_matched: 0,
            runners: Vec::new(),
            def: MarketDefinition::default(),
        };
        assert(models(r.runners@) =~= Seq::<RunnerModel>::empty());
        r
    }

    /// A copy of the market, with runners of its own.
    pub fn clone(&self) -> (r: Self)
        requires
            self.wf(),
        ensures
            r.wf(),
            r@ == self@,
    {
        MarketMut {
            market_id: self.market_id.clone(),
            clk: self.clk.clone(),
            publish_time: self.publish_time,
            total_matched: self.total_matched,
            runners: crate::immutable::runner::copy_runners(self.runners.as_slice()),
            def: self.def.clone(),
        }
    }
}

/// One field of a market change applied in place, and the required field
/// that a definition lacked, if any (the fields of the definition before it
/// are set all the same). A definition puts the runners in its order; runner
/// changes change them and, with cumulative volumes, make the total the sum
/// of theirs; a traded volume is the total otherwise.
pub open spec fn mut_step(mm: MarketMutModel, f: MarketChangeField<RunnerDefUpdate>, cfg: Config) -> (
    MarketMutModel,
    Option<Seq<char>>,
) {
    match f {
        MarketChangeField::Definition(u, rd) => {
            let rs = match rd {
                Some(ds) => defs_in_place(mm.runners, ds@).take(ds@.len() as int),
                None => mm.runners,
            };
            (
                MarketMutModel { runners: rs, def: definition_after_update(mm.def, u), ..mm },
                update_missing(u),
            )
        },
        MarketChangeField::RunnerChanges(cs) => {
            let rs = runners_after_changes(mm.runners, cs@, cfg);
            (
                MarketMutModel {
                    runners: rs,
                    total_matched: if cfg.cumulative_runner_tv {
                        runners_total(rs)
                    } else {
                        mm.total_matched
                    },
                    ..mm
                },
                None,
            )
        },
        MarketChangeField::TradedVolume(v) => (
            if cfg.cumulative_runner_tv {
                mm
            } else {
                MarketMutModel { total_matched: v, ..mm }
            },
            None,
        ),
    }
}

/// The fields applied in place, first to last, up to the first that fails.
pub open spec fn mut_fold(mm: MarketMutModel, fs: Seq<MarketChangeField<RunnerDefUpdate>>, cfg: Config) -> (
    MarketMutModel,
    Option<Seq<char>>,
)
    decreases fs.len(),
{
    if fs.len() == 0 {
        (mm, None)
    } else {
        let (m, e) = mut_fold(mm, fs.drop_last(), cfg);
        if e is Some {
            (m, e)
        } else {
            mut_step(m, fs.last(), cfg)
        }
    }
}

/// With cumulative volumes (historic files), a market's traded volume
/// field changes nothing in place; otherwise the stream sends the market's
/// total itself, and it becomes the market's total.
pub proof fn lemma_market_tv_in_place(mm: MarketMutModel, fs: Seq<MarketChangeField<RunnerDefUpdate>>, v: u64, cfg: Config)
    ensures
        ({
            let (before, e) = mut_fold(mm, fs, cfg);
            let (after, e2) = mut_fold(mm, fs.push(MarketChangeField::TradedVolume(v)), cfg);
            &&& e2 == e
            &&& cfg.cumulative_runner_tv ==> after == before
            &&& (!cfg.cumulative_runner_tv && e is None) ==> after == MarketMutModel {
                total_matched: v,
                ..before
            }
        }),
{
    assert(fs.push(MarketChangeField::TradedVolume(v)).drop_last() =~= fs);
}

/// With cumulative volumes (historic files), runner changes applied in
/// place leave the market's total matched as the sum of its runners'
/// totals.
pub proof fn lemma_cumulative_total_in_place(
    mm: MarketMutModel,
    fs: Seq<MarketChangeField<RunnerDefUpdate>>,
    cs: Vec<crate::runner::RunnerChange>,
    cfg: Config,
)
    requires
        cfg.cumulative_runner_tv,
    ensures
        ({
            let (after, e) = mut_fold(mm, fs.push(MarketChangeField::RunnerChanges(cs)), cfg);
            e is None ==> after.total_matched == runners_total(after.runners)
        }),
{
    assert(fs.push(MarketChangeField::RunnerChanges(cs)).drop_last() =~= fs);
}

pub proof fn lemma_mut_fold_err(mm: MarketMutModel, fs: Seq<MarketChangeField<RunnerDefUpdate>>, cfg: Config, n: int)
    requires
        0 <= n <= fs.len(),
        mut_fold(mm, fs.take(n), cfg).1 is Some,
    ensures
        mut_fold(mm, fs, cfg) == mut_fold(mm, fs.take(n), cfg),
    decreases fs.len() - n,
{
    if n < fs.len() {
        assert(fs.take(n + 1).drop_last() =~= fs.take(n));
        lemma_mut_fold_err(mm, fs, cfg, n + 1);
    } else {
        assert(fs.take(n) =~= fs);
    }
}

/// The fields can be applied without fault: each definition's country code
/// is two bytes, and its runners can be put in its order in place.
pub open spec fn mut_fields_ok(mm: MarketMutModel, fs: Seq<MarketChangeField<RunnerDefUpdate>>, cfg: Config) -> bool {
    forall|k: int|
        0 <= k < fs.len() ==> match #[trigger] fs[k] {
            MarketChangeField::Definition(u, rd) => {
                &&& update_ok(u)
                &&& (rd matches Some(ds) ==> (mut_fold(mm, fs.take(k), cfg).1 is None ==> defs_in_place_ok(
                    mut_fold(mm, fs.take(k), cfg).0.runners,
                    ds@,
                )))
            },
            _ => true,
        }
}

/// Applies one field of a market change to the market in place.
#[verifier::rlimit(40)]
fn apply_field(market: &mut MarketMut, f: MarketChangeField<RunnerDefUpdate>, config: Config) -> (r: Result<
    (),
    MarketChangeError,
>)
    requires
        old(market).wf(),
        f matches MarketChangeField::Definition(u, rd) ==> update_ok(u) && (rd matches Some(ds)
            ==> defs_in_place_ok(old(market)@.runners, ds@)),
    ensures
        final(market).wf(),
        final(market)@ == mut_step(old(market)@, f, config).0,
        match r {
            Ok(()) => mut_step(old(market)@, f, config).1 is None,
            Err(MarketChangeError::MissingField(e)) => mut_step(old(market)@, f, config).1 == Some(e@),
            Err(_) => false,
        },
{
    match f {
        MarketChangeField::Definition(u, rd) => {
            match &rd {
                Some(ds) => {
                    RunnerDefSeqDeser { defs: ds.as_slice() }.deserialize(&mut market.runners);
                },
                None => {},
            }
            match u.update(&mut market.def) {
                Ok(()) => Ok(()),
                Err(e) => Err(MarketChangeError::MissingField(e.missing_field)),
            }
        },
        MarketChangeField::RunnerChanges(cs) => {
            RunnerChangeSeqDeser { changes: cs.as_slice(), config }.deserialize(&mut market.runners);
            if config.cumulative_runner_tv {
                market.total_matched = total_of_runners(market.runners.as_slice());
            }
            Ok(())
        },
        MarketChangeField::TradedVolume(v) => {
            if !config.cumulative_runner_tv {
                market.total_matched = v;
            }
            Ok(())
        },
    }
}

/// Applies the fields of a market change to the market in place.
#[verifier::loop_isolation(false)]
pub fn apply_market_change(market: &mut MarketMut, fields: Vec<MarketChangeField<RunnerDefUpdate>>, config: Config) -> (r: Result<
    (),
    MarketChangeError,
>)
    requires
        old(market).wf(),
        mut_fields_ok(old(market)@, fields@, config),
    ensures
        final(market).wf(),
        final(market)@ == mut_fold(old(market)@, fields@, config).0,
        match r {
            Ok(()) => mut_fold(old(market)@, fields@, config).1 is None,
            Err(MarketChangeError::MissingField(f)) => mut_fold(old(market)@, fields@, config).1 == Some(f@),
            Err(_) => false,
        },
{
    let ghost start = market@;
    let ghost fs = fields@;
    let mut fields = fields;
    let mut i: usize = 0;
    while i < fields.len()
        invariant
            fs.len() == fields@.len(),
            forall|k: int| i <= k < fs.len() ==> fields@[k] == fs[k],
            i <= fs.len(),
            market.wf(),
            mut_fold(start, fs.take(i as int), config) == (market@, None::<Seq<char>>),
        decreases fs.len() - i,
    {
        assert(fs.take(i + 1).drop_last() =~= fs.take(i as int));
        let mut f = MarketChangeField::TradedVolume(0);
        fields.set_and_swap(i, &mut f);
        assert(f == fs[i as int]);
        assert(match fs[i as int] {
            MarketChangeField::Definition(u, rd) => {
                &&& update_ok(u)
                &&& (rd matches Some(ds) ==> (mut_fold(start, fs.take(i as int), config).1 is None ==> defs_in_place_ok(
                    mut_fold(start, fs.take(i as int), config).0.runners,
                    ds@,
                )))
            },
            _ => true,
        });
        match apply_field(market, f, config) {
            Ok(()) => {},
            Err(e) => {
                proof {
                    lemma_mut_fold_err(start, fs, config, i + 1);
                }
                return Err(e);
            },
        }
        i = i + 1;
    }
    assert(fs.take(i as int) =~= fs);
    Ok(())
}

/// A market a message changed: one of the file's markets, by its place, or
/// a new one.
pub enum MutBook {
    Existing(usize),
    Created(MarketMut),
}

pub enum MutBookModel {
    Existing(usize),
    Created(MarketMutModel),
}

pub open spec fn book_model(b: MutBook) -> MutBookModel {
    match b {
        MutBook::Existing(i) => MutBookModel::Existing(i),
        MutBook::Created(m) => MutBookModel::Created(m@),
    }
}

pub open spec fn book_models(v: Seq<MutBook>) -> Seq<MutBookModel> {
    v.map_values(|b: MutBook| book_model(b))
}

pub open spec fn mut_models(v: Seq<MarketMut>) -> Seq<MarketMutModel> {
    v.map_values(|m: MarketMut| m@)
}

pub open spec fn all_mut_wf(v: Seq<MarketMut>) -> bool {
    forall|k: int| 0 <= k < v.len() ==> (#[trigger] v[k]).wf()
}

pub open spec fn mut_ids(ms: Seq<MarketMutModel>) -> Seq<Seq<char>> {
    ms.map_values(|m: MarketMutModel| m.market_id)
}

/// The file's markets and the books of a message after one more market
/// change: the file's market of its id is changed in place, else a new
/// market is made; a failing field stops the message.
pub open spec fn mut_seq_step(ms: Seq<MarketMutModel>, books: Seq<MutBookModel>, mc: MarketChange<RunnerDefUpdate>, cfg: Config) -> (
    Seq<MarketMutModel>,
    Seq<MutBookModel>,
    Option<Seq<char>>,
) {
    let i = name_index(mut_ids(ms), mc.id@);
    if i >= 0 {
        let (m, e) = mut_fold(ms[i], mc.fields@, cfg);
        (ms.update(i, m), books.push(MutBookModel::Existing(i as usize)), e)
    } else {
        let (m, e) = mut_fold(new_market(mc.id@), mc.fields@, cfg);
        (ms, books.push(MutBookModel::Created(m)), e)
    }
}

pub open spec fn mut_seq_fold(ms: Seq<MarketMutModel>, mcs: Seq<MarketChange<RunnerDefUpdate>>, cfg: Config) -> (
    Seq<MarketMutModel>,
    Seq<MutBookModel>,
    Option<Seq<char>>,
)
    decreases mcs.len(),
{
    if mcs.len() == 0 {
        (ms, Seq::empty(), None)
    } else {
        let (m, b, e) = mut_seq_fold(ms, mcs.drop_last(), cfg);
        if e is Some {
            (m, b, e)
        } else {
            mut_seq_step(m, b, mcs.last(), cfg)
        }
    }
}

pub proof fn lemma_mut_seq_err(ms: Seq<MarketMutModel>, mcs: Seq<MarketChange<RunnerDefUpdate>>, cfg: Config, n: int)
    requires
        0 <= n <= mcs.len(),
        mut_seq_fold(ms, mcs.take(n), cfg).2 is Some,
    ensures
        mut_seq_fold(ms, mcs, cfg) == mut_seq_fold(ms, mcs.take(n), cfg),
    decreases mcs.len() - n,
{
    if n < mcs.len() {
        assert(mcs.take(n + 1).drop_last() =~= mcs.take(n));
        lemma_mut_seq_err(ms, mcs, cfg, n + 1);
    } else {
        assert(mcs.take(n) =~= mcs);
    }
}

/// A market stamped with a message's publish time and clock.
pub open spec fn stamp(m: MarketMutModel, pt: u64, clk: Seq<char>) -> MarketMutModel {
    MarketMutModel { publish_time: pt, clk, ..m }
}

pub open spec fn is_ref(b: MutBookModel, i: int) -> bool {
    b matches MutBookModel::Existing(j) && j == i
}

pub open spec fn refers_to(books: Seq<MutBookModel>, i: int) -> bool {
    exists|k: int| 0 <= k < books.len() && is_ref(#[trigger] books[k], i)
}

pub proof fn lemma_refers_step(bs: Seq<MutBookModel>, k: int, x: int)
    requires
        0 <= k < bs.len(),
    ensures
        refers_to(bs.take(k + 1), x) == (refers_to(bs.take(k), x) || is_ref(bs[k], x)),
{
    if refers_to(bs.take(k), x) {
        let w = choose|w: int| 0 <= w < bs.take(k).len() && is_ref(#[trigger] bs.take(k)[w], x);
        assert(is_ref(bs.take(k + 1)[w], x));
    }
    if is_ref(bs[k], x) {
        assert(is_ref(bs.take(k + 1)[k], x));
    }
    if refers_to(bs.take(k + 1), x) {
        let w = choose|w: int| 0 <= w < bs.take(k + 1).len() && is_ref(#[trigger] bs.take(k + 1)[w], x);
        if w < k {
            assert(is_ref(bs.take(k)[w], x));
        }
    }
}

/// Where the message gives both a publish time and a clock, every market it
/// changed is stamped with them.
pub open spec fn stamped_markets(ms: Seq<MarketMutModel>, books: Seq<MutBookModel>, pt: Option<u64>, clk: Option<Seq<char>>) -> Seq<
    MarketMutModel,
> {
    if pt is Some && clk is Some {
        Seq::new(
            ms.len(),
            |i: int|
                if refers_to(books, i) {
                    stamp(ms[i], pt->0, clk->0)
                } else {
                    ms[i]
                },
        )
    } else {
        ms
    }
}

pub open spec fn stamped_books(books: Seq<MutBookModel>, pt: Option<u64>, clk: Option<Seq<char>>) -> Seq<MutBookModel> {
    if pt is Some && clk is Some {
        books.map_values(
            |b: MutBookModel|
                match b {
                    MutBookModel::Created(m) => MutBookModel::Created(stamp(m, pt->0, clk->0)),
                    MutBookModel::Existing(i) => MutBookModel::Existing(i),
                },
        )
    } else {
        books
    }
}

/// The market a change applies to: the file's market of its id, else a new
/// one.
pub open spec fn mut_source(ms: Seq<MarketMutModel>, id: Seq<char>) -> MarketMutModel {
    let i = name_index(mut_ids(ms), id);
    if i >= 0 {
        ms[i]
    } else {
        new_market(id)
    }
}

/// Every market change of the message can be applied without fault.
pub open spec fn mut_seq_ok(ms: Seq<MarketMutModel>, mcs: Seq<MarketChange<RunnerDefUpdate>>, cfg: Config) -> bool {
    forall|k: int|
        0 <= k < mcs.len() ==> (mut_seq_fold(ms, mcs.take(k), cfg).2 is None ==> mut_fields_ok(
            mut_source(mut_seq_fold(ms, mcs.take(k), cfg).0, (#[trigger] mcs[k]).id@),
            mcs[k].fields@,
            cfg,
        ))
}

/// A field whose definition, if it is one, gives a two-byte country code
/// (where it gives one) and names each runner once.
pub open spec fn mut_field_well_formed(f: MarketChangeField<RunnerDefUpdate>) -> bool {
    match f {
        MarketChangeField::Definition(u, rd) => country_code_ok(u) && (rd matches Some(ds) ==> def_ids_distinct(ds@)),
        _ => true,
    }
}

/// Every field of every market change is well formed.
pub open spec fn mut_changes_well_formed(mcs: Seq<MarketChange<RunnerDefUpdate>>) -> bool {
    forall|k: int, f: int|
        0 <= k < mcs.len() && 0 <= f < mcs[k].fields@.len() ==> mut_field_well_formed(#[trigger] mcs[k].fields@[f])
}

proof fn lemma_mut_well_formed_fields_ok(mm: MarketMutModel, fs: Seq<MarketChangeField<RunnerDefUpdate>>, cfg: Config)
    requires
        forall|f: int| 0 <= f < fs.len() ==> mut_field_well_formed(#[trigger] fs[f]),
    ensures
        mut_fields_ok(mm, fs, cfg),
{
    assert forall|k: int| 0 <= k < fs.len() implies match #[trigger] fs[k] {
        MarketChangeField::Definition(u, rd) => {
            &&& update_ok(u)
            &&& (rd matches Some(ds) ==> (mut_fold(mm, fs.take(k), cfg).1 is None ==> defs_in_place_ok(
                mut_fold(mm, fs.take(k), cfg).0.runners,
                ds@,
            )))
        },
        _ => true,
    } by {
        assert(mut_field_well_formed(fs[k]));
        match fs[k] {
            MarketChangeField::Definition(u, rd) => match rd {
                Some(ds) => {
                    lemma_distinct_defs_in_place_ok(mut_fold(mm, fs.take(k), cfg).0.runners, ds@);
                },
                None => {},
            },
            _ => {},
        }
    }
}

/// Market changes whose definitions give two-byte country codes and name
/// each runner once can be applied in place to any markets without fault.
pub proof fn lemma_mut_well_formed_changes_apply(ms: Seq<MarketMutModel>, mcs: Seq<MarketChange<RunnerDefUpdate>>, cfg: Config)
    requires
        mut_changes_well_formed(mcs),
    ensures
        mut_seq_ok(ms, mcs, cfg),
{
    assert forall|k: int| 0 <= k < mcs.len() && mut_seq_fold(ms, mcs.take(k), cfg).2 is None implies mut_fields_ok(
        mut_source(mut_seq_fold(ms, mcs.take(k), cfg).0, (#[trigger] mcs[k]).id@),
        mcs[k].fields@,
        cfg,
    ) by {
        let fs = mcs[k].fields@;
        assert forall|f: int| 0 <= f < fs.len() implies mut_field_well_formed(#[trigger] fs[f]) by {
            assert(mut_field_well_formed(mcs[k].fields@[f]));
        }
        lemma_mut_well_formed_fields_ok(mut_source(mut_seq_fold(ms, mcs.take(k), cfg).0, mcs[k].id@), fs, cfg);
    }
}

/// Whether every definition of the market changes gives a two-byte country
/// code (where it gives one) and names each runner once.
pub fn mut_changes_are_well_formed(mcs: &[MarketChange<RunnerDefUpdate>]) -> (r: bool)
    ensures
        r == mut_changes_well_formed(mcs@),
{
    let mut k: usize = 0;
    while k < mcs.len()
        invariant
            k <= mcs@.len(),
            forall|a: int, f: int|
                0 <= a < k && 0 <= f < mcs@[a].fields@.len() ==> mut_field_well_formed(#[trigger] mcs@[a].fields@[f]),
        decreases mcs@.len() - k,
    {
        let fs = &mcs[k].fields;
        let mut f: usize = 0;
        while f < fs.len()
            invariant
                k < mcs@.len(),
                fs@ == mcs@[k as int].fields@,
                f <= fs@.len(),
                forall|a: int, g: int|
                    0 <= a < k && 0 <= g < mcs@[a].fields@.len() ==> mut_field_well_formed(#[trigger] mcs@[a].fields@[g]),
                forall|g: int| 0 <= g < f ==> mut_field_well_formed(#[trigger] fs@[g]),
            decreases fs@.len() - f,
        {
            let ok = match &fs[f] {
                MarketChangeField::Definition(u, rd) => code_ok(u) && match rd {
                    Some(ds) => defs_distinct(ds.as_slice()),
                    None => true,
                },
                _ => true,
            };
            if !ok {
                assert(!mut_field_well_formed(mcs@[k as int].fields@[f as int]));
                return false;
            }
            f = f + 1;
        }
        assert forall|a: int, g: int|
            0 <= a < k + 1 && 0 <= g < mcs@[a].fields@.len() implies mut_field_well_formed(#[trigger] mcs@[a].fields@[g]) by {
            if a == k {
                assert(mut_field_well_formed(fs@[g]));
            }
        }
        k = k + 1;
    }
    true
}

/// Where the first market with the given id stands.
pub fn mut_position(ms: &Vec<MarketMut>, id: &str) -> (r: Option<usize>)
    ensures
        match r {
            Some(i) => i < ms@.len() && name_index(mut_ids(mut_models(ms@)), id@) == i,
            None => name_index(mut_ids(mut_models(ms@)), id@) == -1,
        },
{
    let ghost names = mut_ids(mut_models(ms@));
    let mut i: usize = 0;
    while i < ms.len()
        invariant
            i <= ms@.len(),
            names == mut_ids(mut_models(ms@)),
            name_index(names.take(i as int), id@) == -1,
        decreases ms@.len() - i,
    {
        assert(names.take(i + 1).drop_last() =~= names.take(i as int));
        if str_eq(ms[i].market_id.as_str(), id) {
            proof {
                lemma_name_index_prefix(names, id@, i as int + 1);
            }
            return Some(i);
        }
        i = i + 1;
    }
    assert(names.take(i as int) =~= names);
    None
}

/// A message of the stream (`op`, `pt`, `clk`, `mc`), applied in place to
/// the file's markets; it gives the markets it changed, in order, each
/// time it names one.
pub struct MarketMutDeser {
    pub config: Config,
}

impl MarketMutDeser {
    #[verifier::loop_isolation(false)]
    #[verifier::rlimit(30)]
    pub fn deserialize(
        self,
        markets: &mut Vec<MarketMut>,
        pt: Option<u64>,
        clk: Option<String>,
        mcs: Option<Vec<MarketChange<RunnerDefUpdate>>>,
    ) -> (r: Result<Vec<MutBook>, MarketChangeError>)
        requires
            all_mut_wf(old(markets)@),
            mcs matches Some(v) ==> mut_seq_ok(mut_models(old(markets)@), v@, self.config),
        ensures
            all_mut_wf(final(markets)@),
            match mcs {
                None => r matches Ok(v) && v@.len() == 0 && final(markets)@ == old(markets)@,
                Some(cs) => {
                    let (ms, books, e) = mut_seq_fold(mut_models(old(markets)@), cs@, self.config);
                    match r {
                        Ok(v) => {
                            &&& e is None
                            &&& mut_models(final(markets)@) == stamped_markets(ms, books, pt, opt_text_of(clk))
                            &&& book_models(v@) == stamped_books(books, pt, opt_text_of(clk))
                        },
                        Err(MarketChangeError::MissingField(f)) => e == Some(f@) && mut_models(final(markets)@) == ms,
                        Err(_) => false,
                    }
                },
            },
    {
        let cfg = self.config;
        let cs = match mcs {
            Some(v) => v,
            None => {
                return Ok(Vec::new());
            },
        };
        let ghost start = mut_models(markets@);
        let ghost all = cs@;
        let mut cs = cs;
        let mut books: Vec<MutBook> = Vec::new();
        let mut i: usize = 0;
        assert(book_models(books@) =~= Seq::<MutBookModel>::empty());
        while i < cs.len()
            invariant
                all.len() == cs@.len(),
                forall|k: int| i <= k < all.len() ==> cs@[k] == all[k],
                i <= all.len(),
                all_mut_wf(markets@),
                mut_seq_ok(start, all, cfg),
                forall|k: int| 0 <= k < books@.len() ==> ((#[trigger] books@[k]) matches MutBook::Created(m) ==> m.wf()),
                forall|k: int| 0 <= k < books@.len() ==> ((#[trigger] books@[k]) matches MutBook::Existing(j) ==> j < markets@.len()),
                markets@.len() == start.len(),
                mut_seq_fold(start, all.take(i as int), cfg) == (mut_models(markets@), book_models(books@), None::<Seq<char>>),
            decreases all.len() - i,
        {
            assert(all.take(i + 1).drop_last() =~= all.take(i as int));
            let mut mc = MarketChange { id: String::new(), img: false, fields: Vec::new() };
            cs.set_and_swap(i, &mut mc);
            assert(mc == all[i as int]);
            let MarketChange { id, img: _, fields } = mc;
            let ghost before = mut_models(markets@);
            let ghost before_books = book_models(books@);
            assert(mut_fields_ok(mut_source(before, id@), fields@, cfg)) by {
                assert(mut_seq_fold(start, all.take(i as int), cfg).2 is None);
                assert(all[i as int].id@ == id@ && all[i as int].fields@ == fields@);
            }
            match mut_position(markets, id.as_str()) {
                Some(p) => {
                    let mut m = MarketMut::new(String::new());
                    markets.set_and_swap(p, &mut m);
                    let res = apply_market_change(&mut m, fields, cfg);
                    markets.set_and_swap(p, &mut m);
                    assert(mut_models(markets@) =~= before.update(p as int, markets@[p as int]@));
                    books.push(MutBook::Existing(p));
                    assert(book_models(books@) =~= before_books.push(MutBookModel::Existing(p)));
                    match res {
                        Ok(()) => {},
                        Err(e) => {
                            proof {
                                lemma_mut_seq_err(start, all, cfg, i + 1);
                            }
                            return Err(e);
                        },
                    }
                },
                None => {
                    let mut m = MarketMut::new(id);
                    let res = apply_market_change(&mut m, fields, cfg);
                    match res {
                        Ok(()) => {
                            books.push(MutBook::Created(m));
                            assert(book_models(books@) =~= before_books.push(MutBookModel::Created(m@)));
                        },
                        Err(e) => {
                            proof {
                                lemma_mut_seq_err(start, all, cfg, i + 1);
                            }
                            return Err(e);
                        },
                    }
                },
            }
            i = i + 1;
        }
        assert(all.take(i as int) =~= all);
        match (pt, clk) {
            (Some(t), Some(c)) => {
                let ghost ms0 = mut_models(markets@);
                let ghost bs0 = book_models(books@);
                let mut k: usize = 0;
                while k < books.len()
                    invariant
                        k <= books@.len(),
                        books@.len() == bs0.len(),
                        markets@.len() == ms0.len(),
                        all_mut_wf(markets@),
                        forall|j: int| 0 <= j < books@.len() ==> ((#[trigger] books@[j]) matches MutBook::Created(m) ==> m.wf()),
                        forall|j: int| 0 <= j < bs0.len() ==> ((#[trigger] bs0[j]) matches MutBookModel::Existing(x) ==> x < ms0.len()),
                        forall|j: int| 0 <= j < k ==> #[trigger] book_model(books@[j]) == match bs0[j] {
                            MutBookModel::Created(m) => MutBookModel::Created(stamp(m, t, c@)),
                            MutBookModel::Existing(x) => MutBookModel::Existing(x),
                        },
                        forall|j: int| k <= j < books@.len() ==> #[trigger] book_model(books@[j]) == bs0[j],
                        forall|x: int| 0 <= x < ms0.len() ==> (#[trigger] markets@[x])@ == if refers_to(bs0.take(k as int), x) {
                            stamp(ms0[x], t, c@)
                        } else {
                            ms0[x]
                        },
                    decreases books@.len() - k,
                {
                    let mut b = MutBook::Existing(0);
                    books.set_and_swap(k, &mut b);
                    let ghost bk = bs0[k as int];
                    let ghost mprev = markets@;
                    assert(book_model(b) == bk);
                    match b {
                        MutBook::Existing(x) => {
                            let mut m = MarketMut::new(String::new());
                            markets.set_and_swap(x, &mut m);
                            m.publish_time = DateTime::new(t);
                            m.clk = c.clone();
                            markets.set_and_swap(x, &mut m);
                            assert(markets@ =~= mprev.update(x as int, markets@[x as int]));
                            assert(markets@[x as int]@ == stamp(mprev[x as int]@, t, c@));
                            proof {
                                assert forall|y: int| 0 <= y < ms0.len() implies (#[trigger] markets@[y])@ == if refers_to(bs0.take(k + 1), y) {
                                    stamp(ms0[y], t, c@)
                                } else {
                                    ms0[y]
                                } by {
                                    lemma_refers_step(bs0, k as int, y);
                                    assert(mprev[y]@ == if refers_to(bs0.take(k as int), y) {
                                        stamp(ms0[y], t, c@)
                                    } else {
                                        ms0[y]
                                    });
                                    if y != x as int {
                                        assert(markets@[y] == mprev[y]);
                                    } else {
                                        assert(is_ref(bs0[k as int], y));
                                        assert(refers_to(bs0.take(k + 1), y));
                                        assert(stamp(stamp(ms0[y], t, c@), t, c@) == stamp(ms0[y], t, c@));
                                        assert(markets@[y]@ == stamp(mprev[y]@, t, c@));
                                    }
                                }
                            }
                            b = MutBook::Existing(x);
                        },
                        MutBook::Created(mut m) => {
                            m.publish_time = DateTime::new(t);
                            m.clk = c.clone();
                            proof {
                                assert forall|y: int| 0 <= y < ms0.len() implies (#[trigger] markets@[y])@ == if refers_to(bs0.take(k + 1), y) {
                                    stamp(ms0[y], t, c@)
                                } else {
                                    ms0[y]
                                } by {
                                    lemma_refers_step(bs0, k as int, y);
                                    assert(mprev[y]@ == if refers_to(bs0.take(k as int), y) {
                                        stamp(ms0[y], t, c@)
                                    } else {
                                        ms0[y]
                                    });
                                }
                            }
                            b = MutBook::Created(m);
                        },
                    }
                    books.set_and_swap(k, &mut b);
                    k = k + 1;
                }
                proof {
                    assert(bs0.take(k as int) =~= bs0);
                    assert(mut_models(markets@) =~= stamped_markets(ms0, bs0, Some(t), Some(c@)));
                    assert(book_models(books@) =~= stamped_books(bs0, Some(t), Some(c@)));
                }
            },
            _ => {},
        }
        Ok(books)
    }
}

} // verus!
