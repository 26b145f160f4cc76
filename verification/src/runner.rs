use vstd::prelude::*;

use crate::config::Config;
use crate::datetime::DateTimeString;
use crate::enums::SelectionStatus;
use crate::ids::SelectionID;
use crate::price_size::{PriceSize, PriceSizeBackLadder, PriceSizeLayLadder, apply_updates, is_ladder, ladder_map, ladder_of, lemma_ladder_unique};

verus! {

/// The exchange prices of a runner: the ladders available to back
/// (descending), available to lay (ascending), and traded (ascending).
pub struct RunnerBookEXMut {
    pub available_to_back: Vec<PriceSize>,
    pub available_to_lay: Vec<PriceSize>,
    pub traded_volume: Vec<PriceSize>,
}

impl RunnerBookEXMut {
    pub open spec fn wf(&self) -> bool {
        &&& is_ladder(self.available_to_back@, false)
        &&& is_ladder(self.available_to_lay@, true)
        &&& is_ladder(self.traded_volume@, true)
    }

    pub fn new() -> (r: Self)
        ensures
            r.wf(),
            r.available_to_back@.len() == 0,
            r.available_to_lay@.len() == 0,
            r.traded_volume@.len() == 0,
    {
        RunnerBookEXMut {
            available_to_back: Vec::new(),
            available_to_lay: Vec::new(),
            traded_volume: Vec::new(),
        }
    }

    pub fn clear(&mut self)
        ensures
            final(self).wf(),
            final(self).available_to_back@.len() == 0,
            final(self).available_to_lay@.len() == 0,
            final(self).traded_volume@.len() == 0,
    {
        self.available_to_back.clear();
        self.available_to_lay.clear();
        self.traded_volume.clear();
    }
}

/// The starting-price book of a runner: far and near projected prices, the
/// actual starting price, and the ladders of back stake (ascending) and lay
/// liability (descending) taken at it. Prices are integer keys (see
/// `crate::price_size`).
pub struct RunnerBookSPMut {
    pub far_price: Option<u64>,
    pub near_price: Option<u64>,
    pub actual_sp: Option<u64>,
    pub back_stake_taken: Vec<PriceSize>,
    pub lay_liability_taken: Vec<PriceSize>,
}

impl RunnerBookSPMut {
    pub open spec fn wf(&self) -> bool {
        &&& is_ladder(self.back_stake_taken@, true)
        &&& is_ladder(self.lay_liability_taken@, false)
    }

    pub fn new() -> (r: Self)
        ensures
            r.wf(),
            r.far_price is None,
            r.near_price is None,
            r.actual_sp is None,
            r.back_stake_taken@.len() == 0,
            r.lay_liability_taken@.len() == 0,
    {
        RunnerBookSPMut {
            far_price: None,
            near_price: None,
            actual_sp: None,
            back_stake_taken: Vec::new(),
            lay_liability_taken: Vec::new(),
        }
    }

    pub fn clear(&mut self)
        ensures
            final(self).wf(),
            final(self).far_price is None,
            final(self).near_price is None,
            final(self).actual_sp is None,
            final(self).back_stake_taken@.len() == 0,
            final(self).lay_liability_taken@.len() == 0,
    {
        self.back_stake_taken.clear();
        self.lay_liability_taken.clear();
        self.actual_sp = None;
        self.near_price = None;
        self.far_price = None;
    }
}

/// A runner of a market. Amounts (total matched) are whole hundredths;
/// prices and factors are integer keys (see `crate::price_size`).
pub struct Runner {
    pub selection_id: SelectionID,
    pub status: SelectionStatus,
    pub name: Option<String>,
    pub last_price_traded: Option<u64>,
    pub total_matched: u64,
    pub adjustment_factor: Option<u64>,
    pub ex: RunnerBookEXMut,
    pub sp: RunnerBookSPMut,
    pub sort_priority: u16,
    pub removal_date: Option<DateTimeString>,
}

/// What a runner is, with its ladders read as maps from price to size.
pub struct RunnerModel {
    pub selection_id: SelectionID,
    pub status: SelectionStatus,
    pub name: Option<Seq<char>>,
    pub last_price_traded: Option<u64>,
    pub total_matched: u64,
    pub adjustment_factor: Option<u64>,
    pub available_to_back: Map<u64, u64>,
    pub available_to_lay: Map<u64, u64>,
    pub traded_volume: Map<u64, u64>,
    pub far_price: Option<u64>,
    pub near_price: Option<u64>,
    pub actual_sp: Option<u64>,
    pub back_stake_taken: Map<u64, u64>,
    pub lay_liability_taken: Map<u64, u64>,
    pub sort_priority: u16,
    pub removal_date: Option<DateTimeString>,
}

pub open spec fn opt_text(s: Option<String>) -> Option<Seq<char>> {
    match s {
        Some(t) => Some(t@),
        None => None,
    }
}

impl View for Runner {
    type V = RunnerModel;

    open spec fn view(&self) -> RunnerModel {
        RunnerModel {
            selection_id: self.selection_id,
            status: self.status,
            name: opt_text(self.name),
            last_price_traded: self.last_price_traded,
            total_matched: self.total_matched,
            adjustment_factor: self.adjustment_factor,
            available_to_back: ladder_map(self.ex.available_to_back@),
            available_to_lay: ladder_map(self.ex.available_to_lay@),
            traded_volume: ladder_map(self.ex.traded_volume@),
            far_price: self.sp.far_price,
            near_price: self.sp.near_price,
            actual_sp: self.sp.actual_sp,
            back_stake_taken: ladder_map(self.sp.back_stake_taken@),
            lay_liability_taken: ladder_map(self.sp.lay_liability_taken@),
            sort_priority: self.sort_priority,
            removal_date: self.removal_date,
        }
    }
}

/// The runner of a new selection: no name, no prices, nothing matched.
pub open spec fn empty_runner(id: SelectionID) -> RunnerModel {
    RunnerModel {
        selection_id: id,
        status: SelectionStatus::Hidden,
        name: None,
        last_price_traded: None,
        total_matched: 0,
        adjustment_factor: None,
        available_to_back: Map::empty(),
        available_to_lay: Map::empty(),
        traded_volume: Map::empty(),
        far_price: None,
        near_price: None,
        actual_sp: None,
        back_stake_taken: Map::empty(),
        lay_liability_taken: Map::empty(),
        sort_priority: 0,
        removal_date: None,
    }
}

/// The sum of a ladder's sizes.
pub open spec fn sum_sizes(s: Seq<PriceSize>) -> int
    decreases s.len(),
{
    if s.len() == 0 {
        0
    } else {
        sum_sizes(s.drop_last()) + s.last().size
    }
}

/// A sum held in a `u64`: sums past `u64::MAX` stay at `u64::MAX`.
pub open spec fn saturate(x: int) -> u64 {
    if x > u64::MAX {
        u64::MAX
    } else if x < 0 {
        0
    } else {
        x as u64
    }
}

/// The total of the sizes of the ascending ladder with the given map.
pub open spec fn ladder_total(m: Map<u64, u64>) -> u64 {
    saturate(sum_sizes(choose|s: Seq<PriceSize>| ladder_of(s, true, m)))
}

pub proof fn lemma_ladder_total(s: Seq<PriceSize>)
    requires
        is_ladder(s, true),
    ensures
        ladder_total(ladder_map(s)) == saturate(sum_sizes(s)),
{
    let m = ladder_map(s);
    assert(ladder_of(s, true, m));
    let t = choose|t: Seq<PriceSize>| ladder_of(t, true, m);
    lemma_ladder_unique(s, t, true);
}

/// The total of a ladder's sizes, staying at `u64::MAX` past it.
pub fn total_size(s: &[PriceSize]) -> (r: u64)
    ensures
        r == saturate(sum_sizes(s@)),
{
    let mut acc: u64 = 0;
    let mut i: usize = 0;
    while i < s.len()
        invariant
            i <= s@.len(),
            acc == saturate(sum_sizes(s@.take(i as int))),
            sum_sizes(s@.take(i as int)) >= 0,
        decreases s@.len() - i,
    {
        assert(s@.take(i + 1).drop_last() =~= s@.take(i as int));
        acc = acc.saturating_add(s[i].size);
        i = i + 1;
    }
    assert(s@.take(i as int) =~= s@);
    acc
}

impl Runner {
    /// Its ladders are sorted in their directions.
    pub open spec fn wf(&self) -> bool {
        self.ex.wf() && self.sp.wf()
    }

    /// A runner with default values throughout (the default selection id).
    pub fn new() -> (r: Self)
        ensures
            r.wf(),
            r@ == empty_runner(SelectionID(0, None)),
    {
        let r = Runner {
            selection_id: SelectionID::default(),
            status: SelectionStatus::default(),
            name: None,
            last_price_traded: None,
            total_matched: 0,
            adjustment_factor: None,
            sort_priority: 0,
            removal_date: None,
            ex: RunnerBookEXMut::new(),
            sp: RunnerBookSPMut::new(),
        };
        proof {
            reveal(ladder_map);
            assert(ladder_map(r.ex.available_to_back@) =~= Map::empty());
            assert(ladder_map(r.ex.available_to_lay@) =~= Map::empty());
            assert(ladder_map(r.ex.traded_volume@) =~= Map::empty());
            assert(ladder_map(r.sp.back_stake_taken@) =~= Map::empty());
            assert(ladder_map(r.sp.lay_liability_taken@) =~= Map::empty());
        }
        r
    }

    /// Clears the prices and volumes of the runner; its identity, status,
    /// name, sort priority and removal date stay.
    pub fn clear(&mut self)
        ensures
            final(self).wf(),
            final(self)@ == (RunnerModel {
                total_matched: 0,
                last_price_traded: None,
                adjustment_factor: None,
                available_to_back: Map::empty(),
                available_to_lay: Map::empty(),
                traded_volume: Map::empty(),
                far_price: None,
                near_price: None,
                actual_sp: None,
                back_stake_taken: Map::empty(),
                lay_liability_taken: Map::empty(),
                ..old(self)@
            }),
    {
        self.ex.clear();
        self.sp.clear();
        self.total_matched = 0;
        self.last_price_traded = None;
        self.adjustment_factor = None;
        proof {
            reveal(ladder_map);
            assert(ladder_map(self.ex.available_to_back@) =~= Map::empty());
            assert(ladder_map(self.ex.available_to_lay@) =~= Map::empty());
            assert(ladder_map(self.ex.traded_volume@) =~= Map::empty());
            assert(ladder_map(self.sp.back_stake_taken@) =~= Map::empty());
            assert(ladder_map(self.sp.lay_liability_taken@) =~= Map::empty());
        }
    }
}

/// An exact copy of a ladder.
pub fn copy_levels(s: &Vec<PriceSize>) -> (r: Vec<PriceSize>)
    ensures
        r@ == s@,
{
    let mut v: Vec<PriceSize> = Vec::with_capacity(s.len());
    let mut i: usize = 0;
    while i < s.len()
        invariant
            i <= s@.len(),
            v@ == s@.take(i as int),
        decreases s@.len() - i,
    {
        v.push(s[i]);
        i = i + 1;
        assert(v@ =~= s@.take(i as int));
    }
    assert(s@.take(i as int) =~= s@);
    v
}

pub fn copy_name(s: &Option<String>) -> (r: Option<String>)
    ensures
        opt_text(r) == opt_text(*s),
{
    match s {
        Some(t) => Some(t.clone()),
        None => None,
    }
}

impl Runner {
    /// A copy of the runner, with prices of its own.
    pub fn clone(&self) -> (r: Self)
        requires
            self.wf(),
        ensures
            r.wf(),
            r@ == self@,
    {
        Runner {
            selection_id: self.selection_id,
            status: self.status,
            name: copy_name(&self.name),
            last_price_traded: self.last_price_traded,
            total_matched: self.total_matched,
            adjustment_factor: self.adjustment_factor,
            sort_priority: self.sort_priority,
            removal_date: self.removal_date,
            ex: RunnerBookEXMut {
                available_to_back: copy_levels(&self.ex.available_to_back),
                available_to_lay: copy_levels(&self.ex.available_to_lay),
                traded_volume: copy_levels(&self.ex.traded_volume),
            },
            sp: RunnerBookSPMut {
                far_price: self.sp.far_price,
                near_price: self.sp.near_price,
                actual_sp: self.sp.actual_sp,
                back_stake_taken: copy_levels(&self.sp.back_stake_taken),
                lay_liability_taken: copy_levels(&self.sp.lay_liability_taken),
            },
        }
    }
}

/// One entry of a market change's runner changes (`rc`): the runner it is
/// for and what changed. Ladders come as updates (see `crate::price_size`).
pub struct RunnerChange {
    pub id: u32,
    pub hc: Option<u32>,
    pub atb: Option<Vec<PriceSize>>,
    pub atl: Option<Vec<PriceSize>>,
    pub trd: Option<Vec<PriceSize>>,
    pub spb: Option<Vec<PriceSize>>,
    pub spl: Option<Vec<PriceSize>>,
    pub spn: Option<u64>,
    pub spf: Option<u64>,
    pub ltp: Option<u64>,
    pub tv: Option<u64>,
}

pub open spec fn opt_levels(v: Option<Vec<PriceSize>>) -> Option<Seq<PriceSize>> {
    match v {
        Some(s) => Some(s@),
        None => None,
    }
}

/// A ladder after a change that may carry updates for it.
pub open spec fn apply_opt(m: Map<u64, u64>, us: Option<Seq<PriceSize>>) -> Map<u64, u64> {
    match us {
        Some(u) => apply_updates(m, u),
        None => m,
    }
}

pub open spec fn or_keep(new: Option<u64>, old: Option<u64>) -> Option<u64> {
    if new is Some {
        new
    } else {
        old
    }
}

/// A runner after one runner change. Available to back is kept descending
/// and available to lay ascending; the SP back side (`spb`) goes to the lay
/// liability ladder and the SP lay side (`spl`) to the back stake ladder.
/// With cumulative volumes the total matched is the traded ladder's total
/// (when the change has traded updates); otherwise it is the change's `tv`.
pub open spec fn runner_after_change(r: RunnerModel, c: RunnerChange, cfg: Config) -> RunnerModel {
    let trd = apply_opt(r.traded_volume, opt_levels(c.trd));
    RunnerModel {
        available_to_back: apply_opt(r.available_to_back, opt_levels(c.atb)),
        available_to_lay: apply_opt(r.available_to_lay, opt_levels(c.atl)),
        traded_volume: trd,
        lay_liability_taken: apply_opt(r.lay_liability_taken, opt_levels(c.spb)),
        back_stake_taken: apply_opt(r.back_stake_taken, opt_levels(c.spl)),
        near_price: or_keep(c.spn, r.near_price),
        far_price: or_keep(c.spf, r.far_price),
        last_price_traded: or_keep(c.ltp, r.last_price_traded),
        total_matched: if cfg.cumulative_runner_tv {
            if c.trd is Some {
                ladder_total(trd)
            } else {
                r.total_matched
            }
        } else {
            match c.tv {
                Some(v) => v,
                None => r.total_matched,
            }
        },
        ..r
    }
}

/// A runner change sets each price it carries (starting-price near and far
/// prices, last traded price) and leaves each it does not carry as it was;
/// it changes neither the runner's identity, status, name, adjustment
/// factor, sort priority, removal date nor starting price, and leaves each
/// ladder it carries no updates for as it was.
pub proof fn lemma_runner_change_prices(r: RunnerModel, c: RunnerChange, cfg: Config)
    ensures
        ({
            let a = runner_after_change(r, c, cfg);
            &&& c.spn matches Some(v) ==> a.near_price == Some(v)
            &&& c.spn is None ==> a.near_price == r.near_price
            &&& c.spf matches Some(v) ==> a.far_price == Some(v)
            &&& c.spf is None ==> a.far_price == r.far_price
            &&& c.ltp matches Some(v) ==> a.last_price_traded == Some(v)
            &&& c.ltp is None ==> a.last_price_traded == r.last_price_traded
            &&& a.selection_id == r.selection_id
            &&& a.status == r.status
            &&& a.name == r.name
            &&& a.adjustment_factor == r.adjustment_factor
            &&& a.sort_priority == r.sort_priority
            &&& a.removal_date == r.removal_date
            &&& a.actual_sp == r.actual_sp
            &&& c.atb is None ==> a.available_to_back == r.available_to_back
            &&& c.atl is None ==> a.available_to_lay == r.available_to_lay
            &&& c.trd is None ==> a.traded_volume == r.traded_volume
            &&& c.spb is None ==> a.lay_liability_taken == r.lay_liability_taken
            &&& c.spl is None ==> a.back_stake_taken == r.back_stake_taken
            &&& !cfg.cumulative_runner_tv ==> (c.tv matches Some(v) ==> a.total_matched == v)
            &&& (cfg.cumulative_runner_tv || c.tv is None) && c.trd is None ==> a.total_matched == r.total_matched
        }),
{
}

/// Applies one runner change to a runner in place.
pub fn apply_runner_change(runner: &mut Runner, change: &RunnerChange, config: Config)
    requires
        old(runner).wf(),
    ensures
        final(runner).wf(),
        final(runner)@ == runner_after_change(old(runner)@, *change, config),
        change.spn matches Some(v) ==> final(runner).sp.near_price == Some(v),
        change.spf matches Some(v) ==> final(runner).sp.far_price == Some(v),
        change.ltp matches Some(v) ==> final(runner).last_price_traded == Some(v),
        change.spn is None ==> final(runner).sp.near_price == old(runner).sp.near_price,
        change.spf is None ==> final(runner).sp.far_price == old(runner).sp.far_price,
        change.ltp is None ==> final(runner).last_price_traded == old(runner).last_price_traded,
{
    match &change.atb {
        Some(us) => PriceSizeLayLadder(us.as_slice()).deserialize(&mut runner.ex.available_to_back),
        None => {},
    }
    match &change.atl {
        Some(us) => PriceSizeBackLadder(us.as_slice()).deserialize(&mut runner.ex.available_to_lay),
        None => {},
    }
    match &change.trd {
        Some(us) => {
            PriceSizeBackLadder(us.as_slice()).deserialize(&mut runner.ex.traded_volume);
            if config.cumulative_runner_tv {
                runner.total_matched = total_size(runner.ex.traded_volume.as_slice());
                proof {
                    lemma_ladder_total(runner.ex.traded_volume@);
                }
            }
        },
        None => {},
    }
    match &change.spb {
        Some(us) => PriceSizeLayLadder(us.as_slice()).deserialize(&mut runner.sp.lay_liability_taken),
        None => {},
    }
    match &change.spl {
        Some(us) => PriceSizeBackLadder(us.as_slice()).deserialize(&mut runner.sp.back_stake_taken),
        None => {},
    }
    if let Some(v) = change.spn {
        runner.sp.near_price = Some(v);
    }
    if let Some(v) = change.spf {
        runner.sp.far_price = Some(v);
    }
    if let Some(v) = change.ltp {
        runner.last_price_traded = Some(v);
    }
    if !config.cumulative_runner_tv {
        if let Some(v) = change.tv {
            runner.total_matched = v;
        }
    }
}


/// The runners' models, in order.
pub open spec fn models(v: Seq<Runner>) -> Seq<RunnerModel> {
    v.map_values(|r: Runner| r@)
}

pub open spec fn all_wf(v: Seq<Runner>) -> bool {
    forall|i: int| 0 <= i < v.len() ==> (#[trigger] v[i]).wf()
}

/// The index of the first runner with the given identity, or `-1`.
#[verifier::opaque]
pub open spec fn first_index(rs: Seq<RunnerModel>, sid: SelectionID) -> int {
    if exists|k: int| 0 <= k < rs.len() && #[trigger] rs[k].selection_id == sid {
        choose|k: int|
            0 <= k < rs.len() && #[trigger] rs[k].selection_id == sid && forall|j: int|
                0 <= j < k ==> rs[j].selection_id != sid
    } else {
        -1
    }
}

pub proof fn lemma_first_index(rs: Seq<RunnerModel>, sid: SelectionID, k: int)
    requires
        -1 <= k < rs.len(),
        k >= 0 ==> rs[k].selection_id == sid,
        forall|j: int| 0 <= j < rs.len() && (k < 0 || j < k) ==> rs[j].selection_id != sid,
    ensures
        first_index(rs, sid) == k,
{
    reveal(first_index);
    if k >= 0 {
        assert(exists|k: int| 0 <= k < rs.len() && #[trigger] rs[k].selection_id == sid);
        let c = choose|c: int|
            0 <= c < rs.len() && #[trigger] rs[c].selection_id == sid && forall|j: int|
                0 <= j < c ==> rs[j].selection_id != sid;
        assert(0 <= k < rs.len() && rs[k].selection_id == sid && forall|j: int|
            0 <= j < k ==> rs[j].selection_id != sid);
        if c < k {
        } else if c > k {
            assert(rs[k].selection_id != sid);
        }
    }
}

proof fn lemma_exists_first(rs: Seq<RunnerModel>, sid: SelectionID, k: int)
    requires
        0 <= k < rs.len(),
        rs[k].selection_id == sid,
    ensures
        exists|m: int|
            0 <= m < rs.len() && #[trigger] rs[m].selection_id == sid && forall|j: int|
                0 <= j < m ==> rs[j].selection_id != sid,
    decreases k,
{
    if exists|j: int| 0 <= j < k && #[trigger] rs[j].selection_id == sid {
        let j = choose|j: int| 0 <= j < k && #[trigger] rs[j].selection_id == sid;
        lemma_exists_first(rs, sid, j);
    } else {
        assert(forall|j: int| 0 <= j < k ==> rs[j].selection_id != sid);
    }
}

pub proof fn lemma_first_index_props(rs: Seq<RunnerModel>, sid: SelectionID)
    ensures
        -1 <= first_index(rs, sid) < rs.len(),
        first_index(rs, sid) >= 0 ==> rs[first_index(rs, sid)].selection_id == sid,
        first_index(rs, sid) >= 0 ==> forall|j: int| 0 <= j < first_index(rs, sid) ==> (#[trigger] rs[j]).selection_id != sid,
        first_index(rs, sid) == -1 ==> forall|j: int| 0 <= j < rs.len() ==> (#[trigger] rs[j]).selection_id != sid,
{
    reveal(first_index);
    if exists|k: int| 0 <= k < rs.len() && #[trigger] rs[k].selection_id == sid {
        let k = choose|k: int| 0 <= k < rs.len() && #[trigger] rs[k].selection_id == sid;
        lemma_exists_first(rs, sid, k);
    }
}

/// Where the runner with the given identity stands: the first such runner.
pub fn position_of(runners: &Vec<Runner>, sid: SelectionID) -> (r: Option<usize>)
    ensures
        match r {
            Some(i) => {
                &&& i < runners@.len()
                &&& first_index(models(runners@), sid) == i
                &&& runners@[i as int].selection_id == sid
                &&& forall|j: int| 0 <= j < i ==> (#[trigger] runners@[j]).selection_id != sid
            },
            None => {
                &&& first_index(models(runners@), sid) == -1
                &&& forall|j: int| 0 <= j < runners@.len() ==> (#[trigger] runners@[j]).selection_id != sid
            },
        },
{
    let mut i: usize = 0;
    while i < runners.len()
        invariant
            i <= runners@.len(),
            forall|j: int| 0 <= j < i ==> runners@[j].selection_id != sid,
        decreases runners@.len() - i,
    {
        if runners[i].selection_id.same(&sid) {
            proof {
                lemma_first_index(models(runners@), sid, i as int);
            }
            return Some(i);
        }
        i = i + 1;
    }
    proof {
        lemma_first_index(models(runners@), sid, -1);
    }
    None
}

/// The runners after one runner change: the first runner with the change's
/// identity is changed; where there is none, a runner with default values
/// throughout (its selection id too) is changed and added at the end.
pub open spec fn runners_after_change(rs: Seq<RunnerModel>, c: RunnerChange, cfg: Config) -> Seq<
    RunnerModel,
> {
    let k = first_index(rs, SelectionID(c.id, c.hc));
    if k >= 0 {
        rs.update(k, runner_after_change(rs[k], c, cfg))
    } else {
        rs.push(runner_after_change(empty_runner(SelectionID(0, None)), c, cfg))
    }
}

/// The runners after the runner changes, first to last.
pub open spec fn runners_after_changes(rs: Seq<RunnerModel>, cs: Seq<RunnerChange>, cfg: Config) -> Seq<
    RunnerModel,
>
    decreases cs.len(),
{
    if cs.len() == 0 {
        rs
    } else {
        runners_after_change(runners_after_changes(rs, cs.drop_last(), cfg), cs.last(), cfg)
    }
}

/// The runner changes (`rc`) of a market change, applied to the market's
/// runners in place.
pub struct RunnerChangeSeqDeser<'a> {
    pub changes: &'a [RunnerChange],
    pub config: Config,
}

impl<'a> RunnerChangeSeqDeser<'a> {
    pub fn deserialize(self, runners: &mut Vec<Runner>)
        requires
            all_wf(old(runners)@),
        ensures
            all_wf(final(runners)@),
            models(final(runners)@) == runners_after_changes(
                models(old(runners)@),
                self.changes@,
                self.config,
            ),
    {
        let ghost start = models(runners@);
        let mut n: usize = 0;
        while n < self.changes.len()
            invariant
                n <= self.changes@.len(),
                all_wf(runners@),
                models(runners@) == runners_after_changes(start, self.changes@.take(n as int), self.config),
            decreases self.changes@.len() - n,
        {
            let c = &self.changes[n];
            let ghost before = models(runners@);
            assert(self.changes@.take(n + 1).drop_last() =~= self.changes@.take(n as int));
            let sid = SelectionID::from((c.id, c.hc));
            match position_of(runners, sid) {
                Some(i) => {
                    apply_runner_change(&mut runners[i], c, self.config);
                    assert(models(runners@) =~= before.update(
                        i as int,
                        runner_after_change(before[i as int], *c, self.config),
                    ));
                },
                None => {
                    let mut r = Runner::new();
                    apply_runner_change(&mut r, c, self.config);
                    runners.push(r);
                    assert(models(runners@) =~= before.push(
                        runner_after_change(empty_runner(SelectionID(0, None)), *c, self.config),
                    ));
                },
            }
            n = n + 1;
        }
        assert(self.changes@.take(n as int) =~= self.changes@);
    }
}


/// One runner of a market definition (`marketDefinition.runners`).
pub struct RunnerDefUpdate {
    pub id: u32,
    pub adjustment_factor: Option<u64>,
    pub status: SelectionStatus,
    pub sort_priority: u16,
    pub name: Option<String>,
    pub bsp: Option<u64>,
    pub removal_date: Option<DateTimeString>,
    pub hc: Option<u32>,
}

pub open spec fn def_sid(d: RunnerDefUpdate) -> SelectionID {
    SelectionID(d.id, d.hc)
}

/// The runner that a definition entry creates: its identity, status,
/// adjustment factor, sort priority, name, removal date and starting price,
/// and no prices or volume.
pub open spec fn runner_from_def(d: RunnerDefUpdate) -> RunnerModel {
    RunnerModel {
        selection_id: def_sid(d),
        status: d.status,
        name: opt_text(d.name),
        adjustment_factor: d.adjustment_factor,
        sort_priority: d.sort_priority,
        removal_date: d.removal_date,
        actual_sp: d.bsp,
        ..empty_runner(def_sid(d))
    }
}

/// A removal date after an update: the one held stays when the update names
/// the same text; otherwise the update's (which may be none).
pub open spec fn kept_date(old: Option<DateTimeString>, new: Option<DateTimeString>) -> Option<
    DateTimeString,
> {
    if old is Some && new is Some && old->0.text() == new->0.text() {
        old
    } else {
        new
    }
}

/// A runner after its definition entry: status, adjustment factor, sort
/// priority, name, removal date and starting price come from the entry;
/// prices and volumes stay.
pub open spec fn runner_after_def(r: RunnerModel, d: RunnerDefUpdate) -> RunnerModel {
    RunnerModel {
        actual_sp: d.bsp,
        adjustment_factor: d.adjustment_factor,
        status: d.status,
        sort_priority: d.sort_priority,
        name: opt_text(d.name),
        removal_date: kept_date(r.removal_date, d.removal_date),
        ..r
    }
}

/// A definition entry applied to a runner gives it the entry's status,
/// adjustment factor, sort priority, name and starting price, and a removal
/// date of the entry's text; its identity, prices and volumes stay. Applying
/// the same entry again changes nothing.
pub proof fn lemma_runner_def_sets_fields(r: RunnerModel, d: RunnerDefUpdate)
    ensures
        ({
            let a = runner_after_def(r, d);
            &&& a.actual_sp == d.bsp
            &&& a.status == d.status
            &&& a.adjustment_factor == d.adjustment_factor
            &&& a.sort_priority == d.sort_priority
            &&& a.name == opt_text(d.name)
            &&& (a.removal_date is Some <==> d.removal_date is Some)
            &&& (d.removal_date matches Some(t) ==> a.removal_date->0.text() == t.text())
            &&& a.selection_id == r.selection_id
            &&& a.total_matched == r.total_matched
            &&& a.last_price_traded == r.last_price_traded
            &&& a.near_price == r.near_price
            &&& a.far_price == r.far_price
            &&& a.available_to_back == r.available_to_back
            &&& a.available_to_lay == r.available_to_lay
            &&& a.traded_volume == r.traded_volume
            &&& runner_after_def(a, d) == a
        }),
{
}

pub fn same_date_text(a: &Option<DateTimeString>, b: &Option<DateTimeString>) -> (r: bool)
    ensures
        r == (a is Some && b is Some && a->0.text() == b->0.text()),
{
    match (a, b) {
        (Some(x), Some(y)) => crate::strings::str_eq(x.as_str(), y.as_str()),
        _ => false,
    }
}

impl RunnerDefUpdate {
    pub fn create(&self) -> (r: Runner)
        ensures
            r.wf(),
            r@ == runner_from_def(*self),
            r.sp.actual_sp == self.bsp,
            r.status == self.status,
    {
        let mut r = Runner::new();
        r.selection_id = SelectionID::from((self.id, self.hc));
        r.status = self.status;
        r.adjustment_factor = self.adjustment_factor;
        r.sort_priority = self.sort_priority;
        r.name = copy_name(&self.name);
        r.removal_date = self.removal_date;
        r.sp.actual_sp = self.bsp;
        r
    }

    pub fn update(&self, runner: &mut Runner)
        requires
            old(runner).wf(),
        ensures
            final(runner).wf(),
            final(runner)@ == runner_after_def(old(runner)@, *self),
            final(runner).sp.actual_sp == self.bsp,
            final(runner).status == self.status,
            final(runner).adjustment_factor == self.adjustment_factor,
            final(runner).sort_priority == self.sort_priority,
    {
        runner.sp.actual_sp = self.bsp;
        runner.adjustment_factor = self.adjustment_factor;
        runner.status = self.status;
        runner.sort_priority = self.sort_priority;
        match &self.name {
            Some(s) => {
                crate::strings::StringSetExtNeq::set_if_ne(&mut runner.name, s.as_str());
            },
            None => {
                runner.name = None;
            },
        }
        if !same_date_text(&runner.removal_date, &self.removal_date) {
            runner.removal_date = self.removal_date;
        }
    }
}

/// Exchanges two runners.
pub fn swap_runners(v: &mut Vec<Runner>, a: usize, b: usize)
    requires
        a < old(v)@.len(),
        b < old(v)@.len(),
    ensures
        final(v)@ == old(v)@.update(a as int, old(v)@[b as int]).update(b as int, old(v)@[a as int]),
{
    if a != b {
        let mut tmp = Runner::new();
        v.set_and_swap(a, &mut tmp);
        v.set_and_swap(b, &mut tmp);
        v.set_and_swap(a, &mut tmp);
        assert(v@ =~= old(v)@.update(a as int, old(v)@[b as int]).update(b as int, old(v)@[a as int]));
    } else {
        assert(v@ =~= old(v)@.update(a as int, old(v)@[b as int]).update(b as int, old(v)@[a as int]));
    }
}

pub open spec fn ids_distinct(rs: Seq<RunnerModel>) -> bool {
    forall|a: int, b: int|
        0 <= a < rs.len() && 0 <= b < rs.len() && a != b ==> #[trigger] rs[a].selection_id
            != #[trigger] rs[b].selection_id
}

pub open spec fn def_ids_distinct(ds: Seq<RunnerDefUpdate>) -> bool {
    forall|a: int, b: int|
        0 <= a < ds.len() && 0 <= b < ds.len() && a != b ==> def_sid(#[trigger] ds[a]) != def_sid(
            #[trigger] ds[b],
        )
}

pub open spec fn not_in_defs(sid: SelectionID, ds: Seq<RunnerDefUpdate>, i: int) -> bool {
    forall|k: int| 0 <= k < i ==> def_sid(#[trigger] ds[k]) != sid
}

/// The runner that the `k`th definition entry gives: the earlier runner with
/// that identity after the entry, or a new runner from the entry.
pub open spec fn runner_for_def(old: Seq<RunnerModel>, d: RunnerDefUpdate) -> RunnerModel {
    let o = first_index(old, def_sid(d));
    if o >= 0 {
        runner_after_def(old[o], d)
    } else {
        runner_from_def(d)
    }
}

/// The first `i` runners are those that the first `i` definition entries
/// give.
#[verifier::opaque]
pub open spec fn prefix_ok(om: Seq<RunnerModel>, ds: Seq<RunnerDefUpdate>, v: Seq<Runner>, i: int) -> bool {
    forall|k: int| 0 <= k < i ==> (#[trigger] v[k])@ == runner_for_def(om, ds[k])
}

/// The runners from `i` on are earlier runners not yet named by the
/// definition.
#[verifier::opaque]
pub open spec fn tail_elems(om: Seq<RunnerModel>, ds: Seq<RunnerDefUpdate>, v: Seq<Runner>, i: int) -> bool {
    forall|j: int|
        i <= j < v.len() ==> {
            &&& first_index(om, (#[trigger] v[j]).selection_id) >= 0
            &&& v[j]@ == om[first_index(om, v[j].selection_id)]
            &&& not_in_defs(v[j].selection_id, ds, i)
        }
}

/// The runners from `i` on have distinct identities.
#[verifier::opaque]
pub open spec fn tail_distinct(v: Seq<Runner>, i: int) -> bool {
    forall|a: int, b: int|
        i <= a < v.len() && i <= b < v.len() && a != b ==> #[trigger] v[a].selection_id
            != #[trigger] v[b].selection_id
}

/// Every earlier runner not yet named by the definition stands from `i` on.
#[verifier::opaque]
pub open spec fn tail_cover(om: Seq<RunnerModel>, ds: Seq<RunnerDefUpdate>, v: Seq<Runner>, i: int) -> bool {
    forall|o: int|
        0 <= o < om.len() && not_in_defs(#[trigger] om[o].selection_id, ds, i) ==> exists|j: int|
            i <= j < v.len() && #[trigger] v[j].selection_id == om[o].selection_id
}

pub open spec fn tail_ok(om: Seq<RunnerModel>, ds: Seq<RunnerDefUpdate>, v: Seq<Runner>, i: int) -> bool {
    tail_elems(om, ds, v, i) && tail_distinct(v, i) && tail_cover(om, ds, v, i)
}

proof fn lemma_first_of_distinct(rs: Seq<RunnerModel>, j: int)
    requires
        ids_distinct(rs),
        0 <= j < rs.len(),
    ensures
        first_index(rs, rs[j].selection_id) == j,
{
    lemma_first_index(rs, rs[j].selection_id, j);
}

proof fn lemma_def_init(om: Seq<RunnerModel>, ds: Seq<RunnerDefUpdate>, v: Seq<Runner>)
    requires
        ids_distinct(om),
        om == models(v),
    ensures
        prefix_ok(om, ds, v, 0),
        tail_ok(om, ds, v, 0),
{
    reveal(prefix_ok);
    assert(tail_elems(om, ds, v, 0)) by {
        reveal(tail_elems);
        assert forall|j: int| 0 <= j < v.len() implies {
            &&& first_index(om, (#[trigger] v[j]).selection_id) >= 0
            &&& v[j]@ == om[first_index(om, v[j].selection_id)]
            &&& not_in_defs(v[j].selection_id, ds, 0)
        } by {
            assert(om[j] == v[j]@);
            lemma_first_of_distinct(om, j);
        }
    }
    assert(tail_distinct(v, 0)) by {
        reveal(tail_distinct);
        assert forall|a: int, b: int| 0 <= a < v.len() && 0 <= b < v.len() && a != b implies #[trigger] v[a].selection_id
            != #[trigger] v[b].selection_id by {
            assert(om[a] == v[a]@);
            assert(om[b] == v[b]@);
            assert(om[a].selection_id != om[b].selection_id);
        }
    }
    assert(tail_cover(om, ds, v, 0)) by {
        reveal(tail_cover);
        assert forall|o: int| 0 <= o < om.len() && not_in_defs(#[trigger] om[o].selection_id, ds, 0) implies exists|j: int|
            0 <= j < v.len() && #[trigger] v[j].selection_id == om[o].selection_id by {
            assert(om[o] == v[o]@);
            assert(v[o].selection_id == om[o].selection_id);
        }
    }
}

proof fn lemma_def_found_prefix(
    om: Seq<RunnerModel>,
    ds: Seq<RunnerDefUpdate>,
    cur: Seq<Runner>,
    i: int,
    index: int,
    x: Runner,
    new: Seq<Runner>,
)
    requires
        ids_distinct(om),
        def_ids_distinct(ds),
        0 <= i < ds.len(),
        prefix_ok(om, ds, cur, i),
        tail_ok(om, ds, cur, i),
        i <= index < cur.len(),
        cur[index].selection_id == def_sid(ds[i]),
        forall|j: int| i <= j < index ==> (#[trigger] cur[j]).selection_id != def_sid(ds[i]),
        x@ == runner_after_def(cur[index]@, ds[i]),
        new == cur.update(index, cur[i]).update(i, x),
    ensures
        prefix_ok(om, ds, new, i + 1),
{
    reveal(prefix_ok);
    reveal(tail_elems);
    let sid = def_sid(ds[i]);
    assert(first_index(om, cur[index].selection_id) >= 0);
    assert(new[i]@ == runner_for_def(om, ds[i]));
    assert forall|k: int| 0 <= k < i + 1 implies (#[trigger] new[k])@ == runner_for_def(om, ds[k]) by {
        if k < i {
            assert(new[k] == cur[k]);
        }
    }
}

proof fn lemma_def_found_elems(
    om: Seq<RunnerModel>,
    ds: Seq<RunnerDefUpdate>,
    cur: Seq<Runner>,
    i: int,
    index: int,
    x: Runner,
    new: Seq<Runner>,
)
    requires
        ids_distinct(om),
        def_ids_distinct(ds),
        0 <= i < ds.len(),
        prefix_ok(om, ds, cur, i),
        tail_ok(om, ds, cur, i),
        i <= index < cur.len(),
        cur[index].selection_id == def_sid(ds[i]),
        forall|j: int| i <= j < index ==> (#[trigger] cur[j]).selection_id != def_sid(ds[i]),
        x@ == runner_after_def(cur[index]@, ds[i]),
        new == cur.update(index, cur[i]).update(i, x),
    ensures
        tail_elems(om, ds, new, i + 1),
{
    reveal(tail_elems);
    reveal(tail_distinct);
    let sid = def_sid(ds[i]);
    let sidx = index;
    assert forall|j: int| i + 1 <= j < new.len() implies {
        &&& first_index(om, (#[trigger] new[j]).selection_id) >= 0
        &&& new[j]@ == om[first_index(om, new[j].selection_id)]
        &&& not_in_defs(new[j].selection_id, ds, i + 1)
    } by {
        let src = if j == index { i } else { j };
        assert(new[j] == cur[src]);
        assert(cur[src].selection_id != sid) by {
            if src == i && src != sidx {
                assert(cur[i].selection_id != sid);
            } else {
                assert(src != sidx);
            }
        }
        assert(not_in_defs(cur[src].selection_id, ds, i));
        assert forall|k: int| 0 <= k < i + 1 implies def_sid(#[trigger] ds[k]) != new[j].selection_id by {
            if k < i {
                assert(def_sid(ds[k]) != cur[src].selection_id);
            }
        }
    }
}

proof fn lemma_def_found_distinct(
    om: Seq<RunnerModel>,
    ds: Seq<RunnerDefUpdate>,
    cur: Seq<Runner>,
    i: int,
    index: int,
    x: Runner,
    new: Seq<Runner>,
)
    requires
        ids_distinct(om),
        def_ids_distinct(ds),
        0 <= i < ds.len(),
        prefix_ok(om, ds, cur, i),
        tail_ok(om, ds, cur, i),
        i <= index < cur.len(),
        cur[index].selection_id == def_sid(ds[i]),
        forall|j: int| i <= j < index ==> (#[trigger] cur[j]).selection_id != def_sid(ds[i]),
        x@ == runner_after_def(cur[index]@, ds[i]),
        new == cur.update(index, cur[i]).update(i, x),
    ensures
        tail_distinct(new, i + 1),
{
    reveal(tail_distinct);
    let sid = def_sid(ds[i]);
    assert forall|a: int, b: int|
        i + 1 <= a < new.len() && i + 1 <= b < new.len() && a != b implies #[trigger] new[a].selection_id
        != #[trigger] new[b].selection_id by {
        let sa = if a == index { i } else { a };
        let sb = if b == index { i } else { b };
        assert(new[a] == cur[sa]);
        assert(new[b] == cur[sb]);
    }
}

proof fn lemma_def_found_cover(
    om: Seq<RunnerModel>,
    ds: Seq<RunnerDefUpdate>,
    cur: Seq<Runner>,
    i: int,
    index: int,
    x: Runner,
    new: Seq<Runner>,
)
    requires
        ids_distinct(om),
        def_ids_distinct(ds),
        0 <= i < ds.len(),
        prefix_ok(om, ds, cur, i),
        tail_ok(om, ds, cur, i),
        i <= index < cur.len(),
        cur[index].selection_id == def_sid(ds[i]),
        forall|j: int| i <= j < index ==> (#[trigger] cur[j]).selection_id != def_sid(ds[i]),
        x@ == runner_after_def(cur[index]@, ds[i]),
        new == cur.update(index, cur[i]).update(i, x),
    ensures
        tail_cover(om, ds, new, i + 1),
{
    reveal(tail_cover);
    let sid = def_sid(ds[i]);
    assert(cur[index].selection_id == sid);
    assert forall|o: int| 0 <= o < om.len() && not_in_defs(#[trigger] om[o].selection_id, ds, i + 1) implies exists|j: int|
        i + 1 <= j < new.len() && #[trigger] new[j].selection_id == om[o].selection_id by {
        assert(not_in_defs(om[o].selection_id, ds, i)) by {
            assert forall|k: int| 0 <= k < i implies def_sid(#[trigger] ds[k]) != om[o].selection_id by {
                assert(def_sid(ds[k]) != om[o].selection_id);
            }
        }
        assert(def_sid(ds[i]) != om[o].selection_id);
        let j0 = choose|j: int| i <= j < cur.len() && #[trigger] cur[j].selection_id == om[o].selection_id;
        if j0 == i {
            assert(new[index] == cur[i]);
        } else {
            assert(new[j0] == cur[j0]);
        }
    }
}

proof fn lemma_def_found(
    om: Seq<RunnerModel>,
    ds: Seq<RunnerDefUpdate>,
    cur: Seq<Runner>,
    i: int,
    index: int,
    x: Runner,
    new: Seq<Runner>,
)
    requires
        ids_distinct(om),
        def_ids_distinct(ds),
        0 <= i < ds.len(),
        prefix_ok(om, ds, cur, i),
        tail_ok(om, ds, cur, i),
        i <= index < cur.len(),
        cur[index].selection_id == def_sid(ds[i]),
        forall|j: int| i <= j < index ==> (#[trigger] cur[j]).selection_id != def_sid(ds[i]),
        x@ == runner_after_def(cur[index]@, ds[i]),
        new == cur.update(index, cur[i]).update(i, x),
    ensures
        prefix_ok(om, ds, new, i + 1),
        tail_ok(om, ds, new, i + 1),
{
    lemma_def_found_prefix(om, ds, cur, i, index, x, new);
    lemma_def_found_elems(om, ds, cur, i, index, x, new);
    lemma_def_found_distinct(om, ds, cur, i, index, x, new);
    lemma_def_found_cover(om, ds, cur, i, index, x, new);
}

proof fn lemma_def_absent(
    om: Seq<RunnerModel>,
    ds: Seq<RunnerDefUpdate>,
    cur: Seq<Runner>,
    i: int,
    x: Runner,
    new: Seq<Runner>,
)
    requires
        ids_distinct(om),
        def_ids_distinct(ds),
        0 <= i < ds.len(),
        i <= cur.len(),
        prefix_ok(om, ds, cur, i),
        tail_ok(om, ds, cur, i),
        forall|j: int| 0 <= j < cur.len() ==> (#[trigger] cur[j]).selection_id != def_sid(ds[i]),
        x@ == runner_from_def(ds[i]),
        new == cur.push(x).update(i, x).update(cur.len() as int, cur.push(x)[i]),
    ensures
        first_index(om, def_sid(ds[i])) == -1,
{
    reveal(tail_cover);
    let sid = def_sid(ds[i]);
    lemma_first_index_props(om, sid);
    if first_index(om, sid) >= 0 {
        let o = first_index(om, sid);
        assert(om[o].selection_id == sid);
        assert(not_in_defs(om[o].selection_id, ds, i)) by {
            assert forall|k: int| 0 <= k < i implies def_sid(#[trigger] ds[k]) != om[o].selection_id by {
                assert(def_sid(ds[k]) != def_sid(ds[i]));
            }
        }
        assert(exists|j: int| i <= j < cur.len() && #[trigger] cur[j].selection_id == om[o].selection_id);
        let j0 = choose|j: int| i <= j < cur.len() && #[trigger] cur[j].selection_id == om[o].selection_id;
        assert(cur[j0].selection_id != sid);
        assert(false);
    }
}

proof fn lemma_def_new_prefix(
    om: Seq<RunnerModel>,
    ds: Seq<RunnerDefUpdate>,
    cur: Seq<Runner>,
    i: int,
    x: Runner,
    new: Seq<Runner>,
)
    requires
        ids_distinct(om),
        def_ids_distinct(ds),
        0 <= i < ds.len(),
        i <= cur.len(),
        prefix_ok(om, ds, cur, i),
        tail_ok(om, ds, cur, i),
        forall|j: int| 0 <= j < cur.len() ==> (#[trigger] cur[j]).selection_id != def_sid(ds[i]),
        x@ == runner_from_def(ds[i]),
        new == cur.push(x).update(i, x).update(cur.len() as int, cur.push(x)[i]),
    ensures
        prefix_ok(om, ds, new, i + 1),
{
    reveal(prefix_ok);
    let sid = def_sid(ds[i]);
    lemma_def_absent(om, ds, cur, i, x, new);
    assert(new[i]@ == runner_for_def(om, ds[i]));
    assert forall|k: int| 0 <= k < i + 1 implies (#[trigger] new[k])@ == runner_for_def(om, ds[k]) by {
        if k < i {
            assert(new[k] == cur[k]);
        }
    }
}

proof fn lemma_def_new_elems(
    om: Seq<RunnerModel>,
    ds: Seq<RunnerDefUpdate>,
    cur: Seq<Runner>,
    i: int,
    x: Runner,
    new: Seq<Runner>,
)
    requires
        ids_distinct(om),
        def_ids_distinct(ds),
        0 <= i < ds.len(),
        i <= cur.len(),
        prefix_ok(om, ds, cur, i),
        tail_ok(om, ds, cur, i),
        forall|j: int| 0 <= j < cur.len() ==> (#[trigger] cur[j]).selection_id != def_sid(ds[i]),
        x@ == runner_from_def(ds[i]),
        new == cur.push(x).update(i, x).update(cur.len() as int, cur.push(x)[i]),
    ensures
        tail_elems(om, ds, new, i + 1),
{
    reveal(tail_elems);
    let sid = def_sid(ds[i]);
    let sidx = cur.len() as int;
    assert forall|j: int| i + 1 <= j < new.len() implies {
        &&& first_index(om, (#[trigger] new[j]).selection_id) >= 0
        &&& new[j]@ == om[first_index(om, new[j].selection_id)]
        &&& not_in_defs(new[j].selection_id, ds, i + 1)
    } by {
        let src = if j == cur.len() as int { i } else { j };
        assert(new[j] == cur[src]);
        assert(cur[src].selection_id != sid) by {
            if src == i && src != sidx {
                assert(cur[i].selection_id != sid);
            } else {
                assert(src != sidx);
            }
        }
        assert(not_in_defs(cur[src].selection_id, ds, i));
        assert forall|k: int| 0 <= k < i + 1 implies def_sid(#[trigger] ds[k]) != new[j].selection_id by {
            if k < i {
                assert(def_sid(ds[k]) != cur[src].selection_id);
            }
        }
    }
}

proof fn lemma_def_new_distinct(
    om: Seq<RunnerModel>,
    ds: Seq<RunnerDefUpdate>,
    cur: Seq<Runner>,
    i: int,
    x: Runner,
    new: Seq<Runner>,
)
    requires
        ids_distinct(om),
        def_ids_distinct(ds),
        0 <= i < ds.len(),
        i <= cur.len(),
        prefix_ok(om, ds, cur, i),
        tail_ok(om, ds, cur, i),
        forall|j: int| 0 <= j < cur.len() ==> (#[trigger] cur[j]).selection_id != def_sid(ds[i]),
        x@ == runner_from_def(ds[i]),
        new == cur.push(x).update(i, x).update(cur.len() as int, cur.push(x)[i]),
    ensures
        tail_distinct(new, i + 1),
{
    reveal(tail_distinct);
    let sid = def_sid(ds[i]);
    assert forall|a: int, b: int|
        i + 1 <= a < new.len() && i + 1 <= b < new.len() && a != b implies #[trigger] new[a].selection_id
        != #[trigger] new[b].selection_id by {
        let sa = if a == cur.len() as int { i } else { a };
        let sb = if b == cur.len() as int { i } else { b };
        assert(new[a] == cur[sa]);
        assert(new[b] == cur[sb]);
    }
}

proof fn lemma_def_new_cover(
    om: Seq<RunnerModel>,
    ds: Seq<RunnerDefUpdate>,
    cur: Seq<Runner>,
    i: int,
    x: Runner,
    new: Seq<Runner>,
)
    requires
        ids_distinct(om),
        def_ids_distinct(ds),
        0 <= i < ds.len(),
        i <= cur.len(),
        prefix_ok(om, ds, cur, i),
        tail_ok(om, ds, cur, i),
        forall|j: int| 0 <= j < cur.len() ==> (#[trigger] cur[j]).selection_id != def_sid(ds[i]),
        x@ == runner_from_def(ds[i]),
        new == cur.push(x).update(i, x).update(cur.len() as int, cur.push(x)[i]),
    ensures
        tail_cover(om, ds, new, i + 1),
{
    reveal(tail_cover);
    let sid = def_sid(ds[i]);
    assert forall|o: int| 0 <= o < om.len() && not_in_defs(#[trigger] om[o].selection_id, ds, i + 1) implies exists|j: int|
        i + 1 <= j < new.len() && #[trigger] new[j].selection_id == om[o].selection_id by {
        assert(not_in_defs(om[o].selection_id, ds, i)) by {
            assert forall|k: int| 0 <= k < i implies def_sid(#[trigger] ds[k]) != om[o].selection_id by {
                assert(def_sid(ds[k]) != om[o].selection_id);
            }
        }
        assert(def_sid(ds[i]) != om[o].selection_id);
        let j0 = choose|j: int| i <= j < cur.len() && #[trigger] cur[j].selection_id == om[o].selection_id;
        if j0 == i {
            assert(new[cur.len() as int] == cur[i]);
        } else {
            assert(new[j0] == cur[j0]);
        }
    }
}

proof fn lemma_def_new(
    om: Seq<RunnerModel>,
    ds: Seq<RunnerDefUpdate>,
    cur: Seq<Runner>,
    i: int,
    x: Runner,
    new: Seq<Runner>,
)
    requires
        ids_distinct(om),
        def_ids_distinct(ds),
        0 <= i < ds.len(),
        i <= cur.len(),
        prefix_ok(om, ds, cur, i),
        tail_ok(om, ds, cur, i),
        forall|j: int| 0 <= j < cur.len() ==> (#[trigger] cur[j]).selection_id != def_sid(ds[i]),
        x@ == runner_from_def(ds[i]),
        new == cur.push(x).update(i, x).update(cur.len() as int, cur.push(x)[i]),
    ensures
        first_index(om, def_sid(ds[i])) == -1,
        prefix_ok(om, ds, new, i + 1),
        tail_ok(om, ds, new, i + 1),
{
    lemma_def_absent(om, ds, cur, i, x, new);
    lemma_def_new_prefix(om, ds, cur, i, x, new);
    lemma_def_new_elems(om, ds, cur, i, x, new);
    lemma_def_new_distinct(om, ds, cur, i, x, new);
    lemma_def_new_cover(om, ds, cur, i, x, new);
}

/// The runners after the `i`th entry, as applied in place: the first
/// runner of its identity is exchanged with the one at its place and
/// updated; where there is none, a new runner is added and exchanged with
/// the one at its place.
pub open spec fn def_step_in_place(n: Seq<RunnerModel>, d: RunnerDefUpdate, i: int) -> Seq<RunnerModel> {
    let j = first_index(n, def_sid(d));
    if j >= 0 {
        let s = n.update(j, n[i]).update(i, n[j]);
        s.update(i, runner_after_def(s[i], d))
    } else {
        let p = n.push(runner_from_def(d));
        p.update(i, p[p.len() - 1]).update(p.len() - 1, p[i])
    }
}

/// The runners after the entries, first to last, as applied in place.
pub open spec fn defs_in_place(n: Seq<RunnerModel>, ds: Seq<RunnerDefUpdate>) -> Seq<RunnerModel>
    decreases ds.len(),
{
    if ds.len() == 0 {
        n
    } else {
        def_step_in_place(defs_in_place(n, ds.drop_last()), ds.last(), ds.len() - 1)
    }
}

/// Every exchange of the entries applied in place stays within the
/// runners: an entry whose runner is there stands at a place the runners
/// reach.
pub open spec fn defs_in_place_ok(n: Seq<RunnerModel>, ds: Seq<RunnerDefUpdate>) -> bool {
    forall|i: int|
        0 <= i < ds.len() ==> (first_index(defs_in_place(n, ds.take(i)), def_sid(#[trigger] ds[i])) >= 0 ==> i
            < defs_in_place(n, ds.take(i)).len())
}

/// After the first `i` entries applied in place, the runners reach at
/// least `i` places, and the first `i` are those entries' runners.
spec fn placed_in_place(cur: Seq<RunnerModel>, ds: Seq<RunnerDefUpdate>, i: int) -> bool {
    &&& i <= cur.len()
    &&& forall|k: int| 0 <= k < i ==> (#[trigger] cur[k]).selection_id == def_sid(ds[k])
}

proof fn lemma_placed_in_place(n: Seq<RunnerModel>, ds: Seq<RunnerDefUpdate>, i: int)
    requires
        def_ids_distinct(ds),
        0 <= i <= ds.len(),
    ensures
        placed_in_place(defs_in_place(n, ds.take(i)), ds, i),
    decreases i,
{
    if i > 0 {
        lemma_placed_in_place(n, ds, i - 1);
        let prev = defs_in_place(n, ds.take(i - 1));
        assert(ds.take(i).drop_last() =~= ds.take(i - 1));
        assert(ds.take(i).last() == ds[i - 1]);
        let d = ds[i - 1];
        lemma_first_index_props(prev, def_sid(d));
        let j = first_index(prev, def_sid(d));
        if j >= 0 && j < i - 1 {
            assert(prev[j].selection_id == def_sid(ds[j]));
            assert(false);
        }
        let cur = defs_in_place(n, ds.take(i));
        assert(cur == def_step_in_place(prev, d, i - 1));
        assert forall|k: int| 0 <= k < i implies (#[trigger] cur[k]).selection_id == def_sid(ds[k]) by {
            if k < i - 1 {
                assert(cur[k] == prev[k]);
            }
        }
    }
}

/// Entries that name each runner once can be applied in place to any
/// runners: every exchange stays within them.
pub proof fn lemma_distinct_defs_in_place_ok(n: Seq<RunnerModel>, ds: Seq<RunnerDefUpdate>)
    requires
        def_ids_distinct(ds),
    ensures
        defs_in_place_ok(n, ds),
{
    assert forall|i: int|
        0 <= i < ds.len() && first_index(defs_in_place(n, ds.take(i)), def_sid(#[trigger] ds[i])) >= 0 implies i
        < defs_in_place(n, ds.take(i)).len() by {
        lemma_placed_in_place(n, ds, i);
        let cur = defs_in_place(n, ds.take(i));
        lemma_first_index_props(cur, def_sid(ds[i]));
        let j = first_index(cur, def_sid(ds[i]));
        if j >= 0 && j < i {
            assert(cur[j].selection_id == def_sid(ds[j]));
            assert(false);
        }
    }
}

/// Whether the entries name each runner once.
pub fn defs_distinct(ds: &[RunnerDefUpdate]) -> (r: bool)
    ensures
        r == def_ids_distinct(ds@),
{
    let mut a: usize = 0;
    while a < ds.len()
        invariant
            a <= ds@.len(),
            forall|x: int, y: int|
                0 <= x < a && 0 <= y < ds@.len() && x != y ==> def_sid(#[trigger] ds@[x]) != def_sid(#[trigger] ds@[y]),
        decreases ds@.len() - a,
    {
        let mut b: usize = 0;
        while b < ds.len()
            invariant
                a < ds@.len(),
                b <= ds@.len(),
                forall|x: int, y: int|
                    0 <= x < a && 0 <= y < ds@.len() && x != y ==> def_sid(#[trigger] ds@[x]) != def_sid(#[trigger] ds@[y]),
                forall|y: int| 0 <= y < b && y != a ==> def_sid(ds@[a as int]) != def_sid(#[trigger] ds@[y]),
            decreases ds@.len() - b,
        {
            if b != a && SelectionID(ds[a].id, ds[a].hc).same(&SelectionID(ds[b].id, ds[b].hc)) {
                assert(def_sid(ds@[a as int]) == def_sid(ds@[b as int]));
                return false;
            }
            b = b + 1;
        }
        a = a + 1;
    }
    true
}

/// The runners of a market definition (`marketDefinition.runners`),
/// applied in place: afterwards the runners are those of the definition, in
/// its order.
pub struct RunnerDefSeqDeser<'a> {
    pub defs: &'a [RunnerDefUpdate],
}

impl<'a> RunnerDefSeqDeser<'a> {
    /// Puts the runners in the order of the definition, updating the runners
    /// that were there and creating the others, and drops the runners that
    /// the definition does not name. Where the earlier runners' identities
    /// are distinct, each runner is the earlier runner with its identity
    /// after its entry, or a new runner from its entry.
    pub fn deserialize(self, runners: &mut Vec<Runner>)
        requires
            all_wf(old(runners)@),
            defs_in_place_ok(models(old(runners)@), self.defs@),
        ensures
            all_wf(final(runners)@),
            final(runners)@.len() == self.defs@.len(),
            models(final(runners)@) == defs_in_place(models(old(runners)@), self.defs@).take(
                self.defs@.len() as int,
            ),
            def_ids_distinct(self.defs@) ==> forall|k: int|
                0 <= k < self.defs@.len() ==> (#[trigger] final(runners)@[k]).selection_id == def_sid(
                    self.defs@[k],
                ),
            def_ids_distinct(self.defs@) && ids_distinct(models(old(runners)@)) ==> forall|k: int|
                0 <= k < self.defs@.len() ==> (#[trigger] final(runners)@[k])@ == runner_for_def(
                    models(old(runners)@),
                    self.defs@[k],
                ),
    {
        let ghost om = models(runners@);
        let ghost ds = self.defs@;
        proof {
            if def_ids_distinct(ds) && ids_distinct(om) {
                lemma_def_init(om, ds, runners@);
            }
        }
        let mut i: usize = 0;
        while i < self.defs.len()
            invariant
                ds == self.defs@,
                defs_in_place_ok(om, ds),
                i <= ds.len(),
                i <= runners@.len(),
                all_wf(runners@),
                def_ids_distinct(ds) ==> forall|k: int| 0 <= k < i ==> (#[trigger] runners@[k]).selection_id == def_sid(ds[k]),
                def_ids_distinct(ds) && ids_distinct(om) ==> prefix_ok(om, ds, runners@, i as int) && tail_ok(
                    om,
                    ds,
                    runners@,
                    i as int,
                ),
                models(runners@) == defs_in_place(om, ds.take(i as int)),
            decreases ds.len() - i,
        {
            let d = &self.defs[i];
            let sid = SelectionID::from((d.id, d.hc));
            let ghost cur = runners@;
            assert(ds.take(i + 1).drop_last() =~= ds.take(i as int));
            match position_of(runners, sid) {
                Some(index) => {
                    assert(i < runners@.len()) by {
                        assert(first_index(defs_in_place(om, ds.take(i as int)), def_sid(ds[i as int])) >= 0);
                    }
                    assert(def_ids_distinct(ds) ==> index >= i) by {
                        if def_ids_distinct(ds) && index < i {
                            assert(cur[index as int].selection_id == def_sid(ds[index as int]));
                        }
                    }
                    swap_runners(runners, index, i);
                    let ghost swapped = runners@;
                    d.update(&mut runners[i]);
                    proof {
                        assert(models(swapped) =~= models(cur).update(index as int, models(cur)[i as int]).update(i as int, models(cur)[index as int]));
                        assert(models(runners@) =~= models(swapped).update(i as int, runner_after_def(models(swapped)[i as int], *d)));
                        assert(runners@ =~= swapped.update(i as int, runners@[i as int]));
                        assert(runners@ =~= cur.update(index as int, cur[i as int]).update(i as int, runners@[i as int]));
                        if def_ids_distinct(ds) && ids_distinct(om) {
                            lemma_def_found(om, ds, cur, i as int, index as int, runners@[i as int], runners@);
                        }
                        if def_ids_distinct(ds) {
                            assert forall|k: int| 0 <= k < i + 1 implies (#[trigger] runners@[k]).selection_id
                                == def_sid(ds[k]) by {
                                if k < i {
                                    assert(runners@[k] == cur[k]);
                                }
                            }
                        }
                    }
                },
                None => {
                    let r = d.create();
                    runners.push(r);
                    let ghost pushed = runners@;
                    let last = runners.len() - 1;
                    swap_runners(runners, i, last);
                    proof {
                        assert(models(pushed) =~= models(cur).push(runner_from_def(*d)));
                        assert(models(runners@) =~= models(pushed).update(i as int, models(pushed)[last as int]).update(last as int, models(pushed)[i as int]));
                        if def_ids_distinct(ds) && ids_distinct(om) {
                            lemma_def_new(om, ds, cur, i as int, r, runners@);
                        }
                        if def_ids_distinct(ds) {
                            assert forall|k: int| 0 <= k < i + 1 implies (#[trigger] runners@[k]).selection_id
                                == def_sid(ds[k]) by {
                                if k < i {
                                    assert(runners@[k] == cur[k]);
                                }
                            }
                        }
                    }
                },
            }
            i = i + 1;
        }
        let ghost pre = runners@;
        runners.truncate(i);
        proof {
            assert(ds.take(i as int) =~= ds);
            assert(models(runners@) =~= models(pre).take(i as int));
            assert forall|k: int| 0 <= k < i implies #[trigger] runners@[k] == pre[k] by {}
            if def_ids_distinct(ds) && ids_distinct(om) {
                reveal(prefix_ok);
                assert forall|k: int| 0 <= k < ds.len() implies (#[trigger] runners@[k])@ == runner_for_def(om, ds[k]) by {
                    assert(runners@[k] == pre[k]);
                }
            }
        }
    }
}

} // verus!
