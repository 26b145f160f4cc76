use vstd::prelude::*;

use crate::config::Config;
use crate::ids::SelectionID;
use crate::price_size::{
    ImmutablePriceSizeBackLadder, ImmutablePriceSizeLayLadder, PriceSize, is_ladder, ladder_map,
    ladder_of,
};
use crate::runner::{
    Runner, RunnerBookEXMut, RunnerBookSPMut, RunnerChange, RunnerModel, all_wf, apply_opt,
    copy_levels, copy_name, empty_runner, first_index, lemma_first_index, lemma_first_index_props,
    lemma_ladder_total, models, opt_levels, position_of, runner_after_change, runners_after_changes,
    total_size,
};

verus! {

pub open spec fn change_sid(c: RunnerChange) -> SelectionID {
    SelectionID(c.id, c.hc)
}

/// A runner after a change, carrying the change's identity.
pub open spec fn runner_changed(r: RunnerModel, c: RunnerChange, cfg: Config) -> RunnerModel {
    RunnerModel { selection_id: change_sid(c), ..runner_after_change(r, c, cfg) }
}

/// The runners after one runner change: the first runner with the change's
/// identity is replaced by its changed copy; where there is none, a new
/// runner of that identity, changed, is added at the end.
pub open spec fn runners_after_keyed_change(rs: Seq<RunnerModel>, c: RunnerChange, cfg: Config) -> Seq<
    RunnerModel,
> {
    let k = first_index(rs, change_sid(c));
    if k >= 0 {
        rs.update(k, runner_changed(rs[k], c, cfg))
    } else {
        rs.push(runner_changed(empty_runner(change_sid(c)), c, cfg))
    }
}

/// The runners after the runner changes, first to last.
pub open spec fn runners_after_keyed_changes(rs: Seq<RunnerModel>, cs: Seq<RunnerChange>, cfg: Config) -> Seq<
    RunnerModel,
>
    decreases cs.len(),
{
    if cs.len() == 0 {
        rs
    } else {
        runners_after_keyed_change(runners_after_keyed_changes(rs, cs.drop_last(), cfg), cs.last(), cfg)
    }
}

pub open spec fn same_ids(a: Seq<RunnerModel>, b: Seq<RunnerModel>) -> bool {
    a.len() == b.len() && forall|k: int| 0 <= k < a.len() ==> #[trigger] a[k].selection_id == b[k].selection_id
}

proof fn lemma_first_index_same_ids(a: Seq<RunnerModel>, b: Seq<RunnerModel>, sid: SelectionID)
    requires
        same_ids(a, b),
    ensures
        first_index(a, sid) == first_index(b, sid),
{
    lemma_first_index_props(a, sid);
    let k = first_index(a, sid);
    if k >= 0 {
        assert forall|j: int| 0 <= j < b.len() && j < k implies b[j].selection_id != sid by {
            assert(a[j].selection_id == b[j].selection_id);
        }
        lemma_first_index(b, sid, k);
    } else {
        assert forall|j: int| 0 <= j < b.len() implies b[j].selection_id != sid by {
            assert(a[j].selection_id == b[j].selection_id);
        }
        lemma_first_index(b, sid, -1);
    }
}

/// Where every change names a runner already there, the changes applied in
/// place and the changes applied to copies give the same runners, with the
/// same identities as before.
pub proof fn lemma_changes_agree(rs: Seq<RunnerModel>, cs: Seq<RunnerChange>, cfg: Config)
    requires
        forall|k: int| 0 <= k < cs.len() ==> first_index(rs, change_sid(#[trigger] cs[k])) >= 0,
    ensures
        runners_after_changes(rs, cs, cfg) == runners_after_keyed_changes(rs, cs, cfg),
        same_ids(runners_after_keyed_changes(rs, cs, cfg), rs),
    decreases cs.len(),
{
    if cs.len() > 0 {
        let prefix = cs.drop_last();
        assert forall|k: int| 0 <= k < prefix.len() implies first_index(rs, change_sid(#[trigger] prefix[k])) >= 0 by {
            assert(prefix[k] == cs[k]);
        }
        lemma_changes_agree(rs, prefix, cfg);
        let mid = runners_after_keyed_changes(rs, prefix, cfg);
        let c = cs.last();
        assert(first_index(rs, change_sid(c)) >= 0);
        lemma_first_index_same_ids(mid, rs, change_sid(c));
        lemma_first_index_props(mid, change_sid(c));
        let k = first_index(mid, change_sid(c));
        assert(mid[k].selection_id == change_sid(c));
        assert(runner_after_change(mid[k], c, cfg) == runner_changed(mid[k], c, cfg));
        let after = runners_after_keyed_changes(rs, cs, cfg);
        assert(after == mid.update(k, runner_changed(mid[k], c, cfg)));
        assert forall|j: int| 0 <= j < after.len() implies #[trigger] after[j].selection_id == rs[j].selection_id by {
            assert(mid[j].selection_id == rs[j].selection_id);
        }
    }
}

/// A ladder from an earlier one and the updates a change may carry for it;
/// the earlier ladder is left as it was.
fn ladder_after(prev: &Vec<PriceSize>, updates: &Option<Vec<PriceSize>>, ascending: bool) -> (r: Vec<
    PriceSize,
>)
    requires
        is_ladder(prev@, ascending),
    ensures
        ladder_of(r@, ascending, apply_opt(ladder_map(prev@), opt_levels(*updates))),
{
    match updates {
        Some(us) => {
            if ascending {
                ImmutablePriceSizeBackLadder(Some(prev.as_slice())).deserialize(us.as_slice())
            } else {
                ImmutablePriceSizeLayLadder(Some(prev.as_slice())).deserialize(us.as_slice())
            }
        },
        None => copy_levels(prev),
    }
}

impl RunnerChange {
    /// A new runner from a change: a runner of the change's identity with
    /// nothing yet, changed.
    pub fn create(&self, config: Config) -> (r: Runner)
        ensures
            r.wf(),
            r@ == runner_changed(empty_runner(change_sid(*self)), *self, config),
    {
        let empty = Runner::new();
        self.update(&empty, config)
    }

    /// A changed copy of a runner, which is left as it was: its ladders
    /// after the change's updates, its prices and total matched from the
    /// change where it has them.
    pub fn update(&self, runner: &Runner, config: Config) -> (r: Runner)
        requires
            runner.wf(),
        ensures
            r.wf(),
            r@ == runner_changed(runner@, *self, config),
            self.spn matches Some(v) ==> r.sp.near_price == Some(v),
            self.spf matches Some(v) ==> r.sp.far_price == Some(v),
            self.ltp matches Some(v) ==> r.last_price_traded == Some(v),
            self.spn is None ==> r.sp.near_price == runner.sp.near_price,
            self.spf is None ==> r.sp.far_price == runner.sp.far_price,
            self.ltp is None ==> r.last_price_traded == runner.last_price_traded,
    {
        let atb = ladder_after(&runner.ex.available_to_back, &self.atb, false);
        let atl = ladder_after(&runner.ex.available_to_lay, &self.atl, true);
        let trd = ladder_after(&runner.ex.traded_volume, &self.trd, true);
        let spb = ladder_after(&runner.sp.back_stake_taken, &self.spl, true);
        let spl = ladder_after(&runner.sp.lay_liability_taken, &self.spb, false);
        let total_matched = if config.cumulative_runner_tv {
            match &self.trd {
                Some(_) => {
                    proof {
                        lemma_ladder_total(trd@);
                    }
                    total_size(trd.as_slice())
                },
                None => runner.total_matched,
            }
        } else {
            match self.tv {
                Some(v) => v,
                None => runner.total_matched,
            }
        };
        Runner {
            selection_id: SelectionID::from((self.id, self.hc)),
            status: runner.status,
            name: copy_name(&runner.name),
            last_price_traded: if self.ltp.is_some() { self.ltp } else { runner.last_price_traded },
            total_matched,
            adjustment_factor: runner.adjustment_factor,
            ex: RunnerBookEXMut { available_to_back: atb, available_to_lay: atl, traded_volume: trd },
            sp: RunnerBookSPMut {
                actual_sp: runner.sp.actual_sp,
                far_price: if self.spf.is_some() { self.spf } else { runner.sp.far_price },
                near_price: if self.spn.is_some() { self.spn } else { runner.sp.near_price },
                back_stake_taken: spb,
                lay_liability_taken: spl,
            },
            sort_priority: runner.sort_priority,
            removal_date: runner.removal_date,
        }
    }
}

/// Copies of runners, in order.
pub fn copy_runners(rs: &[Runner]) -> (r: Vec<Runner>)
    requires
        all_wf(rs@),
    ensures
        all_wf(r@),
        models(r@) == models(rs@),
{
    let mut out: Vec<Runner> = Vec::with_capacity(rs.len());
    let mut i: usize = 0;
    while i < rs.len()
        invariant
            i <= rs@.len(),
            all_wf(rs@),
            all_wf(out@),
            out@.len() == i,
            forall|k: int| 0 <= k < i ==> (#[trigger] out@[k])@ == rs@[k]@,
        decreases rs@.len() - i,
    {
        let c = rs[i].clone();
        out.push(c);
        i = i + 1;
    }
    assert(models(out@) =~= models(rs@));
    out
}

/// The runners a change sequence starts from: those already being changed,
/// else the market's, else none.
pub open spec fn starting_runners(runners: Option<&[Runner]>, next: Option<Vec<Runner>>) -> Seq<
    RunnerModel,
> {
    match next {
        Some(n) => models(n@),
        None => match runners {
            Some(rs) => models(rs@),
            None => Seq::empty(),
        },
    }
}

/// The runner changes (`rc`) of a market change, producing the market's
/// next runners; the market's own runners are left as they were.
pub struct RunnerChangeSeq<'a> {
    pub runners: Option<&'a [Runner]>,
    pub next: Option<Vec<Runner>>,
    pub config: Config,
}

impl<'a> RunnerChangeSeq<'a> {
    /// The next runners: each change replaces the first runner with its
    /// identity by a changed copy, or adds a new runner.
    pub fn deserialize(self, changes: &[RunnerChange]) -> (r: Option<Vec<Runner>>)
        requires
            self.runners matches Some(rs) ==> all_wf(rs@),
            self.next matches Some(n) ==> all_wf(n@),
        ensures
            r matches Some(v) && all_wf(v@) && models(v@) == runners_after_keyed_changes(
                starting_runners(self.runners, self.next),
                changes@,
                self.config,
            ),
    {
        let ghost start = starting_runners(self.runners, self.next);
        let mut next_runners = match self.next {
            Some(n) => n,
            None => match self.runners {
                Some(rs) => copy_runners(rs),
                None => Vec::with_capacity(10),
            },
        };
        assert(models(next_runners@) =~= start);
        let mut n: usize = 0;
        while n < changes.len()
            invariant
                n <= changes@.len(),
                all_wf(next_runners@),
                models(next_runners@) == runners_after_keyed_changes(start, changes@.take(n as int), self.config),
            decreases changes@.len() - n,
        {
            let c = &changes[n];
            let ghost before = models(next_runners@);
            assert(changes@.take(n + 1).drop_last() =~= changes@.take(n as int));
            let sid = SelectionID::from((c.id, c.hc));
            match position_of(&next_runners, sid) {
                Some(i) => {
                    let r = c.update(&next_runners[i], self.config);
                    next_runners.set(i, r);
                    assert(models(next_runners@) =~= before.update(
                        i as int,
                        runner_changed(before[i as int], *c, self.config),
                    ));
                },
                None => {
                    let r = c.create(self.config);
                    next_runners.push(r);
                    assert(models(next_runners@) =~= before.push(
                        runner_changed(empty_runner(change_sid(*c)), *c, self.config),
                    ));
                },
            }
            n = n + 1;
        }
        assert(changes@.take(n as int) =~= changes@);
        Some(next_runners)
    }
}

} // verus!
