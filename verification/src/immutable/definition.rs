use vstd::prelude::*;

use crate::config::Config;
use crate::datetime::DateTimeString;
use crate::enums::SelectionStatus;
use crate::ids::SelectionID;
use crate::market_definition::{
    DataError, MarketDefinition, MarketDefinitionModel, MarketDefinitionUpdate, country_code_ok, create_missing,
    definition_from, definition_replaced, replace_missing,
};
use crate::runner::{
    Runner, RunnerModel, all_wf, copy_name, empty_runner, first_index, kept_date,
    lemma_first_index, lemma_first_index_props, models, opt_text, position_of, same_date_text, swap_runners,
};
use crate::strings::{StringSetExtNeq, str_eq};

verus! {

/// One runner of a market definition (`marketDefinition.runners`), as the
/// immutable markets read it.
pub struct RunnerDefUpdate {
    pub id: u32,
    pub adjustment_factor: Option<u64>,
    pub status: SelectionStatus,
    pub sort_priority: u16,
    pub name: Option<String>,
    pub bsp: Option<u64>,
    pub removal_date: Option<DateTimeString>,
    pub hc: Option<u32>,
}

pub open spec fn def_sid(d: RunnerDefUpdate) -> SelectionID {
    SelectionID(d.id, d.hc)
}

/// The runner a definition entry creates: nothing traded yet.
pub open spec fn created(d: RunnerDefUpdate) -> RunnerModel {
    RunnerModel {
        status: d.status,
        name: opt_text(d.name),
        adjustment_factor: d.adjustment_factor,
        sort_priority: d.sort_priority,
        removal_date: d.removal_date,
        actual_sp: d.bsp,
        ..empty_runner(def_sid(d))
    }
}

/// Two removal dates that are the same: none, or the same text.
pub open spec fn same_removal(a: Option<DateTimeString>, b: Option<DateTimeString>) -> bool {
    (a is None && b is None) || (a is Some && b is Some && a->0.text() == b->0.text())
}

/// Whether an entry would change a runner.
pub open spec fn differs(d: RunnerDefUpdate, r: RunnerModel) -> bool {
    ||| r.status != d.status
    ||| r.adjustment_factor != d.adjustment_factor
    ||| r.sort_priority != d.sort_priority
    ||| r.actual_sp != d.bsp
    ||| r.name != opt_text(d.name)
    ||| !same_removal(r.removal_date, d.removal_date)
}

/// A runner after its entry: status, adjustment factor, sort priority,
/// starting price and removal date from the entry; its name where the entry
/// gives one.
pub open spec fn updated(r: RunnerModel, d: RunnerDefUpdate) -> RunnerModel {
    RunnerModel {
        actual_sp: d.bsp,
        adjustment_factor: d.adjustment_factor,
        status: d.status,
        sort_priority: d.sort_priority,
        name: if d.name is Some { opt_text(d.name) } else { r.name },
        removal_date: kept_date(r.removal_date, d.removal_date),
        ..r
    }
}

/// A definition entry gives a runner the entry's status, adjustment factor,
/// sort priority and starting price, a removal date of the entry's text, and
/// the entry's name where it gives one; an entry judged not to differ from
/// the runner leaves it exactly as it was.
pub proof fn lemma_def_entry_update(r: RunnerModel, d: RunnerDefUpdate)
    ensures
        updated(r, d).actual_sp == d.bsp,
        updated(r, d).status == d.status,
        updated(r, d).adjustment_factor == d.adjustment_factor,
        updated(r, d).sort_priority == d.sort_priority,
        same_removal(updated(r, d).removal_date, d.removal_date),
        d.name is Some ==> updated(r, d).name == opt_text(d.name),
        updated(r, d).selection_id == r.selection_id,
        created(d).actual_sp == d.bsp,
        created(d).status == d.status,
        created(d).selection_id == def_sid(d),
        !differs(d, r) ==> updated(r, d) == r,
{
}

fn same_opt(a: Option<u64>, b: Option<u64>) -> (r: bool)
    ensures
        r == (a == b),
{
    match (a, b) {
        (Some(x), Some(y)) => x == y,
        (None, None) => true,
        _ => false,
    }
}

fn same_name(a: &Option<String>, b: &Option<String>) -> (r: bool)
    ensures
        r == (opt_text(*a) == opt_text(*b)),
{
    match (a, b) {
        (Some(x), Some(y)) => str_eq(x.as_str(), y.as_str()),
        (None, None) => true,
        _ => false,
    }
}

impl RunnerDefUpdate {
    pub fn create(&self) -> (r: Runner)
        ensures
            r.wf(),
            r@ == created(*self),
    {
        let mut r = Runner::new();
        r.selection_id = SelectionID::from((self.id, self.hc));
        r.status = self.status;
        r.adjustment_factor = self.adjustment_factor;
        r.sort_priority = self.sort_priority;
        r.name = copy_name(&self.name);
        r.removal_date = self.removal_date;
        r.sp.actual_sp = self.bsp;
        r
    }

    /// Whether the entry would change the runner.
    pub fn diff(&self, runner: &Runner) -> (r: bool)
        ensures
            r == differs(*self, runner@),
    {
        let same_removal = match (&runner.removal_date, &self.removal_date) {
            (None, None) => true,
            _ => same_date_text(&runner.removal_date, &self.removal_date),
        };
        runner.status != self.status || !same_opt(runner.adjustment_factor, self.adjustment_factor)
            || runner.sort_priority != self.sort_priority || !same_opt(
            runner.sp.actual_sp,
            self.bsp,
        ) || !same_name(&runner.name, &self.name) || !same_removal
    }

    /// A copy of the runner after the entry; the runner is left as it was.
    pub fn update(&self, runner: &Runner) -> (r: Runner)
        requires
            runner.wf(),
        ensures
            r.wf(),
            r@ == updated(runner@, *self),
            r.sp.actual_sp == self.bsp,
            r.status == self.status,
    {
        let mut r = runner.clone();
        self.update_mut(&mut r);
        r
    }

    /// Applies the entry to the runner in place.
    pub fn update_mut(&self, runner: &mut Runner)
        requires
            old(runner).wf(),
        ensures
            final(runner).wf(),
            final(runner)@ == updated(old(runner)@, *self),
            final(runner).sp.actual_sp == self.bsp,
            final(runner).status == self.status,
    {
        runner.sp.actual_sp = self.bsp;
        runner.status = self.status;
        runner.adjustment_factor = self.adjustment_factor;
        runner.sort_priority = self.sort_priority;
        match &self.name {
            Some(n) => {
                runner.name.set_if_ne(n.as_str());
            },
            None => {},
        }
        if !same_date_text(&runner.removal_date, &self.removal_date) {
            runner.removal_date = self.removal_date;
        }
    }
}

/// The runners of a market, read as models (none where there is no market).
pub open spec fn prev_models(runners: Option<&[Runner]>) -> Seq<RunnerModel> {
    match runners {
        Some(rs) => models(rs@),
        None => Seq::empty(),
    }
}

/// The runner the entry gives: the earlier runner with its identity (after
/// the entry, where it would change it), or a new runner from the entry.
pub open spec fn def_result(rs: Seq<RunnerModel>, d: RunnerDefUpdate) -> RunnerModel {
    let o = first_index(rs, def_sid(d));
    if o >= 0 {
        if differs(d, rs[o]) {
            updated(rs[o], d)
        } else {
            rs[o]
        }
    } else {
        created(d)
    }
}

/// The `k`th entry names the `k`th runner, as its first runner of that
/// identity, and would not change it.
pub open spec fn kept_at(rs: Seq<RunnerModel>, ds: Seq<RunnerDefUpdate>, k: int) -> bool {
    first_index(rs, def_sid(ds[k])) == k && !differs(ds[k], rs[k])
}

pub open spec fn all_kept(rs: Seq<RunnerModel>, ds: Seq<RunnerDefUpdate>, n: int) -> bool {
    forall|k: int| 0 <= k < n ==> #[trigger] kept_at(rs, ds, k)
}

pub open spec fn def_ids_distinct(ds: Seq<RunnerDefUpdate>) -> bool {
    forall|a: int, b: int|
        0 <= a < ds.len() && 0 <= b < ds.len() && a != b ==> def_sid(#[trigger] ds[a]) != def_sid(
            #[trigger] ds[b],
        )
}

/// The runners already being changed after one entry, the `i`th: the
/// runner of its identity (the one at its place, else the first) is changed
/// and exchanged with the one at its place; where there is none, a new
/// runner is put at its place.
pub open spec fn step_index(n: Seq<RunnerModel>, d: RunnerDefUpdate, i: int) -> int {
    if 0 <= i < n.len() && n[i].selection_id == def_sid(d) {
        i
    } else {
        first_index(n, def_sid(d))
    }
}

pub open spec fn in_progress_step(n: Seq<RunnerModel>, d: RunnerDefUpdate, i: int) -> Seq<RunnerModel> {
    let j = step_index(n, d, i);
    if j >= 0 {
        let u = n.update(j, updated(n[j], d));
        u.update(i, u[j]).update(j, u[i])
    } else {
        n.insert(i, created(d))
    }
}

/// The runners already being changed after the entries, first to last.
pub open spec fn in_progress_result(n: Seq<RunnerModel>, ds: Seq<RunnerDefUpdate>) -> Seq<RunnerModel>
    decreases ds.len(),
{
    if ds.len() == 0 {
        n
    } else {
        in_progress_step(in_progress_result(n, ds.drop_last()), ds.last(), ds.len() - 1)
    }
}

/// Every exchange and insertion of the entries stays within the runners
/// being changed.
pub open spec fn in_progress_ok(n: Seq<RunnerModel>, ds: Seq<RunnerDefUpdate>) -> bool {
    forall|i: int|
        0 <= i < ds.len() ==> {
            &&& i <= in_progress_result(n, ds.take(i)).len()
            &&& (step_index(in_progress_result(n, ds.take(i)), #[trigger] ds[i], i) >= 0 ==> i
                < in_progress_result(n, ds.take(i)).len())
        }
}

/// After the first `i` entries, the runners being changed reach at least
/// `i` places, and the first `i` are those entries' runners.
spec fn placed_in_progress(cur: Seq<RunnerModel>, ds: Seq<RunnerDefUpdate>, i: int) -> bool {
    &&& i <= cur.len()
    &&& forall|k: int| 0 <= k < i ==> (#[trigger] cur[k]).selection_id == def_sid(ds[k])
}

/// Where the `i`th entry's runner is found among runners whose first `i`
/// are the earlier entries' runners: at or after its own place.
proof fn lemma_step_index_after(cur: Seq<RunnerModel>, ds: Seq<RunnerDefUpdate>, i: int)
    requires
        def_ids_distinct(ds),
        0 <= i < ds.len(),
        placed_in_progress(cur, ds, i),
    ensures
        step_index(cur, ds[i], i) >= 0 ==> i <= step_index(cur, ds[i], i) < cur.len(),
        step_index(cur, ds[i], i) >= 0 ==> cur[step_index(cur, ds[i], i)].selection_id == def_sid(ds[i]),
{
    lemma_first_index_props(cur, def_sid(ds[i]));
    let j = first_index(cur, def_sid(ds[i]));
    if j >= 0 && j < i {
        assert(cur[j].selection_id == def_sid(ds[j]));
        assert(false);
    }
}

proof fn lemma_placed_in_progress(n: Seq<RunnerModel>, ds: Seq<RunnerDefUpdate>, i: int)
    requires
        def_ids_distinct(ds),
        0 <= i <= ds.len(),
    ensures
        placed_in_progress(in_progress_result(n, ds.take(i)), ds, i),
    decreases i,
{
    if i > 0 {
        lemma_placed_in_progress(n, ds, i - 1);
        let prev = in_progress_result(n, ds.take(i - 1));
        assert(ds.take(i).drop_last() =~= ds.take(i - 1));
        assert(ds.take(i).last() == ds[i - 1]);
        let d = ds[i - 1];
        lemma_step_index_after(prev, ds, i - 1);
        let cur = in_progress_result(n, ds.take(i));
        assert(cur == in_progress_step(prev, d, i - 1));
        let j = step_index(prev, d, i - 1);
        if j >= 0 {
            let u = prev.update(j, updated(prev[j], d));
            assert(cur == u.update(i - 1, u[j]).update(j, u[i - 1]));
            assert forall|k: int| 0 <= k < i implies (#[trigger] cur[k]).selection_id == def_sid(ds[k]) by {
                if k < i - 1 {
                    assert(cur[k] == prev[k]);
                }
            }
        } else {
            assert(cur == prev.insert(i - 1, created(d)));
            assert forall|k: int| 0 <= k < i implies (#[trigger] cur[k]).selection_id == def_sid(ds[k]) by {
                if k < i - 1 {
                    assert(cur[k] == prev[k]);
                }
            }
        }
    }
}

/// Entries that name each runner once can be applied to any runners
/// already being changed: every exchange and insertion stays within them.
pub proof fn lemma_distinct_defs_in_progress_ok(n: Seq<RunnerModel>, ds: Seq<RunnerDefUpdate>)
    requires
        def_ids_distinct(ds),
    ensures
        in_progress_ok(n, ds),
{
    assert forall|i: int| 0 <= i < ds.len() implies {
        &&& i <= in_progress_result(n, ds.take(i)).len()
        &&& (step_index(in_progress_result(n, ds.take(i)), #[trigger] ds[i], i) >= 0 ==> i
            < in_progress_result(n, ds.take(i)).len())
    } by {
        lemma_placed_in_progress(n, ds, i);
        lemma_step_index_after(in_progress_result(n, ds.take(i)), ds, i);
    }
}

/// Whether the entries name each runner once.
pub fn defs_distinct(ds: &[RunnerDefUpdate]) -> (r: bool)
    ensures
        r == def_ids_distinct(ds@),
{
    let mut a: usize = 0;
    while a < ds.len()
        invariant
            a <= ds@.len(),
            forall|x: int, y: int|
                0 <= x < a && 0 <= y < ds@.len() && x != y ==> def_sid(#[trigger] ds@[x]) != def_sid(#[trigger] ds@[y]),
        decreases ds@.len() - a,
    {
        let mut b: usize = 0;
        while b < ds.len()
            invariant
                a < ds@.len(),
                b <= ds@.len(),
                forall|x: int, y: int|
                    0 <= x < a && 0 <= y < ds@.len() && x != y ==> def_sid(#[trigger] ds@[x]) != def_sid(#[trigger] ds@[y]),
                forall|y: int| 0 <= y < b && y != a ==> def_sid(ds@[a as int]) != def_sid(#[trigger] ds@[y]),
            decreases ds@.len() - b,
        {
            if b != a && SelectionID(ds[a].id, ds[a].hc).same(&SelectionID(ds[b].id, ds[b].hc)) {
                assert(def_sid(ds@[a as int]) == def_sid(ds@[b as int]));
                return false;
            }
            b = b + 1;
        }
        a = a + 1;
    }
    true
}

pub open spec fn opt_models(o: Option<Vec<Runner>>) -> Option<Seq<RunnerModel>> {
    match o {
        Some(v) => Some(models(v@)),
        None => None,
    }
}

/// What the runners of a definition give. From the market's runners: none
/// (the runners stay) where every entry names the runner at its place and
/// would not change it; else the runner each entry gives, in the
/// definition's order. From runners already being changed: those runners
/// after each entry in turn.
pub open spec fn def_seq_models(rs: Seq<RunnerModel>, next: Option<Seq<RunnerModel>>, ds: Seq<RunnerDefUpdate>) -> Option<
    Seq<RunnerModel>,
> {
    match next {
        Some(n) => Some(in_progress_result(n, ds)),
        None => if all_kept(rs, ds, ds.len() as int) {
            None
        } else {
            Some(Seq::new(ds.len(), |k: int| def_result(rs, ds[k])))
        },
    }
}

pub open spec fn def_seq_done(
    runners: Option<&[Runner]>,
    next: Option<Vec<Runner>>,
    ds: Seq<RunnerDefUpdate>,
    r: Option<Vec<Runner>>,
) -> bool {
    &&& opt_models(r) == def_seq_models(prev_models(runners), opt_models(next), ds)
    &&& r matches Some(v) ==> all_wf(v@)
}

/// The first runner of the given identity among the runners.
fn position_in(runners: &[Runner], sid: SelectionID) -> (r: Option<usize>)
    ensures
        match r {
            Some(i) => i < runners@.len() && first_index(models(runners@), sid) == i,
            None => first_index(models(runners@), sid) == -1,
        },
{
    let mut i: usize = 0;
    while i < runners.len()
        invariant
            i <= runners@.len(),
            forall|j: int| 0 <= j < i ==> runners@[j].selection_id != sid,
        decreases runners@.len() - i,
    {
        if runners[i].selection_id.same(&sid) {
            proof {
                lemma_first_index(models(runners@), sid, i as int);
            }
            return Some(i);
        }
        i = i + 1;
    }
    proof {
        lemma_first_index(models(runners@), sid, -1);
    }
    None
}

/// Copies of the first `n` runners.
fn copy_prefix(rs: &[Runner], n: usize) -> (r: Vec<Runner>)
    requires
        n <= rs@.len(),
        all_wf(rs@),
    ensures
        all_wf(r@),
        r@.len() == n,
        forall|k: int| 0 <= k < n ==> (#[trigger] r@[k])@ == rs@[k]@,
{
    let mut out: Vec<Runner> = Vec::with_capacity(n);
    let mut i: usize = 0;
    while i < n
        invariant
            i <= n <= rs@.len(),
            all_wf(rs@),
            all_wf(out@),
            out@.len() == i,
            forall|k: int| 0 <= k < i ==> (#[trigger] out@[k])@ == rs@[k]@,
        decreases n - i,
    {
        let c = rs[i].clone();
        out.push(c);
        i = i + 1;
    }
    out
}

/// The runners that the entries give from the market's runners; none where
/// they stay as they are.
fn defs_from_market(runners: Option<&[Runner]>, defs: &[RunnerDefUpdate]) -> (r: Option<Vec<Runner>>)
    requires
        runners matches Some(rs) ==> all_wf(rs@),
    ensures
        def_seq_done(runners, None, defs@, r),
{
    let ghost rs = prev_models(runners);
    let ghost ds = defs@;
    let mut next: Option<Vec<Runner>> = None;
    let mut i: usize = 0;
    while i < defs.len()
        invariant
            ds == defs@,
            rs == prev_models(runners),
            runners matches Some(s) ==> all_wf(s@),
            i <= ds.len(),
            next is None ==> all_kept(rs, ds, i as int) && i <= rs.len(),
            next matches Some(n) ==> {
                &&& all_wf(n@)
                &&& n@.len() == i
                &&& !all_kept(rs, ds, i as int)
                &&& forall|k: int| 0 <= k < i ==> (#[trigger] n@[k])@ == def_result(rs, ds[k])
            },
        decreases ds.len() - i,
    {
        let d = &defs[i];
        let sid = SelectionID::from((d.id, d.hc));
        let found = match runners {
            Some(s) => position_in(s, sid),
            None => None,
        };
        proof {
            if runners is None {
                assert(rs =~= Seq::<RunnerModel>::empty());
                lemma_first_index(rs, sid, -1);
            }
        }
        if next.is_none() {
            match found {
                Some(ri) => {
                    let s = runners.unwrap();
                    let r = &s[ri];
                    if d.diff(r) {
                        let mut n = copy_prefix(s, i);
                        n.push(d.update(r));
                        proof {
                            assert(!kept_at(rs, ds, i as int));
                            assert forall|k: int| 0 <= k < i + 1 implies (#[trigger] n@[k])@ == def_result(rs, ds[k]) by {
                                if k < i {
                                    assert(kept_at(rs, ds, k));
                                }
                            }
                        }
                        next = Some(n);
                    } else if ri != i {
                        let mut n = copy_prefix(s, i);
                        n.push(r.clone());
                        proof {
                            assert(!kept_at(rs, ds, i as int));
                            assert forall|k: int| 0 <= k < i + 1 implies (#[trigger] n@[k])@ == def_result(rs, ds[k]) by {
                                if k < i {
                                    assert(kept_at(rs, ds, k));
                                }
                            }
                        }
                        next = Some(n);
                    } else {
                        proof {
                            assert(kept_at(rs, ds, i as int));
                            assert forall|k: int| 0 <= k < i + 1 implies #[trigger] kept_at(rs, ds, k) by {}
                        }
                    }
                },
                None => {
                    let mut n = match runners {
                        Some(s) => copy_prefix(s, i),
                        None => Vec::with_capacity(12),
                    };
                    n.push(d.create());
                    proof {
                        assert(!kept_at(rs, ds, i as int));
                        assert forall|k: int| 0 <= k < i + 1 implies (#[trigger] n@[k])@ == def_result(rs, ds[k]) by {
                            if k < i {
                                assert(kept_at(rs, ds, k));
                            }
                        }
                    }
                    next = Some(n);
                },
            }
        } else {
            let mut n = next.unwrap();
            let nr = match found {
                Some(ri) => {
                    let s = runners.unwrap();
                    let r = &s[ri];
                    if d.diff(r) {
                        d.update(r)
                    } else {
                        r.clone()
                    }
                },
                None => d.create(),
            };
            n.push(nr);
            proof {
                assert(!all_kept(rs, ds, i + 1)) by {
                    let k = choose|k: int| 0 <= k < i && !kept_at(rs, ds, k);
                    assert(!kept_at(rs, ds, k));
                }
            }
            next = Some(n);
        }
        i = i + 1;
    }
    proof {
        if next is Some {
            assert(models(next->0@) =~= Seq::new(ds.len(), |k: int| def_result(rs, ds[k])));
        }
    }
    next
}

/// The entries applied to runners already being changed: each entry's
/// runner is put at the entry's place, changed by it or new.
fn defs_in_progress(n: Vec<Runner>, defs: &[RunnerDefUpdate]) -> (r: Vec<Runner>)
    requires
        all_wf(n@),
        in_progress_ok(models(n@), defs@),
    ensures
        all_wf(r@),
        models(r@) == in_progress_result(models(n@), defs@),
{
    let ghost ds = defs@;
    let ghost start = models(n@);
    let mut n = n;
    let mut i: usize = 0;
    while i < defs.len()
        invariant
            ds == defs@,
            in_progress_ok(start, ds),
            i <= ds.len(),
            all_wf(n@),
            models(n@) == in_progress_result(start, ds.take(i as int)),
        decreases ds.len() - i,
    {
        let d = &defs[i];
        let sid = SelectionID::from((d.id, d.hc));
        let ghost cur = n@;
        assert(ds.take(i + 1).drop_last() =~= ds.take(i as int));
        assert(i <= cur.len()) by {
            assert(ds[i as int] == *d);
        }
        let at = if i < n.len() && n[i].selection_id.same(&sid) {
            Some(i)
        } else {
            position_of(&n, sid)
        };
        assert(match at {
            Some(j) => step_index(models(cur), *d, i as int) == j,
            None => step_index(models(cur), *d, i as int) == -1,
        });
        match at {
            Some(j) => {
                assert(i < n@.len()) by {
                    assert(ds[i as int] == *d);
                }
                d.update_mut(&mut n[j]);
                let ghost u = n@;
                assert(models(u) =~= models(cur).update(j as int, updated(models(cur)[j as int], *d)));
                swap_runners(&mut n, i, j);
                assert(models(n@) =~= models(u).update(i as int, models(u)[j as int]).update(j as int, models(u)[i as int]));
            },
            None => {
                let r = d.create();
                n.insert(i, r);
                assert(models(n@) =~= models(cur).insert(i as int, created(*d)));
            },
        }
        i = i + 1;
    }
    assert(ds.take(i as int) =~= ds);
    n
}

/// The runners of a market definition, producing the market's next runners;
/// the market's own runners are left as they were.
pub struct RunnerDefSeq<'a> {
    pub runners: Option<&'a [Runner]>,
    pub next: Option<Vec<Runner>>,
}

impl<'a> RunnerDefSeq<'a> {
    pub fn deserialize(self, defs: &[RunnerDefUpdate]) -> (r: Option<Vec<Runner>>)
        requires
            self.runners matches Some(rs) ==> all_wf(rs@),
            self.next matches Some(n) ==> all_wf(n@) && in_progress_ok(models(n@), defs@),
        ensures
            def_seq_done(self.runners, self.next, defs@, r),
    {
        match self.next {
            Some(n) => Some(defs_in_progress(n, defs)),
            None => defs_from_market(self.runners, defs),
        }
    }
}

/// The fields of a definition message that markets changing by copy read:
/// every field but the race type, which they do not read.
pub open spec fn without_race_type(u: MarketDefinitionUpdate) -> MarketDefinitionUpdate {
    MarketDefinitionUpdate { race_type: None, ..u }
}

/// A definition after a market definition message: from the earlier one
/// where there is one, else new; or the first required field it lacks. The
/// message's race type is not read, so the definition has none.
pub open spec fn next_def_model(def: Option<MarketDefinitionModel>, u: MarketDefinitionUpdate) -> Result<
    MarketDefinitionModel,
    Seq<char>,
> {
    let w = without_race_type(u);
    match def {
        Some(d) => match replace_missing(w) {
            Some(f) => Err(f),
            None => Ok(definition_replaced(d, w)),
        },
        None => match create_missing(w) {
            Some(f) => Err(f),
            None => Ok(definition_from(w)),
        },
    }
}

pub open spec fn opt_def_model(def: Option<&MarketDefinition>) -> Option<MarketDefinitionModel> {
    match def {
        Some(d) => Some(d@),
        None => None,
    }
}

/// The market definition of a market change (`marketDefinition`),
/// producing the market's next definition and, where it lists runners, its
/// next runners. The market's own definition and runners are left as they
/// were.
pub struct MarketDefinitionDeser<'a> {
    pub def: Option<&'a MarketDefinition>,
    pub runners: Option<&'a [Runner]>,
    pub next_runners: Option<Vec<Runner>>,
}

impl<'a> MarketDefinitionDeser<'a> {
    pub fn deserialize(self, update: MarketDefinitionUpdate, runner_defs: Option<&[RunnerDefUpdate]>) -> (r: Result<
        (MarketDefinition, Option<Vec<Runner>>),
        DataError,
    >)
        requires
            country_code_ok(update) || (next_def_model(opt_def_model(self.def), update) matches Err(f) && f
                != "openDate"@),
            self.runners matches Some(rs) ==> all_wf(rs@),
            self.next_runners matches Some(n) ==> all_wf(n@),
            runner_defs matches Some(ds) ==> (self.next_runners matches Some(n) ==> in_progress_ok(models(n@), ds@)),
        ensures
            r is Ok <==> next_def_model(opt_def_model(self.def), update) is Ok,
            r matches Err(e) ==> next_def_model(opt_def_model(self.def), update) == Err::<
                MarketDefinitionModel,
                Seq<char>,
            >(e.missing_field@),
            r matches Ok((d, nr)) ==> {
                &&& next_def_model(opt_def_model(self.def), update) == Ok::<
                    MarketDefinitionModel,
                    Seq<char>,
                >(d@)
                &&& runner_defs matches Some(ds) ==> def_seq_done(self.runners, self.next_runners, ds@, nr)
                &&& runner_defs is None ==> nr == self.next_runners
            },
    {
        let next = match runner_defs {
            Some(ds) => RunnerDefSeq { runners: self.runners, next: self.next_runners }.deserialize(ds),
            None => self.next_runners,
        };
        let mut update = update;
        update.race_type = None;
        let d = match self.def {
            Some(def) => update.updated(def),
            None => update.create(),
        };
        match d {
            Ok(d) => Ok((d, next)),
            Err(e) => Err(e),
        }
    }
}

} // verus!
