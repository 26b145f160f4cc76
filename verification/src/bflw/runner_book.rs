use vstd::prelude::*;

use crate::bflw::market_definition_runner::{MarketDefRunnerUpdate, same_removal_date};
use crate::config::Config;
use crate::ids::SelectionID;
use crate::immutable::runner::{change_sid, runner_changed, runners_after_keyed_changes};
use crate::runner::{
    Runner, RunnerChange, RunnerModel, empty_runner, kept_date, models, position_of,
    runner_after_change, same_date_text,
};

verus! {

/// A runner of a market book, in the betfairlightweight form. It carries no
/// name and no sort priority (they stay unset).
pub struct RunnerBook {
    pub runner: Runner,
}

impl View for RunnerBook {
    type V = RunnerModel;

    open spec fn view(&self) -> RunnerModel {
        self.runner@
    }
}

pub open spec fn book_runners(v: Seq<RunnerBook>) -> Seq<RunnerModel> {
    v.map_values(|b: RunnerBook| b@)
}

pub open spec fn all_books_wf(v: Seq<RunnerBook>) -> bool {
    forall|i: int| 0 <= i < v.len() ==> (#[trigger] v[i]).wf()
}

/// Whether an entry of a market definition would change a runner book.
pub open spec fn book_would_change(r: RunnerModel, c: MarketDefRunnerUpdate) -> bool {
    ||| r.status != c.status
    ||| r.adjustment_factor != c.adjustment_factor
    ||| r.actual_sp != c.bsp
    ||| !same_removal_date(r.removal_date, c.removal_date)
}

/// A runner book after an entry of a market definition: status, adjustment
/// factor and starting price from the entry; the removal date from the entry
/// (the one held where the texts agree).
pub open spec fn book_from_def(r: RunnerModel, c: MarketDefRunnerUpdate) -> RunnerModel {
    RunnerModel {
        status: c.status,
        adjustment_factor: c.adjustment_factor,
        actual_sp: c.bsp,
        removal_date: kept_date(r.removal_date, c.removal_date),
        ..r
    }
}

/// A definition entry gives a runner book the entry's status, adjustment
/// factor and starting price, and a removal date of the entry's text; an
/// entry judged not to change the book leaves it exactly as it was, and
/// applying an entry twice is applying it once.
pub proof fn lemma_book_def_entry(r: RunnerModel, c: MarketDefRunnerUpdate)
    ensures
        book_from_def(r, c).actual_sp == c.bsp,
        book_from_def(r, c).status == c.status,
        book_from_def(r, c).adjustment_factor == c.adjustment_factor,
        same_removal_date(book_from_def(r, c).removal_date, c.removal_date),
        book_from_def(r, c).selection_id == r.selection_id,
        !book_would_change(r, c) ==> book_from_def(r, c) == r,
        !book_would_change(book_from_def(r, c), c),
{
}

fn same_opt(a: Option<u64>, b: Option<u64>) -> (r: bool)
    ensures
        r == (a == b),
{
    match (a, b) {
        (Some(x), Some(y)) => x == y,
        (None, None) => true,
        _ => false,
    }
}

impl RunnerBook {
    pub open spec fn wf(&self) -> bool {
        self.runner.wf()
    }

    /// A runner book of the given identity with nothing yet.
    pub fn new(id: SelectionID) -> (r: Self)
        ensures
            r.wf(),
            r@ == empty_runner(id),
    {
        let mut runner = Runner::new();
        runner.selection_id = id;
        RunnerBook { runner }
    }

    pub fn clone(&self) -> (r: Self)
        requires
            self.wf(),
        ensures
            r.wf(),
            r@ == self@,
    {
        RunnerBook { runner: self.runner.clone() }
    }

    /// The book after a runner change; this one is left as it was.
    pub fn update_from_change(&self, change: &RunnerChange, config: Config) -> (r: Self)
        requires
            self.wf(),
        ensures
            r.wf(),
            r@ == runner_after_change(self@, *change, config),
    {
        let mut runner = change.update(&self.runner, config);
        runner.selection_id = self.runner.selection_id;
        RunnerBook { runner }
    }

    pub fn would_change(&self, change: &MarketDefRunnerUpdate) -> (r: bool)
        ensures
            r == book_would_change(self@, *change),
    {
        let same_removal = match (&self.runner.removal_date, &change.removal_date) {
            (None, None) => true,
            _ => same_date_text(&self.runner.removal_date, &change.removal_date),
        };
        self.runner.status != change.status || !same_opt(self.runner.adjustment_factor, change.adjustment_factor)
            || !same_opt(self.runner.sp.actual_sp, change.bsp) || !same_removal
    }

    /// The book after an entry of a market definition; this one is left as
    /// it was.
    pub fn update_from_def(&self, change: &MarketDefRunnerUpdate) -> (r: Self)
        requires
            self.wf(),
        ensures
            r.wf(),
            r@ == book_from_def(self@, *change),
            r.runner.sp.actual_sp == change.bsp,
            r.runner.status == change.status,
    {
        let mut runner = self.runner.clone();
        runner.status = change.status;
        runner.adjustment_factor = change.adjustment_factor;
        runner.sp.actual_sp = change.bsp;
        if !same_date_text(&runner.removal_date, &change.removal_date) {
            runner.removal_date = change.removal_date;
        }
        RunnerBook { runner }
    }
}

/// Where the first book of the given identity stands.
pub fn book_position(v: &Vec<RunnerBook>, sid: SelectionID) -> (r: Option<usize>)
    ensures
        match r {
            Some(i) => i < v@.len() && crate::runner::first_index(book_runners(v@), sid) == i,
            None => crate::runner::first_index(book_runners(v@), sid) == -1,
        },
{
    let mut i: usize = 0;
    while i < v.len()
        invariant
            i <= v@.len(),
            forall|j: int| 0 <= j < i ==> v@[j]@.selection_id != sid,
        decreases v@.len() - i,
    {
        if v[i].runner.selection_id.same(&sid) {
            proof {
                crate::runner::lemma_first_index(book_runners(v@), sid, i as int);
            }
            return Some(i);
        }
        i = i + 1;
    }
    proof {
        crate::runner::lemma_first_index(book_runners(v@), sid, -1);
    }
    None
}

/// Copies of runner books, in order.
pub fn copy_books(v: &[RunnerBook]) -> (r: Vec<RunnerBook>)
    requires
        all_books_wf(v@),
    ensures
        all_books_wf(r@),
        r@.len() == v@.len(),
        book_runners(r@) == book_runners(v@),
{
    let mut out: Vec<RunnerBook> = Vec::with_capacity(v.len());
    let mut i: usize = 0;
    while i < v.len()
        invariant
            i <= v@.len(),
            all_books_wf(v@),
            all_books_wf(out@),
            out@.len() == i,
            forall|k: int| 0 <= k < i ==> (#[trigger] out@[k])@ == v@[k]@,
        decreases v@.len() - i,
    {
        out.push(v[i].clone());
        i = i + 1;
    }
    assert(book_runners(out@) =~= book_runners(v@));
    out
}

pub open spec fn opt_book_runners(v: Option<&[RunnerBook]>) -> Seq<RunnerModel> {
    match v {
        Some(s) => book_runners(s@),
        None => Seq::empty(),
    }
}

/// The runner changes (`rc`) of a market change, giving the next runner
/// books; the market's own are left as they were.
pub struct RunnerChangeSeq<'a> {
    pub runners: Option<&'a [RunnerBook]>,
    pub config: Config,
}

impl<'a> RunnerChangeSeq<'a> {
    pub fn deserialize(self, changes: &[RunnerChange]) -> (r: Vec<RunnerBook>)
        requires
            self.runners matches Some(s) ==> all_books_wf(s@),
        ensures
            all_books_wf(r@),
            book_runners(r@) == runners_after_keyed_changes(opt_book_runners(self.runners), changes@, self.config),
    {
        let ghost start = opt_book_runners(self.runners);
        let mut v = match self.runners {
            Some(s) => copy_books(s),
            None => Vec::with_capacity(10),
        };
        assert(book_runners(v@) =~= start);
        let mut n: usize = 0;
        while n < changes.len()
            invariant
                n <= changes@.len(),
                all_books_wf(v@),
                book_runners(v@) == runners_after_keyed_changes(start, changes@.take(n as int), self.config),
            decreases changes@.len() - n,
        {
            let c = &changes[n];
            let ghost before = book_runners(v@);
            assert(changes@.take(n + 1).drop_last() =~= changes@.take(n as int));
            let sid = SelectionID::from((c.id, c.hc));
            match book_position(&v, sid) {
                Some(i) => {
                    proof {
                        crate::runner::lemma_first_index_props(before, sid);
                    }
                    let r = v[i].update_from_change(c, self.config);
                    v.set(i, r);
                    assert(book_runners(v@) =~= before.update(
                        i as int,
                        runner_changed(before[i as int], *c, self.config),
                    ));
                },
                None => {
                    let b = RunnerBook::new(sid);
                    let r = b.update_from_change(c, self.config);
                    v.push(r);
                    assert(book_runners(v@) =~= before.push(
                        runner_changed(empty_runner(change_sid(*c)), *c, self.config),
                    ));
                },
            }
            n = n + 1;
        }
        assert(changes@.take(n as int) =~= changes@);
        v
    }
}

} // verus!
