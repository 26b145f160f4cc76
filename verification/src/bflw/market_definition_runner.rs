use vstd::prelude::*;

use crate::bflw::runner_book::{RunnerBook, all_books_wf, book_from_def, book_runners, book_would_change};
use crate::datetime::DateTimeString;
use crate::enums::SelectionStatus;
use crate::ids::SelectionID;
use crate::runner::{
    RunnerModel, copy_name, empty_runner, first_index, kept_date, lemma_first_index_props,
    opt_text, same_date_text,
};
use crate::strings::str_eq;

verus! {

/// The key of a zero handicap (the handicap of a runner whose entry gives
/// none); see `crate::price_size` for keys.
pub const HANDICAP_ZERO: u64 = 0x8000_0000_0000_0000u64;

/// One runner of a market definition, in the betfairlightweight form.
pub struct MarketDefinitionRunner {
    pub adjustment_factor: Option<u64>,
    pub selection_id: SelectionID,
    pub removal_date: Option<DateTimeString>,
    pub sort_priority: u16,
    pub status: SelectionStatus,
    pub name: Option<String>,
    pub handicap: u64,
    pub bsp: Option<u64>,
}

pub struct DefRunnerModel {
    pub adjustment_factor: Option<u64>,
    pub selection_id: SelectionID,
    pub removal_date: Option<DateTimeString>,
    pub sort_priority: u16,
    pub status: SelectionStatus,
    pub name: Option<Seq<char>>,
    pub handicap: u64,
    pub bsp: Option<u64>,
}

impl View for MarketDefinitionRunner {
    type V = DefRunnerModel;

    open spec fn view(&self) -> DefRunnerModel {
        DefRunnerModel {
            adjustment_factor: self.adjustment_factor,
            selection_id: self.selection_id,
            removal_date: self.removal_date,
            sort_priority: self.sort_priority,
            status: self.status,
            name: opt_text(self.name),
            handicap: self.handicap,
            bsp: self.bsp,
        }
    }
}

/// One entry of a market definition's runners.
pub struct MarketDefRunnerUpdate {
    pub id: SelectionID,
    pub adjustment_factor: Option<u64>,
    pub status: SelectionStatus,
    pub sort_priority: u16,
    pub name: Option<String>,
    pub bsp: Option<u64>,
    pub removal_date: Option<DateTimeString>,
    pub hc: Option<u64>,
}

/// Two removal dates that are the same: none, or the same text.
pub open spec fn same_removal_date(a: Option<DateTimeString>, b: Option<DateTimeString>) -> bool {
    (a is None && b is None) || (a is Some && b is Some && a->0.text() == b->0.text())
}

pub open spec fn def_runner_new(c: MarketDefRunnerUpdate) -> DefRunnerModel {
    DefRunnerModel {
        adjustment_factor: c.adjustment_factor,
        selection_id: c.id,
        removal_date: c.removal_date,
        sort_priority: c.sort_priority,
        status: c.status,
        name: opt_text(c.name),
        handicap: match c.hc {
            Some(h) => h,
            None => HANDICAP_ZERO,
        },
        bsp: c.bsp,
    }
}

pub open spec fn def_runner_would_change(r: DefRunnerModel, c: MarketDefRunnerUpdate) -> bool {
    ||| r.status != c.status
    ||| r.adjustment_factor != c.adjustment_factor
    ||| r.sort_priority != c.sort_priority
    ||| r.bsp != c.bsp
    ||| c.hc != Some(r.handicap)
    ||| r.name != opt_text(c.name)
    ||| !same_removal_date(r.removal_date, c.removal_date)
}

/// A definition runner after its entry: what the entry gives, the rest kept
/// (the status and sort priority always from the entry).
pub open spec fn def_runner_updated(r: DefRunnerModel, c: MarketDefRunnerUpdate) -> DefRunnerModel {
    DefRunnerModel {
        status: c.status,
        adjustment_factor: if c.adjustment_factor is Some { c.adjustment_factor } else { r.adjustment_factor },
        handicap: match c.hc {
            Some(h) => h,
            None => r.handicap,
        },
        bsp: if c.bsp is Some { c.bsp } else { r.bsp },
        sort_priority: c.sort_priority,
        name: if c.name is Some { opt_text(c.name) } else { r.name },
        removal_date: if c.removal_date is Some { kept_date(r.removal_date, c.removal_date) } else { r.removal_date },
        ..r
    }
}

/// An entry gives a definition runner its status and sort priority, and
/// each of its adjustment factor, handicap, starting price and name that it
/// gives; an entry judged not to change the runner leaves it exactly as it
/// was, and a changed runner is not changed again by the same entry.
pub proof fn lemma_def_runner_entry(r: DefRunnerModel, c: MarketDefRunnerUpdate)
    ensures
        def_runner_updated(r, c).status == c.status,
        def_runner_updated(r, c).sort_priority == c.sort_priority,
        c.bsp is Some ==> def_runner_updated(r, c).bsp == c.bsp,
        c.adjustment_factor is Some ==> def_runner_updated(r, c).adjustment_factor == c.adjustment_factor,
        c.hc matches Some(h) ==> def_runner_updated(r, c).handicap == h,
        c.name is Some ==> def_runner_updated(r, c).name == opt_text(c.name),
        def_runner_updated(r, c).selection_id == r.selection_id,
        def_runner_new(c).bsp == c.bsp,
        def_runner_new(c).selection_id == c.id,
        !def_runner_would_change(r, c) ==> def_runner_updated(r, c) == r,
{
}

fn same_opt(a: Option<u64>, b: Option<u64>) -> (r: bool)
    ensures
        r == (a == b),
{
    match (a, b) {
        (Some(x), Some(y)) => x == y,
        (None, None) => true,
        _ => false,
    }
}

fn same_name(a: &Option<String>, b: &Option<String>) -> (r: bool)
    ensures
        r == (opt_text(*a) == opt_text(*b)),
{
    match (a, b) {
        (Some(x), Some(y)) => str_eq(x.as_str(), y.as_str()),
        (None, None) => true,
        _ => false,
    }
}

impl MarketDefinitionRunner {
    pub fn new(change: &MarketDefRunnerUpdate) -> (r: Self)
        ensures
            r@ == def_runner_new(*change),
    {
        MarketDefinitionRunner {
            selection_id: change.id,
            status: change.status,
            adjustment_factor: change.adjustment_factor,
            handicap: match change.hc {
                Some(h) => h,
                None => HANDICAP_ZERO,
            },
            bsp: change.bsp,
            sort_priority: change.sort_priority,
            name: copy_name(&change.name),
            removal_date: change.removal_date,
        }
    }

    pub fn clone(&self) -> (r: Self)
        ensures
            r@ == self@,
    {
        MarketDefinitionRunner {
            selection_id: self.selection_id,
            status: self.status,
            adjustment_factor: self.adjustment_factor,
            handicap: self.handicap,
            bsp: self.bsp,
            sort_priority: self.sort_priority,
            name: copy_name(&self.name),
            removal_date: self.removal_date,
        }
    }

    pub fn would_change(&self, change: &MarketDefRunnerUpdate) -> (r: bool)
        ensures
            r == def_runner_would_change(self@, *change),
    {
        let same_removal = match (&self.removal_date, &change.removal_date) {
            (None, None) => true,
            _ => same_date_text(&self.removal_date, &change.removal_date),
        };
        let same_hc = match change.hc {
            Some(h) => h == self.handicap,
            None => false,
        };
        self.status != change.status || !same_opt(self.adjustment_factor, change.adjustment_factor)
            || self.sort_priority != change.sort_priority || !same_opt(self.bsp, change.bsp) || !same_hc
            || !same_name(&self.name, &change.name) || !same_removal
    }

    /// This runner after its entry; this one is left as it was.
    pub fn update_from_change(&self, change: &MarketDefRunnerUpdate) -> (r: Self)
        ensures
            r@ == def_runner_updated(self@, *change),
    {
        MarketDefinitionRunner {
            selection_id: self.selection_id,
            status: change.status,
            adjustment_factor: if change.adjustment_factor.is_some() {
                change.adjustment_factor
            } else {
                self.adjustment_factor
            },
            handicap: match change.hc {
                Some(h) => h,
                None => self.handicap,
            },
            bsp: if change.bsp.is_some() {
                change.bsp
            } else {
                self.bsp
            },
            sort_priority: change.sort_priority,
            name: if change.name.is_some() {
                copy_name(&change.name)
            } else {
                copy_name(&self.name)
            },
            removal_date: match change.removal_date {
                Some(_) => if same_date_text(&self.removal_date, &change.removal_date) {
                    self.removal_date
                } else {
                    change.removal_date
                },
                None => self.removal_date,
            },
        }
    }
}

pub open spec fn def_runners(v: Seq<MarketDefinitionRunner>) -> Seq<DefRunnerModel> {
    v.map_values(|r: MarketDefinitionRunner| r@)
}

/// The index of the first definition runner of the given identity, or `-1`.
pub open spec fn def_runner_index(rs: Seq<DefRunnerModel>, sid: SelectionID) -> int
    decreases rs.len(),
{
    if rs.len() == 0 {
        -1
    } else {
        let k = def_runner_index(rs.drop_last(), sid);
        if k >= 0 {
            k
        } else if rs.last().selection_id == sid {
            rs.len() - 1
        } else {
            -1
        }
    }
}

pub proof fn lemma_def_runner_index(rs: Seq<DefRunnerModel>, sid: SelectionID)
    ensures
        -1 <= def_runner_index(rs, sid) < rs.len(),
    decreases rs.len(),
{
    if rs.len() > 0 {
        lemma_def_runner_index(rs.drop_last(), sid);
    }
}

proof fn lemma_def_runner_index_prefix(rs: Seq<DefRunnerModel>, sid: SelectionID, n: int)
    requires
        0 <= n <= rs.len(),
        def_runner_index(rs.take(n), sid) >= 0,
    ensures
        def_runner_index(rs, sid) == def_runner_index(rs.take(n), sid),
    decreases rs.len() - n,
{
    if n < rs.len() {
        assert(rs.take(n + 1).drop_last() =~= rs.take(n));
        lemma_def_runner_index_prefix(rs, sid, n + 1);
    } else {
        assert(rs.take(n) =~= rs);
    }
}

fn def_runner_position(rs: &[MarketDefinitionRunner], sid: SelectionID) -> (r: Option<usize>)
    ensures
        match r {
            Some(i) => i < rs@.len() && def_runner_index(def_runners(rs@), sid) == i,
            None => def_runner_index(def_runners(rs@), sid) == -1,
        },
{
    let ghost ms = def_runners(rs@);
    let mut i: usize = 0;
    while i < rs.len()
        invariant
            i <= rs@.len(),
            ms == def_runners(rs@),
            def_runner_index(ms.take(i as int), sid) == -1,
        decreases rs@.len() - i,
    {
        assert(ms.take(i + 1).drop_last() =~= ms.take(i as int));
        if rs[i].selection_id.same(&sid) {
            proof {
                lemma_def_runner_index_prefix(ms, sid, i as int + 1);
            }
            return Some(i);
        }
        i = i + 1;
    }
    assert(ms.take(i as int) =~= ms);
    None
}

pub open spec fn push_opt<T>(s: Option<Seq<T>>, x: T) -> Option<Seq<T>> {
    match s {
        Some(v) => Some(v.push(x)),
        None => Some(seq![x]),
    }
}

/// The definition runner an entry gives: a changed copy of the earlier
/// runner of its identity where the entry would change it, that runner as
/// it is where it would not, or a new runner.
pub open spec fn def_entry(from_defs: Option<Seq<DefRunnerModel>>, c: MarketDefRunnerUpdate) -> DefRunnerModel {
    match from_defs {
        Some(f) => {
            let ix = def_runner_index(f, c.id);
            if ix >= 0 {
                if def_runner_would_change(f[ix], c) {
                    def_runner_updated(f[ix], c)
                } else {
                    f[ix]
                }
            } else {
                def_runner_new(c)
            }
        },
        None => def_runner_new(c),
    }
}

/// The entry adds a runner or would change the earlier one.
pub open spec fn def_entry_changes(from_defs: Option<Seq<DefRunnerModel>>, c: MarketDefRunnerUpdate) -> bool {
    match from_defs {
        Some(f) => {
            let ix = def_runner_index(f, c.id);
            ix < 0 || def_runner_would_change(f[ix], c)
        },
        None => true,
    }
}

/// The definition runners a definition's entries give: where some entry
/// adds or changes a runner, one runner per entry, in the entries' order;
/// otherwise none (the earlier runners stay).
pub open spec fn def_seq_defs(from_defs: Option<Seq<DefRunnerModel>>, cs: Seq<MarketDefRunnerUpdate>) -> Option<
    Seq<DefRunnerModel>,
> {
    if exists|k: int| 0 <= k < cs.len() && def_entry_changes(from_defs, #[trigger] cs[k]) {
        Some(cs.map_values(|c: MarketDefRunnerUpdate| def_entry(from_defs, c)))
    } else {
        None
    }
}

/// One entry applied to the runner books: the earlier book changed in its
/// place where the entry would change it, or a new book added.
pub open spec fn def_books_step(
    from_books: Option<Seq<RunnerModel>>,
    books: Option<Seq<RunnerModel>>,
    c: MarketDefRunnerUpdate,
) -> Option<Seq<RunnerModel>> {
    let fresh = book_from_def(empty_runner(c.id), c);
    match from_books {
        Some(f) => {
            let ix = first_index(f, c.id);
            if ix >= 0 {
                if book_would_change(f[ix], c) {
                    match books {
                        Some(b) => Some(b.update(ix, book_from_def(f[ix], c))),
                        None => Some(f.update(ix, book_from_def(f[ix], c))),
                    }
                } else {
                    books
                }
            } else {
                match books {
                    Some(b) => Some(b.push(fresh)),
                    None => Some(f.push(fresh)),
                }
            }
        },
        None => push_opt(books, fresh),
    }
}

/// The runner books after the entries, first to last; none where no entry
/// changes or adds a book.
pub open spec fn def_seq_books(from_books: Option<Seq<RunnerModel>>, cs: Seq<MarketDefRunnerUpdate>) -> Option<
    Seq<RunnerModel>,
>
    decreases cs.len(),
{
    if cs.len() == 0 {
        None
    } else {
        def_books_step(from_books, def_seq_books(from_books, cs.drop_last()), cs.last())
    }
}

pub open spec fn opt_def_runners(v: Option<&[MarketDefinitionRunner]>) -> Option<Seq<DefRunnerModel>> {
    match v {
        Some(s) => Some(def_runners(s@)),
        None => None,
    }
}

pub open spec fn opt_books(v: Option<&[RunnerBook]>) -> Option<Seq<RunnerModel>> {
    match v {
        Some(s) => Some(book_runners(s@)),
        None => None,
    }
}

pub open spec fn opt_vec_defs(v: Option<Vec<MarketDefinitionRunner>>) -> Option<Seq<DefRunnerModel>> {
    match v {
        Some(s) => Some(def_runners(s@)),
        None => None,
    }
}

pub open spec fn opt_vec_books(v: Option<Vec<RunnerBook>>) -> Option<Seq<RunnerModel>> {
    match v {
        Some(s) => Some(book_runners(s@)),
        None => None,
    }
}

/// The runners of a market definition (`marketDefinition.runners`), giving
/// the next definition runners (one per entry, in the entries' order, where
/// some entry adds or changes a runner) and the next runner books; the
/// market's own are left as they were.
pub struct RunnerDefSeq<'a>(pub Option<&'a [MarketDefinitionRunner]>, pub Option<&'a [RunnerBook]>);

impl<'a> RunnerDefSeq<'a> {
    pub fn deserialize(self, changes: &[MarketDefRunnerUpdate]) -> (r: (Option<Vec<MarketDefinitionRunner>>, Option<Vec<RunnerBook>>))
        requires
            self.1 matches Some(s) ==> all_books_wf(s@),
        ensures
            opt_vec_defs(r.0) == def_seq_defs(opt_def_runners(self.0), changes@),
            opt_vec_books(r.1) == def_seq_books(opt_books(self.1), changes@),
            r.1 matches Some(b) ==> all_books_wf(b@),
    {
        let ghost fd = opt_def_runners(self.0);
        let ghost fb = opt_books(self.1);
        let mut all: Vec<MarketDefinitionRunner> = Vec::with_capacity(changes.len());
        let mut changed = false;
        let mut books: Option<Vec<RunnerBook>> = None;
        let mut n: usize = 0;
        while n < changes.len()
            invariant
                n <= changes@.len(),
                fd == opt_def_runners(self.0),
                fb == opt_books(self.1),
                self.1 matches Some(s) ==> all_books_wf(s@),
                books matches Some(b) ==> all_books_wf(b@),
                books matches Some(b) ==> (self.1 matches Some(s) ==> b@.len() >= s@.len()),
                def_runners(all@) == changes@.take(n as int).map_values(|c: MarketDefRunnerUpdate| def_entry(fd, c)),
                changed == exists|k: int| 0 <= k < n && def_entry_changes(fd, #[trigger] changes@[k]),
                opt_vec_books(books) == def_seq_books(fb, changes@.take(n as int)),
            decreases changes@.len() - n,
        {
            let c = &changes[n];
            assert(changes@.take(n + 1).drop_last() =~= changes@.take(n as int));
            // definition runners
            let ghost before = def_runners(all@);
            let entry = match self.0 {
                Some(from) => match def_runner_position(from, c.id) {
                    Some(ix) => {
                        if from[ix].would_change(c) {
                            changed = true;
                            from[ix].update_from_change(c)
                        } else {
                            from[ix].clone()
                        }
                    },
                    None => {
                        changed = true;
                        MarketDefinitionRunner::new(c)
                    },
                },
                None => {
                    changed = true;
                    MarketDefinitionRunner::new(c)
                },
            };
            assert(entry@ == def_entry(fd, *c));
            assert(changed == (exists|k: int| 0 <= k < n + 1 && def_entry_changes(fd, #[trigger] changes@[k]))) by {
                if def_entry_changes(fd, changes@[n as int]) {
                    assert(changed);
                }
            }
            all.push(entry);
            assert(def_runners(all@) =~= before.push(def_entry(fd, *c)));
            assert(changes@.take(n + 1).map_values(|c: MarketDefRunnerUpdate| def_entry(fd, c)) =~= changes@.take(
                n as int,
            ).map_values(|c: MarketDefRunnerUpdate| def_entry(fd, c)).push(def_entry(fd, *c)));
            // runner books
            match self.1 {
                Some(from) => {
                    let fv = from;
                    let pos = book_position_slice(fv, c.id);
                    match pos {
                        Some(ix) => {
                            if fv[ix].would_change(c) {
                                let nb = fv[ix].update_from_def(c);
                                match books {
                                    Some(mut b) => {
                                        let ghost before = book_runners(b@);
                                        assert(self.1 == Some(fv));
                                        assert(b@.len() >= fv@.len());
                                        b.set(ix, nb);
                                        assert(book_runners(b@) =~= before.update(ix as int, book_from_def(book_runners(fv@)[ix as int], *c)));
                                        books = Some(b);
                                    },
                                    None => {
                                        let mut b = crate::bflw::runner_book::copy_books(fv);
                                        let ghost before = book_runners(b@);
                                        b.set(ix, nb);
                                        assert(book_runners(b@) =~= before.update(ix as int, book_from_def(book_runners(fv@)[ix as int], *c)));
                                        books = Some(b);
                                    },
                                }
                            }
                        },
                        None => {
                            let nb = RunnerBook::new(c.id).update_from_def(c);
                            match books {
                                Some(mut b) => {
                                    let ghost before = book_runners(b@);
                                    b.push(nb);
                                    assert(book_runners(b@) =~= before.push(book_from_def(empty_runner(c.id), *c)));
                                    books = Some(b);
                                },
                                None => {
                                    let mut b = crate::bflw::runner_book::copy_books(fv);
                                    let ghost before = book_runners(b@);
                                    b.push(nb);
                                    assert(book_runners(b@) =~= before.push(book_from_def(empty_runner(c.id), *c)));
                                    books = Some(b);
                                },
                            }
                        },
                    }
                },
                None => {
                    let nb = RunnerBook::new(c.id).update_from_def(c);
                    match books {
                        Some(mut b) => {
                            let ghost before = book_runners(b@);
                            b.push(nb);
                            assert(book_runners(b@) =~= before.push(book_from_def(empty_runner(c.id), *c)));
                            books = Some(b);
                        },
                        None => {
                            let mut b: Vec<RunnerBook> = Vec::with_capacity(10);
                            b.push(nb);
                            assert(book_runners(b@) =~= seq![book_from_def(empty_runner(c.id), *c)]);
                            books = Some(b);
                        },
                    }
                },
            }
            n = n + 1;
        }
        assert(changes@.take(n as int) =~= changes@);
        if changed {
            (Some(all), books)
        } else {
            (None, books)
        }
    }
}

/// Where the first book of the given identity stands.
fn book_position_slice(v: &[RunnerBook], sid: SelectionID) -> (r: Option<usize>)
    ensures
        match r {
            Some(i) => i < v@.len() && first_index(book_runners(v@), sid) == i,
            None => first_index(book_runners(v@), sid) == -1,
        },
{
    let mut i: usize = 0;
    while i < v.len()
        invariant
            i <= v@.len(),
            forall|j: int| 0 <= j < i ==> v@[j]@.selection_id != sid,
        decreases v@.len() - i,
    {
        if v[i].runner.selection_id.same(&sid) {
            proof {
                crate::runner::lemma_first_index(book_runners(v@), sid, i as int);
            }
            return Some(i);
        }
        i = i + 1;
    }
    proof {
        crate::runner::lemma_first_index(book_runners(v@), sid, -1);
    }
    None
}

} // verus!
