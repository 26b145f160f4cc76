use vstd::prelude::*;

use crate::market_definition::MarketDefinitionUpdate;
use crate::runner::{Runner, RunnerChange, RunnerModel};
use crate::strings::str_eq;

verus! {

/// One field of a market change (`mc` entry) that changes the market, in
/// the order in which the message gives them. `D` is the form in which the
/// definition's runners are read.
pub enum MarketChangeField<D> {
    /// `marketDefinition`, with its `runners` where it lists them.
    Definition(MarketDefinitionUpdate, Option<Vec<D>>),
    /// `rc`
    RunnerChanges(Vec<RunnerChange>),
    /// `tv`, in whole hundredths.
    TradedVolume(u64),
}

/// A market change (`mc` entry): the market it is for, whether it is a full
/// image (`img`), and its fields.
pub struct MarketChange<D> {
    pub id: String,
    pub img: bool,
    pub fields: Vec<MarketChangeField<D>>,
}

/// Why a market change could not be applied.
#[derive(Debug, Clone, Copy)]
pub enum MarketChangeError {
    /// A market definition lacked a required field.
    MissingField(&'static str),
    /// A new market came without runners.
    NoSelections,
    /// A new market came without a definition.
    NoDefinition,
}

/// The total matched of runners, staying at `u64::MAX` past it.
pub open spec fn runners_total(rs: Seq<RunnerModel>) -> u64 {
    crate::runner::saturate(total_sum(rs))
}

pub open spec fn total_sum(rs: Seq<RunnerModel>) -> int
    decreases rs.len(),
{
    if rs.len() == 0 {
        0
    } else {
        total_sum(rs.drop_last()) + rs.last().total_matched
    }
}

proof fn lemma_total_sum_nonneg(rs: Seq<RunnerModel>)
    ensures
        total_sum(rs) >= 0,
    decreases rs.len(),
{
    if rs.len() > 0 {
        lemma_total_sum_nonneg(rs.drop_last());
    }
}

/// The sum of the runners' total matched.
pub fn total_of_runners(rs: &[Runner]) -> (r: u64)
    ensures
        r == runners_total(crate::runner::models(rs@)),
{
    let ghost ms = crate::runner::models(rs@);
    let mut acc: u64 = 0;
    let mut i: usize = 0;
    while i < rs.len()
        invariant
            i <= rs@.len(),
            ms == crate::runner::models(rs@),
            acc == crate::runner::saturate(total_sum(ms.take(i as int))),
        decreases rs@.len() - i,
    {
        assert(ms.take(i + 1).drop_last() =~= ms.take(i as int));
        proof {
            lemma_total_sum_nonneg(ms.take(i as int));
        }
        acc = acc.saturating_add(rs[i].total_matched);
        i = i + 1;
    }
    assert(ms.take(i as int) =~= ms);
    acc
}

/// The index of the first of the named things with the given name, or `-1`.
pub open spec fn name_index(names: Seq<Seq<char>>, id: Seq<char>) -> int
    decreases names.len(),
{
    if names.len() == 0 {
        -1
    } else {
        let k = name_index(names.drop_last(), id);
        if k >= 0 {
            k
        } else if names.last() == id {
            names.len() - 1
        } else {
            -1
        }
    }
}

pub proof fn lemma_name_index(names: Seq<Seq<char>>, id: Seq<char>)
    ensures
        -1 <= name_index(names, id) < names.len(),
        name_index(names, id) >= 0 ==> names[name_index(names, id)] == id,
        name_index(names, id) >= 0 ==> forall|j: int| 0 <= j < name_index(names, id) ==> names[j] != id,
        name_index(names, id) < 0 ==> forall|j: int| 0 <= j < names.len() ==> names[j] != id,
    decreases names.len(),
{
    if names.len() > 0 {
        let p = names.drop_last();
        lemma_name_index(p, id);
        assert forall|j: int| 0 <= j < p.len() implies p[j] == names[j] by {}
    }
}

/// Where a text first stands among texts.
pub fn text_position(texts: &Vec<String>, id: &str) -> (r: Option<usize>)
    ensures
        match r {
            Some(i) => i < texts@.len() && name_index(texts@.map_values(|s: String| s@), id@) == i,
            None => name_index(texts@.map_values(|s: String| s@), id@) == -1,
        },
{
    let ghost names = texts@.map_values(|s: String| s@);
    let mut i: usize = 0;
    while i < texts.len()
        invariant
            i <= texts@.len(),
            names == texts@.map_values(|s: String| s@),
            name_index(names.take(i as int), id@) == -1,
        decreases texts@.len() - i,
    {
        assert(names.take(i + 1).drop_last() =~= names.take(i as int));
        if str_eq(texts[i].as_str(), id) {
            proof {
                lemma_name_index(names, id@);
                lemma_name_index(names.take(i as int), id@);
                lemma_name_index(names.take(i + 1), id@);
                lemma_name_index_prefix(names, id@, i as int + 1);
            }
            return Some(i);
        }
        i = i + 1;
    }
    assert(names.take(i as int) =~= names);
    None
}

/// A name found in a prefix is found there in the whole.
pub proof fn lemma_name_index_prefix(names: Seq<Seq<char>>, id: Seq<char>, n: int)
    requires
        0 <= n <= names.len(),
        name_index(names.take(n), id) >= 0,
    ensures
        name_index(names, id) == name_index(names.take(n), id),
    decreases names.len() - n,
{
    if n < names.len() {
        assert(names.take(n + 1).drop_last() =~= names.take(n));
        lemma_name_index_prefix(names, id, n + 1);
    } else {
        assert(names.take(n) =~= names);
    }
}

} // verus!
