use vstd::prelude::*;

use crate::bflw::market_definition_runner::{
    DefRunnerModel, MarketDefRunnerUpdate, MarketDefinitionRunner, RunnerDefSeq, def_runners,
    def_seq_books, def_seq_defs, opt_books, opt_def_runners, opt_vec_books, opt_vec_defs,
};
use crate::bflw::runner_book::{RunnerBook, all_books_wf};
use crate::market_definition::{
    DataError, MarketDefinitionModel, country_code_ok, create_missing, definition_from,
    definition_replaced, replace_missing, replace_ok,
};
use crate::runner::RunnerModel;

verus! {

/// A market definition in the betfairlightweight form: the definition and
/// its runners.
pub struct MarketDefinition {
    pub def: crate::market_definition::MarketDefinition,
    pub runners: Vec<MarketDefinitionRunner>,
}

pub struct BflwDefinitionModel {
    pub def: MarketDefinitionModel,
    pub runners: Seq<DefRunnerModel>,
}

impl View for MarketDefinition {
    type V = BflwDefinitionModel;

    open spec fn view(&self) -> BflwDefinitionModel {
        BflwDefinitionModel { def: self.def@, runners: def_runners(self.runners@) }
    }
}

/// The fields of a market definition message and, where it lists them, its
/// runners as definition runners.
pub struct MarketDefinitionUpdate {
    pub fields: crate::market_definition::MarketDefinitionUpdate,
    pub runners: Option<Vec<MarketDefinitionRunner>>,
}

/// The required fields that a new definition checks before its runners.
pub open spec fn leading_fields_present(u: crate::market_definition::MarketDefinitionUpdate) -> bool {
    &&& u.bet_delay is Some
    &&& u.betting_type is Some
    &&& u.regulators is Some
    &&& u.bsp_reconciled is Some
    &&& u.bsp_market is Some
    &&& u.complete is Some
    &&& u.cross_matching is Some
    &&& u.discount_allowed is Some
    &&& u.event_id is Some
    &&& u.event_type_id is Some
    &&& u.in_play is Some
    &&& u.market_base_rate is Some
    &&& u.number_of_winners is Some
    &&& u.persistence_enabled is Some
    &&& u.runners_voidable is Some
    &&& u.version is Some
    &&& u.status is Some
    &&& u.turn_in_play_enabled is Some
    &&& u.number_of_active_runners is Some
}

/// The first required field a new definition lacks: its runners come after
/// the number of active runners and before the market time.
pub open spec fn new_missing(u: MarketDefinitionUpdate) -> Option<Seq<char>> {
    if leading_fields_present(u.fields) && u.runners is None {
        Some("runners"@)
    } else {
        create_missing(u.fields)
    }
}

fn leading_present(u: &crate::market_definition::MarketDefinitionUpdate) -> (r: bool)
    ensures
        r == leading_fields_present(*u),
{
    u.bet_delay.is_some() && u.betting_type.is_some() && u.regulators.is_some() && u.bsp_reconciled.is_some()
        && u.bsp_market.is_some() && u.complete.is_some() && u.cross_matching.is_some()
        && u.discount_allowed.is_some() && u.event_id.is_some() && u.event_type_id.is_some()
        && u.in_play.is_some() && u.market_base_rate.is_some() && u.number_of_winners.is_some()
        && u.persistence_enabled.is_some() && u.runners_voidable.is_some() && u.version.is_some()
        && u.status.is_some() && u.turn_in_play_enabled.is_some()
        && u.number_of_active_runners.is_some()
}

fn copy_def_runners(v: &Vec<MarketDefinitionRunner>) -> (r: Vec<MarketDefinitionRunner>)
    ensures
        def_runners(r@) == def_runners(v@),
{
    let mut out: Vec<MarketDefinitionRunner> = Vec::with_capacity(v.len());
    let mut i: usize = 0;
    while i < v.len()
        invariant
            i <= v@.len(),
            out@.len() == i,
            forall|k: int| 0 <= k < i ==> (#[trigger] out@[k])@ == v@[k]@,
        decreases v@.len() - i,
    {
        out.push(v[i].clone());
        i = i + 1;
    }
    assert(def_runners(out@) =~= def_runners(v@));
    out
}

impl MarketDefinition {
    pub fn new(change: MarketDefinitionUpdate) -> (r: Result<Self, DataError>)
        requires
            country_code_ok(change.fields) || (new_missing(change) matches Some(f) && f != "openDate"@),
        ensures
            match r {
                Ok(d) => new_missing(change) is None && d@ == (BflwDefinitionModel {
                    def: definition_from(change.fields),
                    runners: def_runners(change.runners->0@),
                }),
                Err(e) => new_missing(change) == Some(e.missing_field@),
            },
    {
        if change.runners.is_none() && leading_present(&change.fields) {
            return Err(DataError { missing_field: "runners" });
        }
        let def = match change.fields.create() {
            Ok(d) => d,
            Err(e) => {
                return Err(e);
            },
        };
        match change.runners {
            Some(runners) => Ok(MarketDefinition { def, runners }),
            None => Err(DataError { missing_field: "runners" }),
        }
    }

    /// The definition after a change; this one is left as it was. Runners
    /// the change does not give stay.
    pub fn update_from_change(&self, change: MarketDefinitionUpdate) -> (r: Result<Self, DataError>)
        requires
            replace_ok(change.fields),
        ensures
            match r {
                Ok(d) => replace_missing(change.fields) is None && d@ == (BflwDefinitionModel {
                    def: definition_replaced(self.def@, change.fields),
                    runners: match change.runners {
                        Some(rs) => def_runners(rs@),
                        None => self@.runners,
                    },
                }),
                Err(e) => replace_missing(change.fields) == Some(e.missing_field@),
            },
    {
        let def = match change.fields.updated(&self.def) {
            Ok(d) => d,
            Err(e) => {
                return Err(e);
            },
        };
        let runners = match change.runners {
            Some(rs) => rs,
            None => copy_def_runners(&self.runners),
        };
        Ok(MarketDefinition { def, runners })
    }

    pub fn clone(&self) -> (r: Self)
        ensures
            r@ == self@,
    {
        MarketDefinition { def: self.def.clone(), runners: copy_def_runners(&self.runners) }
    }
}

pub open spec fn opt_bflw_def(d: Option<&MarketDefinition>) -> Option<BflwDefinitionModel> {
    match d {
        Some(x) => Some(x@),
        None => None,
    }
}

pub open spec fn base_def_runners(d: Option<BflwDefinitionModel>) -> Option<Seq<DefRunnerModel>> {
    match d {
        Some(x) => Some(x.runners),
        None => None,
    }
}

/// The definition a market definition message gives, from the market's
/// earlier one where there is one, else new; or the first required field it
/// lacks. Its runners are one per runner the message lists, in its order,
/// where some of them is new or changed; otherwise the earlier ones.
pub open spec fn bflw_next_def(
    def: Option<BflwDefinitionModel>,
    books: Option<Seq<RunnerModel>>,
    u: crate::market_definition::MarketDefinitionUpdate,
    rd: Option<Seq<MarketDefRunnerUpdate>>,
) -> Result<BflwDefinitionModel, Seq<char>> {
    let given: Option<Seq<DefRunnerModel>> = match rd {
        Some(ds) => def_seq_defs(base_def_runners(def), ds),
        None => None,
    };
    match def {
        Some(d) => match replace_missing(u) {
            Some(f) => Err(f),
            None => Ok(
                BflwDefinitionModel {
                    def: definition_replaced(d.def, u),
                    runners: match given {
                        Some(g) => g,
                        None => d.runners,
                    },
                },
            ),
        },
        None => {
            let nm = if leading_fields_present(u) && given is None {
                Some("runners"@)
            } else {
                create_missing(u)
            };
            match nm {
                Some(f) => Err(f),
                None => Ok(BflwDefinitionModel { def: definition_from(u), runners: given->0 }),
            }
        },
    }
}

/// The runner books a market definition message gives: those its runners
/// change or add, where it lists runners.
pub open spec fn bflw_next_books(
    def: Option<BflwDefinitionModel>,
    books: Option<Seq<RunnerModel>>,
    rd: Option<Seq<MarketDefRunnerUpdate>>,
) -> Option<Seq<RunnerModel>> {
    match rd {
        Some(ds) => def_seq_books(books, ds),
        None => None,
    }
}

pub open spec fn opt_slice_defs(rd: Option<&[MarketDefRunnerUpdate]>) -> Option<Seq<MarketDefRunnerUpdate>> {
    match rd {
        Some(s) => Some(s@),
        None => None,
    }
}

/// The market definition of a market change (`marketDefinition`).
pub struct MarketDefinitionDeser<'a> {
    pub def: Option<&'a MarketDefinition>,
    pub runners: Option<&'a [RunnerBook]>,
}

impl<'a> MarketDefinitionDeser<'a> {
    pub fn deserialize(
        self,
        fields: crate::market_definition::MarketDefinitionUpdate,
        runner_defs: Option<&[MarketDefRunnerUpdate]>,
    ) -> (r: Result<(MarketDefinition, Option<Vec<RunnerBook>>), DataError>)
        requires
            country_code_ok(fields) || (bflw_next_def(
                opt_bflw_def(self.def),
                opt_books(self.runners),
                fields,
                opt_slice_defs(runner_defs),
            ) matches Err(f) && f != "openDate"@),
            self.runners matches Some(s) ==> all_books_wf(s@),
        ensures
            match r {
                Ok((d, b)) => {
                    &&& bflw_next_def(opt_bflw_def(self.def), opt_books(self.runners), fields, opt_slice_defs(runner_defs))
                        == Ok::<BflwDefinitionModel, Seq<char>>(d@)
                    &&& opt_vec_books(b) == bflw_next_books(opt_bflw_def(self.def), opt_books(self.runners), opt_slice_defs(runner_defs))
                    &&& b matches Some(v) ==> all_books_wf(v@)
                },
                Err(e) => bflw_next_def(opt_bflw_def(self.def), opt_books(self.runners), fields, opt_slice_defs(runner_defs))
                    == Err::<BflwDefinitionModel, Seq<char>>(e.missing_field@),
            },
    {
        let mut given: Option<Vec<MarketDefinitionRunner>> = None;
        let mut books: Option<Vec<RunnerBook>> = None;
        match runner_defs {
            Some(ds) => {
                let from: Option<&[MarketDefinitionRunner]> = match self.def {
                    Some(d) => Some(d.runners.as_slice()),
                    None => None,
                };
                assert(opt_def_runners(from) == base_def_runners(opt_bflw_def(self.def)));
                let (d, b) = RunnerDefSeq(from, self.runners).deserialize(ds);
                given = d;
                books = b;
            },
            None => {},
        }
        let upt = MarketDefinitionUpdate { fields, runners: given };
        let def = match self.def {
            Some(d) => d.update_from_change(upt),
            None => MarketDefinition::new(upt),
        };
        match def {
            Ok(d) => Ok((d, books)),
            Err(e) => Err(e),
        }
    }
}

} // verus!
