use vstd::prelude::*;
use vstd::utf8::encode_utf8;

use crate::datetime::DateTimeString;
use crate::enums::{MarketBettingType, MarketStatus};
use crate::runner::{kept_date, opt_text};
use crate::strings::{FixedSizeString, StringSetExtNeq, str_eq};

verus! {

/// A market definition lacked a field that it must have.
#[derive(Debug, Clone, Copy)]
pub struct DataError {
    pub missing_field: &'static str,
}

/// The definition of a market (`marketDefinition`). The base rate and the
/// each-way divisor are integer keys of the decimals the stream sends (see
/// `crate::price_size`).
pub struct MarketDefinition {
    pub bet_delay: u16,
    pub betting_type: MarketBettingType,
    pub bsp_market: bool,
    pub bsp_reconciled: bool,
    pub complete: bool,
    pub cross_matching: bool,
    pub discount_allowed: bool,
    pub event_id: u32,
    pub event_type_id: u32,
    pub in_play: bool,
    pub market_base_rate: u32,
    pub number_of_winners: u8,
    pub persistence_enabled: bool,
    pub runners_voidable: bool,
    pub version: u64,
    pub status: MarketStatus,
    pub turn_in_play_enabled: bool,
    pub number_of_active_runners: u16,
    pub timezone: String,
    pub market_type: String,
    pub market_time: DateTimeString,
    pub open_date: DateTimeString,
    pub regulators: Vec<String>,
    pub venue: Option<String>,
    pub market_name: Option<String>,
    pub event_name: Option<String>,
    pub race_type: Option<String>,
    pub country_code: Option<FixedSizeString<2>>,
    pub suspend_time: Option<DateTimeString>,
    pub settled_time: Option<DateTimeString>,
    pub each_way_divisor: Option<u64>,
}

/// What a market definition is, its texts read as characters.
pub struct MarketDefinitionModel {
    pub bet_delay: u16,
    pub betting_type: MarketBettingType,
    pub bsp_market: bool,
    pub bsp_reconciled: bool,
    pub complete: bool,
    pub cross_matching: bool,
    pub discount_allowed: bool,
    pub event_id: u32,
    pub event_type_id: u32,
    pub in_play: bool,
    pub market_base_rate: u32,
    pub number_of_winners: u8,
    pub persistence_enabled: bool,
    pub runners_voidable: bool,
    pub version: u64,
    pub status: MarketStatus,
    pub turn_in_play_enabled: bool,
    pub number_of_active_runners: u16,
    pub timezone: Seq<char>,
    pub market_type: Seq<char>,
    pub market_time: DateTimeString,
    pub open_date: DateTimeString,
    pub regulators: Seq<Seq<char>>,
    pub venue: Option<Seq<char>>,
    pub market_name: Option<Seq<char>>,
    pub event_name: Option<Seq<char>>,
    pub race_type: Option<Seq<char>>,
    pub country_code: Option<Seq<char>>,
    pub suspend_time: Option<DateTimeString>,
    pub settled_time: Option<DateTimeString>,
    pub each_way_divisor: Option<u64>,
}

pub open spec fn texts(v: Seq<String>) -> Seq<Seq<char>> {
    v.map_values(|s: String| s@)
}

pub open spec fn opt_code(c: Option<FixedSizeString<2>>) -> Option<Seq<char>> {
    match c {
        Some(f) => Some(f.text()),
        None => None,
    }
}

impl View for MarketDefinition {
    type V = MarketDefinitionModel;

    open spec fn view(&self) -> MarketDefinitionModel {
        MarketDefinitionModel {
            bet_delay: self.bet_delay,
            betting_type: self.betting_type,
            bsp_market: self.bsp_market,
            bsp_reconciled: self.bsp_reconciled,
            complete: self.complete,
            cross_matching: self.cross_matching,
            discount_allowed: self.discount_allowed,
            event_id: self.event_id,
            event_type_id: self.event_type_id,
            in_play: self.in_play,
            market_base_rate: self.market_base_rate,
            number_of_winners: self.number_of_winners,
            persistence_enabled: self.persistence_enabled,
            runners_voidable: self.runners_voidable,
            version: self.version,
            status: self.status,
            turn_in_play_enabled: self.turn_in_play_enabled,
            number_of_active_runners: self.number_of_active_runners,
            timezone: self.timezone@,
            market_type: self.market_type@,
            market_time: self.market_time,
            open_date: self.open_date,
            regulators: texts(self.regulators@),
            venue: opt_text(self.venue),
            market_name: opt_text(self.market_name),
            event_name: opt_text(self.event_name),
            race_type: opt_text(self.race_type),
            country_code: opt_code(self.country_code),
            suspend_time: self.suspend_time,
            settled_time: self.settled_time,
            each_way_divisor: self.each_way_divisor,
        }
    }
}

/// The fields of a market definition message, each present or not.
pub struct MarketDefinitionUpdate {
    pub bet_delay: Option<u16>,
    pub betting_type: Option<MarketBettingType>,
    pub bsp_market: Option<bool>,
    pub bsp_reconciled: Option<bool>,
    pub complete: Option<bool>,
    pub cross_matching: Option<bool>,
    pub discount_allowed: Option<bool>,
    pub event_id: Option<u32>,
    pub event_type_id: Option<u32>,
    pub in_play: Option<bool>,
    pub market_base_rate: Option<u32>,
    pub number_of_winners: Option<u8>,
    pub persistence_enabled: Option<bool>,
    pub runners_voidable: Option<bool>,
    pub version: Option<u64>,
    pub status: Option<MarketStatus>,
    pub turn_in_play_enabled: Option<bool>,
    pub number_of_active_runners: Option<u16>,
    pub timezone: Option<String>,
    pub market_type: Option<String>,
    pub market_time: Option<DateTimeString>,
    pub open_date: Option<DateTimeString>,
    pub regulators: Option<Vec<String>>,
    pub venue: Option<String>,
    pub market_name: Option<String>,
    pub event_name: Option<String>,
    pub race_type: Option<String>,
    pub country_code: Option<String>,
    pub suspend_time: Option<DateTimeString>,
    pub settled_time: Option<DateTimeString>,
    pub each_way_divisor: Option<u64>,
}

/// A country code given is two bytes long.
pub open spec fn country_code_ok(u: MarketDefinitionUpdate) -> bool {
    u.country_code matches Some(c) ==> encode_utf8(c@).len() == 2
}

/// Whether the update's country code, where it gives one, is two bytes.
pub fn code_ok(u: &MarketDefinitionUpdate) -> (r: bool)
    ensures
        r == country_code_ok(*u),
{
    match &u.country_code {
        Some(c) => c.as_str().as_bytes().len() == 2,
        None => true,
    }
}

/// A country code that is not two bytes is read only after every required
/// field but the opening date: a new definition or a definition replaced
/// from such a message must lack one of those fields.
pub open spec fn create_ok(u: MarketDefinitionUpdate) -> bool {
    country_code_ok(u) || (create_missing(u) matches Some(f) && f != "openDate"@)
}

pub open spec fn replace_ok(u: MarketDefinitionUpdate) -> bool {
    country_code_ok(u) || (replace_missing(u) matches Some(f) && f != "openDate"@)
}

/// In place, a country code that is not two bytes is read only once every
/// required field has been set.
pub open spec fn update_ok(u: MarketDefinitionUpdate) -> bool {
    country_code_ok(u) || update_missing(u) is Some
}

/// The first required field that a new definition lacks, in the order in
/// which a new definition is checked.
pub open spec fn create_missing(u: MarketDefinitionUpdate) -> Option<Seq<char>> {
    if u.bet_delay is None {
        Some("betDelay"@)
    } else if u.betting_type is None {
        Some("bettingType"@)
    } else if u.regulators is None {
        Some("regulators"@)
    } else if u.bsp_reconciled is None {
        Some("bspReconciled"@)
    } else if u.bsp_market is None {
        Some("bspMarket"@)
    } else if u.complete is None {
        Some("complete"@)
    } else if u.cross_matching is None {
        Some("crossMatching"@)
    } else if u.discount_allowed is None {
        Some("discountAllowed"@)
    } else if u.event_id is None {
        Some("eventId"@)
    } else if u.event_type_id is None {
        Some("eventTypeId"@)
    } else if u.in_play is None {
        Some("inPlay"@)
    } else if u.market_base_rate is None {
        Some("marketBaseRate"@)
    } else if u.number_of_winners is None {
        Some("numberOfWinners"@)
    } else if u.persistence_enabled is None {
        Some("persistenceEnabled"@)
    } else if u.runners_voidable is None {
        Some("runnersVoidable"@)
    } else if u.version is None {
        Some("version"@)
    } else if u.status is None {
        Some("status"@)
    } else if u.turn_in_play_enabled is None {
        Some("turnInPlayEnabled"@)
    } else if u.number_of_active_runners is None {
        Some("numberOfActiveRunners"@)
    } else if u.market_time is None {
        Some("marketTime"@)
    } else if u.market_type is None {
        Some("marketType"@)
    } else if u.timezone is None {
        Some("timezone"@)
    } else if u.open_date is None {
        Some("openDate"@)
    } else {
        None
    }
}

/// The first required field that an update lacks, in the order in which an
/// update of a definition in place is checked.
pub open spec fn update_missing(u: MarketDefinitionUpdate) -> Option<Seq<char>> {
    if u.bet_delay is None {
        Some("betDelay"@)
    } else if u.betting_type is None {
        Some("bettingType"@)
    } else if u.bsp_market is None {
        Some("bspMarket"@)
    } else if u.bsp_reconciled is None {
        Some("bspReconciled"@)
    } else if u.complete is None {
        Some("complete"@)
    } else if u.cross_matching is None {
        Some("crossMatching"@)
    } else if u.discount_allowed is None {
        Some("discountAllowed"@)
    } else if u.event_id is None {
        Some("eventId"@)
    } else if u.event_type_id is None {
        Some("eventTypeId"@)
    } else if u.in_play is None {
        Some("inPlay"@)
    } else if u.market_base_rate is None {
        Some("marketBaseRate"@)
    } else if u.number_of_winners is None {
        Some("numberOfWinners"@)
    } else if u.persistence_enabled is None {
        Some("persistenceEnabled"@)
    } else if u.runners_voidable is None {
        Some("runnersVoidable"@)
    } else if u.version is None {
        Some("version"@)
    } else if u.status is None {
        Some("status"@)
    } else if u.turn_in_play_enabled is None {
        Some("turnInPlayEnabled"@)
    } else if u.number_of_active_runners is None {
        Some("numberOfActiveRunners"@)
    } else if u.timezone is None {
        Some("timezone"@)
    } else if u.market_type is None {
        Some("marketType"@)
    } else if u.market_time is None {
        Some("marketTime"@)
    } else if u.open_date is None {
        Some("openDate"@)
    } else if u.regulators is None {
        Some("regulators"@)
    } else {
        None
    }
}

/// The first required field that an update lacks, in the order in which an
/// update into a new definition is checked.
pub open spec fn replace_missing(u: MarketDefinitionUpdate) -> Option<Seq<char>> {
    if u.bet_delay is None {
        Some("betDelay"@)
    } else if u.betting_type is None {
        Some("bettingType"@)
    } else if u.bsp_market is None {
        Some("bspMarket"@)
    } else if u.bsp_reconciled is None {
        Some("bspReconciled"@)
    } else if u.complete is None {
        Some("complete"@)
    } else if u.cross_matching is None {
        Some("crossMatching"@)
    } else if u.discount_allowed is None {
        Some("discountAllowed"@)
    } else if u.event_id is None {
        Some("eventId"@)
    } else if u.event_type_id is None {
        Some("eventTypeId"@)
    } else if u.in_play is None {
        Some("inPlay"@)
    } else if u.market_base_rate is None {
        Some("marketBaseRate"@)
    } else if u.number_of_winners is None {
        Some("numberOfWinners"@)
    } else if u.persistence_enabled is None {
        Some("persistenceEnabled"@)
    } else if u.runners_voidable is None {
        Some("runnersVoidable"@)
    } else if u.version is None {
        Some("version"@)
    } else if u.status is None {
        Some("status"@)
    } else if u.turn_in_play_enabled is None {
        Some("turnInPlayEnabled"@)
    } else if u.number_of_active_runners is None {
        Some("numberOfActiveRunners"@)
    } else if u.market_time is None {
        Some("marketTime"@)
    } else if u.market_type is None {
        Some("marketType"@)
    } else if u.regulators is None {
        Some("regulators"@)
    } else if u.timezone is None {
        Some("timezone"@)
    } else if u.open_date is None {
        Some("openDate"@)
    } else {
        None
    }
}

/// How many required fields an update in place sets before it stops: the
/// position of the first missing field, or all of them.
pub open spec fn update_rank(u: MarketDefinitionUpdate) -> int {
    if u.bet_delay is None {
        0
    } else if u.betting_type is None {
        1
    } else if u.bsp_market is None {
        2
    } else if u.bsp_reconciled is None {
        3
    } else if u.complete is None {
        4
    } else if u.cross_matching is None {
        5
    } else if u.discount_allowed is None {
        6
    } else if u.event_id is None {
        7
    } else if u.event_type_id is None {
        8
    } else if u.in_play is None {
        9
    } else if u.market_base_rate is None {
        10
    } else if u.number_of_winners is None {
        11
    } else if u.persistence_enabled is None {
        12
    } else if u.runners_voidable is None {
        13
    } else if u.version is None {
        14
    } else if u.status is None {
        15
    } else if u.turn_in_play_enabled is None {
        16
    } else if u.number_of_active_runners is None {
        17
    } else if u.timezone is None {
        18
    } else if u.market_type is None {
        19
    } else if u.market_time is None {
        20
    } else if u.open_date is None {
        21
    } else if u.regulators is None {
        22
    } else {
        23
    }
}

/// A new definition from an update that has every required field.
pub open spec fn definition_from(u: MarketDefinitionUpdate) -> MarketDefinitionModel {
    MarketDefinitionModel {
        bet_delay: u.bet_delay->0,
        betting_type: u.betting_type->0,
        regulators: texts(u.regulators->0@),
        bsp_reconciled: u.bsp_reconciled->0,
        bsp_market: u.bsp_market->0,
        complete: u.complete->0,
        cross_matching: u.cross_matching->0,
        discount_allowed: u.discount_allowed->0,
        event_id: u.event_id->0,
        event_type_id: u.event_type_id->0,
        in_play: u.in_play->0,
        market_base_rate: u.market_base_rate->0,
        number_of_winners: u.number_of_winners->0,
        persistence_enabled: u.persistence_enabled->0,
        runners_voidable: u.runners_voidable->0,
        version: u.version->0,
        status: u.status->0,
        turn_in_play_enabled: u.turn_in_play_enabled->0,
        number_of_active_runners: u.number_of_active_runners->0,
        market_time: u.market_time->0,
        market_type: u.market_type->0@,
        timezone: u.timezone->0@,
        open_date: u.open_date->0,
        venue: opt_text(u.venue),
        market_name: opt_text(u.market_name),
        event_name: opt_text(u.event_name),
        race_type: opt_text(u.race_type),
        country_code: opt_text(u.country_code),
        suspend_time: u.suspend_time,
        settled_time: u.settled_time,
        each_way_divisor: u.each_way_divisor,
    }
}

/// A definition after an update in place. The required fields are set in
/// order up to the first missing one; the others only when none is missing.
/// A name, venue or event name that the update lacks stays as it was, and
/// clears the race type.
pub open spec fn definition_after_update(d: MarketDefinitionModel, u: MarketDefinitionUpdate) -> MarketDefinitionModel {
    let r = update_rank(u);
    let all = r == 23;
    MarketDefinitionModel {
        bet_delay: if r > 0 { u.bet_delay->0 } else { d.bet_delay },
        betting_type: if r > 1 { u.betting_type->0 } else { d.betting_type },
        bsp_market: if r > 2 { u.bsp_market->0 } else { d.bsp_market },
        bsp_reconciled: if r > 3 { u.bsp_reconciled->0 } else { d.bsp_reconciled },
        complete: if r > 4 { u.complete->0 } else { d.complete },
        cross_matching: if r > 5 { u.cross_matching->0 } else { d.cross_matching },
        discount_allowed: if r > 6 { u.discount_allowed->0 } else { d.discount_allowed },
        event_id: if r > 7 { u.event_id->0 } else { d.event_id },
        event_type_id: if r > 8 { u.event_type_id->0 } else { d.event_type_id },
        in_play: if r > 9 { u.in_play->0 } else { d.in_play },
        market_base_rate: if r > 10 { u.market_base_rate->0 } else { d.market_base_rate },
        number_of_winners: if r > 11 { u.number_of_winners->0 } else { d.number_of_winners },
        persistence_enabled: if r > 12 { u.persistence_enabled->0 } else { d.persistence_enabled },
        runners_voidable: if r > 13 { u.runners_voidable->0 } else { d.runners_voidable },
        version: if r > 14 { u.version->0 } else { d.version },
        status: if r > 15 { u.status->0 } else { d.status },
        turn_in_play_enabled: if r > 16 { u.turn_in_play_enabled->0 } else { d.turn_in_play_enabled },
        number_of_active_runners: if r > 17 { u.number_of_active_runners->0 } else { d.number_of_active_runners },
        timezone: if r > 18 { u.timezone->0@ } else { d.timezone },
        market_type: if r > 19 { u.market_type->0@ } else { d.market_type },
        market_time: if r > 20 { kept_date(Some(d.market_time), u.market_time)->0 } else { d.market_time },
        open_date: if r > 21 { kept_date(Some(d.open_date), u.open_date)->0 } else { d.open_date },
        regulators: if r > 22 { texts(u.regulators->0@) } else { d.regulators },
        country_code: if all { opt_text(u.country_code) } else { d.country_code },
        settled_time: if all { kept_date(d.settled_time, u.settled_time) } else { d.settled_time },
        suspend_time: if all { kept_date(d.suspend_time, u.suspend_time) } else { d.suspend_time },
        each_way_divisor: if all { u.each_way_divisor } else { d.each_way_divisor },
        race_type: if !all {
            d.race_type
        } else if u.venue is None || u.market_name is None || u.event_name is None {
            None
        } else {
            opt_text(u.race_type)
        },
        venue: if all && u.venue is Some { opt_text(u.venue) } else { d.venue },
        market_name: if all && u.market_name is Some { opt_text(u.market_name) } else { d.market_name },
        event_name: if all && u.event_name is Some { opt_text(u.event_name) } else { d.event_name },
    }
}

/// A new definition from an earlier one and an update that has every
/// required field: each field from the update (dates with the same text as
/// before stay as they were).
pub open spec fn definition_replaced(d: MarketDefinitionModel, u: MarketDefinitionUpdate) -> MarketDefinitionModel {
    MarketDefinitionModel {
        bet_delay: u.bet_delay->0,
        betting_type: u.betting_type->0,
        bsp_market: u.bsp_market->0,
        bsp_reconciled: u.bsp_reconciled->0,
        complete: u.complete->0,
        cross_matching: u.cross_matching->0,
        discount_allowed: u.discount_allowed->0,
        event_id: u.event_id->0,
        event_type_id: u.event_type_id->0,
        in_play: u.in_play->0,
        market_base_rate: u.market_base_rate->0,
        number_of_winners: u.number_of_winners->0,
        persistence_enabled: u.persistence_enabled->0,
        runners_voidable: u.runners_voidable->0,
        version: u.version->0,
        status: u.status->0,
        turn_in_play_enabled: u.turn_in_play_enabled->0,
        number_of_active_runners: u.number_of_active_runners->0,
        market_time: kept_date(Some(d.market_time), u.market_time)->0,
        market_type: u.market_type->0@,
        regulators: texts(u.regulators->0@),
        timezone: u.timezone->0@,
        open_date: kept_date(Some(d.open_date), u.open_date)->0,
        venue: opt_text(u.venue),
        market_name: opt_text(u.market_name),
        event_name: opt_text(u.event_name),
        race_type: opt_text(u.race_type),
        country_code: opt_text(u.country_code),
        suspend_time: kept_date(d.suspend_time, u.suspend_time),
        settled_time: kept_date(d.settled_time, u.settled_time),
        each_way_divisor: u.each_way_divisor,
    }
}

/// The three ways of reading a definition message (new, in place, and into
/// a new definition) require the same fields; where they are all there and
/// the message names the venue, the market and the event, updating in place
/// and into a new definition give the same definition.
pub proof fn lemma_update_paths_agree(d: MarketDefinitionModel, u: MarketDefinitionUpdate)
    ensures
        create_missing(u) is None <==> update_missing(u) is None,
        update_missing(u) is None <==> replace_missing(u) is None,
        update_missing(u) is None && u.venue is Some && u.market_name is Some && u.event_name is Some
            ==> definition_after_update(d, u) == definition_replaced(d, u),
{
}

/// A message applied to the definition it created leaves it as it is: into
/// a new definition always; in place where it names the venue, the market
/// and the event, or no race type.
pub proof fn lemma_redefinition_is_stable(u: MarketDefinitionUpdate)
    requires
        create_missing(u) is None,
    ensures
        definition_replaced(definition_from(u), u) == definition_from(u),
        (u.venue is Some && u.market_name is Some && u.event_name is Some) || u.race_type is None
            ==> definition_after_update(definition_from(u), u) == definition_from(u),
{
}

fn copy_texts(v: &Vec<String>) -> (r: Vec<String>)
    ensures
        texts(r@) == texts(v@),
{
    let mut out: Vec<String> = Vec::new();
    let mut i: usize = 0;
    while i < v.len()
        invariant
            i <= v@.len(),
            out@.len() == i,
            forall|k: int| 0 <= k < i ==> (#[trigger] out@[k])@ == v@[k]@,
        decreases v@.len() - i,
    {
        out.push(v[i].clone());
        i = i + 1;
    }
    assert(texts(out@) =~= texts(v@));
    out
}

fn copy_opt_text(s: &Option<String>) -> (r: Option<String>)
    ensures
        opt_text(r) == opt_text(*s),
{
    match s {
        Some(t) => Some(t.clone()),
        None => None,
    }
}

fn code_of(s: &Option<String>) -> (r: Option<FixedSizeString<2>>)
    requires
        s matches Some(c) ==> encode_utf8(c@).len() == 2,
    ensures
        opt_code(r) == opt_text(*s),
{
    match s {
        Some(c) => match FixedSizeString::<2>::new(c.as_str()) {
            Ok(f) => Some(f),
            Err(_) => {
                proof {
                    assert(false);
                }
                None
            },
        },
        None => None,
    }
}

/// The date of an update, or the one held where the update names the same
/// text.
fn keep_date(old: &Option<DateTimeString>, new: &Option<DateTimeString>) -> (r: Option<DateTimeString>)
    ensures
        r == kept_date(*old, *new),
{
    match (old, new) {
        (Some(o), Some(n)) => {
            if str_eq(o.as_str(), n.as_str()) {
                *old
            } else {
                *new
            }
        },
        _ => *new,
    }
}

impl MarketDefinitionUpdate {
    /// A new definition, or the first required field (in this order) that
    /// the update lacks.
    pub fn create(self) -> (r: Result<MarketDefinition, DataError>)
        requires
            create_ok(self),
        ensures
            match r {
                Ok(d) => create_missing(self) is None && d@ == definition_from(self),
                Err(e) => create_missing(self) == Some(e.missing_field@),
            },
    {
        let bet_delay = match self.bet_delay { Some(v) => v, None => return Err(DataError { missing_field: "betDelay" }) };
        let betting_type = match self.betting_type { Some(v) => v, None => return Err(DataError { missing_field: "bettingType" }) };
        let regulators = match &self.regulators { Some(v) => copy_texts(v), None => return Err(DataError { missing_field: "regulators" }) };
        let bsp_reconciled = match self.bsp_reconciled { Some(v) => v, None => return Err(DataError { missing_field: "bspReconciled" }) };
        let bsp_market = match self.bsp_market { Some(v) => v, None => return Err(DataError { missing_field: "bspMarket" }) };
        let complete = match self.complete { Some(v) => v, None => return Err(DataError { missing_field: "complete" }) };
        let cross_matching = match self.cross_matching { Some(v) => v, None => return Err(DataError { missing_field: "crossMatching" }) };
        let discount_allowed = match self.discount_allowed { Some(v) => v, None => return Err(DataError { missing_field: "discountAllowed" }) };
        let event_id = match self.event_id { Some(v) => v, None => return Err(DataError { missing_field: "eventId" }) };
        let event_type_id = match self.event_type_id { Some(v) => v, None => return Err(DataError { missing_field: "eventTypeId" }) };
        let in_play = match self.in_play { Some(v) => v, None => return Err(DataError { missing_field: "inPlay" }) };
        let market_base_rate = match self.market_base_rate { Some(v) => v, None => return Err(DataError { missing_field: "marketBaseRate" }) };
        let number_of_winners = match self.number_of_winners { Some(v) => v, None => return Err(DataError { missing_field: "numberOfWinners" }) };
        let persistence_enabled = match self.persistence_enabled { Some(v) => v, None => return Err(DataError { missing_field: "persistenceEnabled" }) };
        let runners_voidable = match self.runners_voidable { Some(v) => v, None => return Err(DataError { missing_field: "runnersVoidable" }) };
        let version = match self.version { Some(v) => v, None => return Err(DataError { missing_field: "version" }) };
        let status = match self.status { Some(v) => v, None => return Err(DataError { missing_field: "status" }) };
        let turn_in_play_enabled = match self.turn_in_play_enabled { Some(v) => v, None => return Err(DataError { missing_field: "turnInPlayEnabled" }) };
        let number_of_active_runners = match self.number_of_active_runners { Some(v) => v, None => return Err(DataError { missing_field: "numberOfActiveRunners" }) };
        let market_time = match self.market_time { Some(v) => v, None => return Err(DataError { missing_field: "marketTime" }) };
        let market_type = match &self.market_type { Some(v) => v.clone(), None => return Err(DataError { missing_field: "marketType" }) };
        let timezone = match &self.timezone { Some(v) => v.clone(), None => return Err(DataError { missing_field: "timezone" }) };
        let open_date = match self.open_date { Some(v) => v, None => return Err(DataError { missing_field: "openDate" }) };
        let d = MarketDefinition {
            bet_delay,
            betting_type,
            regulators,
            bsp_reconciled,
            bsp_market,
            complete,
            cross_matching,
            discount_allowed,
            event_id,
            event_type_id,
            in_play,
            market_base_rate,
            number_of_winners,
            persistence_enabled,
            runners_voidable,
            version,
            status,
            turn_in_play_enabled,
            number_of_active_runners,
            market_time,
            market_type,
            timezone,
            open_date,
            venue: copy_opt_text(&self.venue),
            market_name: copy_opt_text(&self.market_name),
            event_name: copy_opt_text(&self.event_name),
            race_type: copy_opt_text(&self.race_type),
            country_code: code_of(&self.country_code),
            suspend_time: self.suspend_time,
            settled_time: self.settled_time,
            each_way_divisor: self.each_way_divisor,
        };
        proof {
            assert(d@.regulators == definition_from(self).regulators);
        }
        Ok(d)
    }

}

pub open spec fn update_field_name(i: int) -> Seq<char> {
    if i == 0 {
        "betDelay"@
    } else if i == 1 {
        "bettingType"@
    } else if i == 2 {
        "bspMarket"@
    } else if i == 3 {
        "bspReconciled"@
    } else if i == 4 {
        "complete"@
    } else if i == 5 {
        "crossMatching"@
    } else if i == 6 {
        "discountAllowed"@
    } else if i == 7 {
        "eventId"@
    } else if i == 8 {
        "eventTypeId"@
    } else if i == 9 {
        "inPlay"@
    } else if i == 10 {
        "marketBaseRate"@
    } else if i == 11 {
        "numberOfWinners"@
    } else if i == 12 {
        "persistenceEnabled"@
    } else if i == 13 {
        "runnersVoidable"@
    } else if i == 14 {
        "version"@
    } else if i == 15 {
        "status"@
    } else if i == 16 {
        "turnInPlayEnabled"@
    } else if i == 17 {
        "numberOfActiveRunners"@
    } else if i == 18 {
        "timezone"@
    } else if i == 19 {
        "marketType"@
    } else if i == 20 {
        "marketTime"@
    } else if i == 21 {
        "openDate"@
    } else if i == 22 {
        "regulators"@
    } else {
        Seq::empty()
    }
}

proof fn lemma_update_missing(u: MarketDefinitionUpdate)
    ensures
        0 <= update_rank(u) <= 23,
        update_missing(u) == if update_rank(u) < 23 {
            Some(update_field_name(update_rank(u)))
        } else {
            None::<Seq<char>>
        },
{
}

/// Every required field before the first missing one is present.
proof fn lemma_update_rank_present(u: MarketDefinitionUpdate)
    ensures
        update_rank(u) > 0 ==> u.bet_delay is Some,
        update_rank(u) > 1 ==> u.betting_type is Some,
        update_rank(u) > 2 ==> u.bsp_market is Some,
        update_rank(u) > 3 ==> u.bsp_reconciled is Some,
        update_rank(u) > 4 ==> u.complete is Some,
        update_rank(u) > 5 ==> u.cross_matching is Some,
        update_rank(u) > 6 ==> u.discount_allowed is Some,
        update_rank(u) > 7 ==> u.event_id is Some,
        update_rank(u) > 8 ==> u.event_type_id is Some,
        update_rank(u) > 9 ==> u.in_play is Some,
        update_rank(u) > 10 ==> u.market_base_rate is Some,
        update_rank(u) > 11 ==> u.number_of_winners is Some,
        update_rank(u) > 12 ==> u.persistence_enabled is Some,
        update_rank(u) > 13 ==> u.runners_voidable is Some,
        update_rank(u) > 14 ==> u.version is Some,
        update_rank(u) > 15 ==> u.status is Some,
        update_rank(u) > 16 ==> u.turn_in_play_enabled is Some,
        update_rank(u) > 17 ==> u.number_of_active_runners is Some,
        update_rank(u) > 18 ==> u.timezone is Some,
        update_rank(u) > 19 ==> u.market_type is Some,
        update_rank(u) > 20 ==> u.market_time is Some,
        update_rank(u) > 21 ==> u.open_date is Some,
        update_rank(u) > 22 ==> u.regulators is Some,
{
}

fn update_rank_of(u: &MarketDefinitionUpdate) -> (r: usize)
    ensures
        r == update_rank(*u),
{
    if u.bet_delay.is_none() {
        0
    } else if u.betting_type.is_none() {
        1
    } else if u.bsp_market.is_none() {
        2
    } else if u.bsp_reconciled.is_none() {
        3
    } else if u.complete.is_none() {
        4
    } else if u.cross_matching.is_none() {
        5
    } else if u.discount_allowed.is_none() {
        6
    } else if u.event_id.is_none() {
        7
    } else if u.event_type_id.is_none() {
        8
    } else if u.in_play.is_none() {
        9
    } else if u.market_base_rate.is_none() {
        10
    } else if u.number_of_winners.is_none() {
        11
    } else if u.persistence_enabled.is_none() {
        12
    } else if u.runners_voidable.is_none() {
        13
    } else if u.version.is_none() {
        14
    } else if u.status.is_none() {
        15
    } else if u.turn_in_play_enabled.is_none() {
        16
    } else if u.number_of_active_runners.is_none() {
        17
    } else if u.timezone.is_none() {
        18
    } else if u.market_type.is_none() {
        19
    } else if u.market_time.is_none() {
        20
    } else if u.open_date.is_none() {
        21
    } else if u.regulators.is_none() {
        22
    } else {
        23
    }
}

fn update_field_name_of(i: usize) -> (r: &'static str)
    requires
        i < 23,
    ensures
        r@ == update_field_name(i as int),
{
    if i == 0 {
        "betDelay"
    } else if i == 1 {
        "bettingType"
    } else if i == 2 {
        "bspMarket"
    } else if i == 3 {
        "bspReconciled"
    } else if i == 4 {
        "complete"
    } else if i == 5 {
        "crossMatching"
    } else if i == 6 {
        "discountAllowed"
    } else if i == 7 {
        "eventId"
    } else if i == 8 {
        "eventTypeId"
    } else if i == 9 {
        "inPlay"
    } else if i == 10 {
        "marketBaseRate"
    } else if i == 11 {
        "numberOfWinners"
    } else if i == 12 {
        "persistenceEnabled"
    } else if i == 13 {
        "runnersVoidable"
    } else if i == 14 {
        "version"
    } else if i == 15 {
        "status"
    } else if i == 16 {
        "turnInPlayEnabled"
    } else if i == 17 {
        "numberOfActiveRunners"
    } else if i == 18 {
        "timezone"
    } else if i == 19 {
        "marketType"
    } else if i == 20 {
        "marketTime"
    } else if i == 21 {
        "openDate"
    } else if i == 22 {
        "regulators"
    } else {
        ""
    }
}

/// The value an update gives, where it is to be taken, else the one kept.
fn chosen<T: Copy>(take: bool, given: Option<T>, kept: T) -> (r: T)
    requires
        take ==> given is Some,
    ensures
        r == if take { given->0 } else { kept },
{
    if take {
        given.unwrap()
    } else {
        kept
    }
}

/// Sets a text where the update gives one; keeps it otherwise.
fn set_given_text(target: &mut Option<String>, given: &Option<String>)
    ensures
        opt_text(*final(target)) == if given is Some { opt_text(*given) } else { opt_text(*old(target)) },
{
    match given {
        Some(v) => {
            target.set_if_ne(v.as_str());
        },
        None => {},
    }
}

impl MarketDefinitionUpdate {
    /// Sets the delay, the betting type and the first flags, those before the first missing required field.
    fn set_required_flags(&self, market: &mut MarketDefinition, rank: usize)
        requires
            rank > 0 ==> self.bet_delay is Some,
            rank > 1 ==> self.betting_type is Some,
            rank > 2 ==> self.bsp_market is Some,
            rank > 3 ==> self.bsp_reconciled is Some,
            rank > 4 ==> self.complete is Some,
            rank > 5 ==> self.cross_matching is Some,
        ensures
            *final(market) == (MarketDefinition {
                bet_delay: if rank > 0 { self.bet_delay->0 } else { old(market).bet_delay },
                betting_type: if rank > 1 { self.betting_type->0 } else { old(market).betting_type },
                bsp_market: if rank > 2 { self.bsp_market->0 } else { old(market).bsp_market },
                bsp_reconciled: if rank > 3 { self.bsp_reconciled->0 } else { old(market).bsp_reconciled },
                complete: if rank > 4 { self.complete->0 } else { old(market).complete },
                cross_matching: if rank > 5 { self.cross_matching->0 } else { old(market).cross_matching },
                ..*old(market)
            }),
    {
        market.bet_delay = chosen(rank > 0, self.bet_delay, market.bet_delay);
        market.betting_type = chosen(rank > 1, self.betting_type, market.betting_type);
        market.bsp_market = chosen(rank > 2, self.bsp_market, market.bsp_market);
        market.bsp_reconciled = chosen(rank > 3, self.bsp_reconciled, market.bsp_reconciled);
        market.complete = chosen(rank > 4, self.complete, market.complete);
        market.cross_matching = chosen(rank > 5, self.cross_matching, market.cross_matching);
    }

    /// Sets the ids, the rate and the number of winners, those before the first missing required field.
    fn set_required_ids(&self, market: &mut MarketDefinition, rank: usize)
        requires
            rank > 6 ==> self.discount_allowed is Some,
            rank > 7 ==> self.event_id is Some,
            rank > 8 ==> self.event_type_id is Some,
            rank > 9 ==> self.in_play is Some,
            rank > 10 ==> self.market_base_rate is Some,
            rank > 11 ==> self.number_of_winners is Some,
        ensures
            *final(market) == (MarketDefinition {
                discount_allowed: if rank > 6 { self.discount_allowed->0 } else { old(market).discount_allowed },
                event_id: if rank > 7 { self.event_id->0 } else { old(market).event_id },
                event_type_id: if rank > 8 { self.event_type_id->0 } else { old(market).event_type_id },
                in_play: if rank > 9 { self.in_play->0 } else { old(market).in_play },
                market_base_rate: if rank > 10 { self.market_base_rate->0 } else { old(market).market_base_rate },
                number_of_winners: if rank > 11 { self.number_of_winners->0 } else { old(market).number_of_winners },
                ..*old(market)
            }),
    {
        market.discount_allowed = chosen(rank > 6, self.discount_allowed, market.discount_allowed);
        market.event_id = chosen(rank > 7, self.event_id, market.event_id);
        market.event_type_id = chosen(rank > 8, self.event_type_id, market.event_type_id);
        market.in_play = chosen(rank > 9, self.in_play, market.in_play);
        market.market_base_rate = chosen(rank > 10, self.market_base_rate, market.market_base_rate);
        market.number_of_winners = chosen(rank > 11, self.number_of_winners, market.number_of_winners);
    }

    /// Sets the version, the status and the remaining flags, those before the first missing required field.
    fn set_required_states(&self, market: &mut MarketDefinition, rank: usize)
        requires
            rank > 12 ==> self.persistence_enabled is Some,
            rank > 13 ==> self.runners_voidable is Some,
            rank > 14 ==> self.version is Some,
            rank > 15 ==> self.status is Some,
            rank > 16 ==> self.turn_in_play_enabled is Some,
            rank > 17 ==> self.number_of_active_runners is Some,
        ensures
            *final(market) == (MarketDefinition {
                persistence_enabled: if rank > 12 { self.persistence_enabled->0 } else { old(market).persistence_enabled },
                runners_voidable: if rank > 13 { self.runners_voidable->0 } else { old(market).runners_voidable },
                version: if rank > 14 { self.version->0 } else { old(market).version },
                status: if rank > 15 { self.status->0 } else { old(market).status },
                turn_in_play_enabled: if rank > 16 { self.turn_in_play_enabled->0 } else { old(market).turn_in_play_enabled },
                number_of_active_runners: if rank > 17 { self.number_of_active_runners->0 } else { old(market).number_of_active_runners },
                ..*old(market)
            }),
    {
        market.persistence_enabled = chosen(rank > 12, self.persistence_enabled, market.persistence_enabled);
        market.runners_voidable = chosen(rank > 13, self.runners_voidable, market.runners_voidable);
        market.version = chosen(rank > 14, self.version, market.version);
        market.status = chosen(rank > 15, self.status, market.status);
        market.turn_in_play_enabled = chosen(rank > 16, self.turn_in_play_enabled, market.turn_in_play_enabled);
        market.number_of_active_runners = chosen(rank > 17, self.number_of_active_runners, market.number_of_active_runners);
    }

    fn set_required_texts(&self, market: &mut MarketDefinition, rank: usize)
        requires
            rank > 0 ==> self.bet_delay is Some,
            rank > 1 ==> self.betting_type is Some,
            rank > 2 ==> self.bsp_market is Some,
            rank > 3 ==> self.bsp_reconciled is Some,
            rank > 4 ==> self.complete is Some,
            rank > 5 ==> self.cross_matching is Some,
            rank > 6 ==> self.discount_allowed is Some,
            rank > 7 ==> self.event_id is Some,
            rank > 8 ==> self.event_type_id is Some,
            rank > 9 ==> self.in_play is Some,
            rank > 10 ==> self.market_base_rate is Some,
            rank > 11 ==> self.number_of_winners is Some,
            rank > 12 ==> self.persistence_enabled is Some,
            rank > 13 ==> self.runners_voidable is Some,
            rank > 14 ==> self.version is Some,
            rank > 15 ==> self.status is Some,
            rank > 16 ==> self.turn_in_play_enabled is Some,
            rank > 17 ==> self.number_of_active_runners is Some,
            rank > 18 ==> self.timezone is Some,
            rank > 19 ==> self.market_type is Some,
            rank > 20 ==> self.market_time is Some,
            rank > 21 ==> self.open_date is Some,
            rank > 22 ==> self.regulators is Some,
        ensures
            final(market)@ == (MarketDefinitionModel {
                timezone: if rank > 18 { self.timezone->0@ } else { old(market)@.timezone },
                market_type: if rank > 19 { self.market_type->0@ } else { old(market)@.market_type },
                market_time: if rank > 20 { kept_date(Some(old(market)@.market_time), self.market_time)->0 } else { old(market)@.market_time },
                open_date: if rank > 21 { kept_date(Some(old(market)@.open_date), self.open_date)->0 } else { old(market)@.open_date },
                regulators: if rank > 22 { texts(self.regulators->0@) } else { old(market)@.regulators },
                ..old(market)@
            }),
    {
        if rank > 18 { match &self.timezone { Some(v) => { market.timezone.set_if_ne(v.as_str()); }, None => {} } }
        if rank > 19 { match &self.market_type { Some(v) => { market.market_type.set_if_ne(v.as_str()); }, None => {} } }
        market.market_time = if rank > 20 { keep_date(&Some(market.market_time), &self.market_time).unwrap() } else { market.market_time };
        market.open_date = if rank > 21 { keep_date(&Some(market.open_date), &self.open_date).unwrap() } else { market.open_date };
        if rank > 22 { match &self.regulators { Some(v) => { market.regulators = copy_texts(v); }, None => {} } }
    }

    fn set_optional(&self, market: &mut MarketDefinition)
        requires
            country_code_ok(*self),
        ensures
            final(market)@ == (MarketDefinitionModel {
                country_code: opt_text(self.country_code),
                settled_time: kept_date(old(market)@.settled_time, self.settled_time),
                suspend_time: kept_date(old(market)@.suspend_time, self.suspend_time),
                each_way_divisor: self.each_way_divisor,
                race_type: if self.venue is None || self.market_name is None || self.event_name is None {
                    None
                } else {
                    opt_text(self.race_type)
                },
                venue: if self.venue is Some { opt_text(self.venue) } else { old(market)@.venue },
                market_name: if self.market_name is Some { opt_text(self.market_name) } else { old(market)@.market_name },
                event_name: if self.event_name is Some { opt_text(self.event_name) } else { old(market)@.event_name },
                ..old(market)@
            }),
    {
        market.country_code = code_of(&self.country_code);
        market.settled_time = keep_date(&market.settled_time, &self.settled_time);
        market.suspend_time = keep_date(&market.suspend_time, &self.suspend_time);
        market.each_way_divisor = self.each_way_divisor;
        let clears_race_type = self.venue.is_none() || self.market_name.is_none() || self.event_name.is_none();
        match &self.race_type {
            Some(v) => {
                market.race_type.set_if_ne(v.as_str());
            },
            None => {
                market.race_type = None;
            },
        }
        set_given_text(&mut market.venue, &self.venue);
        set_given_text(&mut market.market_name, &self.market_name);
        set_given_text(&mut market.event_name, &self.event_name);
        if clears_race_type {
            market.race_type = None;
        }
    }

    /// Updates a definition in place: the required fields are set in order
    /// until one is missing, which is the error; then, when none is missing,
    /// the other fields.
    #[verifier::rlimit(40)]
    pub fn update(self, market: &mut MarketDefinition) -> (r: Result<(), DataError>)
        requires
            update_ok(self),
        ensures
            final(market)@ == definition_after_update(old(market)@, self),
            match r {
                Ok(()) => update_missing(self) is None,
                Err(e) => update_missing(self) == Some(e.missing_field@),
            },
    {
        let rank = update_rank_of(&self);
        proof {
            lemma_update_missing(self);
            lemma_update_rank_present(self);
        }
        self.set_required_flags(market, rank);
        self.set_required_ids(market, rank);
        self.set_required_states(market, rank);
        self.set_required_texts(market, rank);
        if rank < 23 {
            return Err(DataError { missing_field: update_field_name_of(rank) });
        }
        self.set_optional(market);
        Ok(())
    }

    /// A new definition from an earlier one: every field from the update
    /// (dates with the same text as before stay as they were), or the first
    /// required field (in this order) that the update lacks.
    pub fn updated(self, market: &MarketDefinition) -> (r: Result<MarketDefinition, DataError>)
        requires
            replace_ok(self),
        ensures
            match r {
                Ok(d) => replace_missing(self) is None && d@ == definition_replaced(market@, self),
                Err(e) => replace_missing(self) == Some(e.missing_field@),
            },
    {
        let bet_delay = match self.bet_delay { Some(v) => v, None => return Err(DataError { missing_field: "betDelay" }) };
        let betting_type = match self.betting_type { Some(v) => v, None => return Err(DataError { missing_field: "bettingType" }) };
        let bsp_market = match self.bsp_market { Some(v) => v, None => return Err(DataError { missing_field: "bspMarket" }) };
        let bsp_reconciled = match self.bsp_reconciled { Some(v) => v, None => return Err(DataError { missing_field: "bspReconciled" }) };
        let complete = match self.complete { Some(v) => v, None => return Err(DataError { missing_field: "complete" }) };
        let cross_matching = match self.cross_matching { Some(v) => v, None => return Err(DataError { missing_field: "crossMatching" }) };
        let discount_allowed = match self.discount_allowed { Some(v) => v, None => return Err(DataError { missing_field: "discountAllowed" }) };
        let event_id = match self.event_id { Some(v) => v, None => return Err(DataError { missing_field: "eventId" }) };
        let event_type_id = match self.event_type_id { Some(v) => v, None => return Err(DataError { missing_field: "eventTypeId" }) };
        let in_play = match self.in_play { Some(v) => v, None => return Err(DataError { missing_field: "inPlay" }) };
        let market_base_rate = match self.market_base_rate { Some(v) => v, None => return Err(DataError { missing_field: "marketBaseRate" }) };
        let number_of_winners = match self.number_of_winners { Some(v) => v, None => return Err(DataError { missing_field: "numberOfWinners" }) };
        let persistence_enabled = match self.persistence_enabled { Some(v) => v, None => return Err(DataError { missing_field: "persistenceEnabled" }) };
        let runners_voidable = match self.runners_voidable { Some(v) => v, None => return Err(DataError { missing_field: "runnersVoidable" }) };
        let version = match self.version { Some(v) => v, None => return Err(DataError { missing_field: "version" }) };
        let status = match self.status { Some(v) => v, None => return Err(DataError { missing_field: "status" }) };
        let turn_in_play_enabled = match self.turn_in_play_enabled { Some(v) => v, None => return Err(DataError { missing_field: "turnInPlayEnabled" }) };
        let number_of_active_runners = match self.number_of_active_runners { Some(v) => v, None => return Err(DataError { missing_field: "numberOfActiveRunners" }) };
        let market_time = match self.market_time { Some(v) => if str_eq(market.market_time.as_str(), v.as_str()) { market.market_time } else { v }, None => return Err(DataError { missing_field: "marketTime" }) };
        let market_type = match &self.market_type { Some(v) => v.clone(), None => return Err(DataError { missing_field: "marketType" }) };
        let regulators = match &self.regulators { Some(v) => copy_texts(v), None => return Err(DataError { missing_field: "regulators" }) };
        let timezone = match &self.timezone { Some(v) => v.clone(), None => return Err(DataError { missing_field: "timezone" }) };
        let open_date = match self.open_date { Some(v) => if str_eq(market.open_date.as_str(), v.as_str()) { market.open_date } else { v }, None => return Err(DataError { missing_field: "openDate" }) };
        let d = MarketDefinition {
            bet_delay,
            betting_type,
            bsp_market,
            bsp_reconciled,
            complete,
            cross_matching,
            discount_allowed,
            event_id,
            event_type_id,
            in_play,
            market_base_rate,
            number_of_winners,
            persistence_enabled,
            runners_voidable,
            version,
            status,
            turn_in_play_enabled,
            number_of_active_runners,
            market_time,
            market_type,
            regulators,
            timezone,
            open_date,
            venue: copy_opt_text(&self.venue),
            market_name: copy_opt_text(&self.market_name),
            event_name: copy_opt_text(&self.event_name),
            race_type: copy_opt_text(&self.race_type),
            country_code: code_of(&self.country_code),
            suspend_time: keep_date(&market.suspend_time, &self.suspend_time),
            settled_time: keep_date(&market.settled_time, &self.settled_time),
            each_way_divisor: self.each_way_divisor,
        };
        Ok(d)
    }
}

/// The definition of a market not yet defined.
pub open spec fn default_definition() -> MarketDefinitionModel {
    MarketDefinitionModel {
        bet_delay: 0,
        betting_type: MarketBettingType::Odds,
        bsp_market: false,
        bsp_reconciled: false,
        complete: false,
        cross_matching: false,
        discount_allowed: false,
        event_id: 0,
        event_type_id: 0,
        in_play: false,
        market_base_rate: 0,
        number_of_winners: 0,
        persistence_enabled: false,
        runners_voidable: false,
        version: 0,
        status: MarketStatus::InActive,
        turn_in_play_enabled: false,
        number_of_active_runners: 0,
        timezone: Seq::empty(),
        market_type: Seq::empty(),
        market_time: DateTimeString::unset(),
        open_date: DateTimeString::unset(),
        regulators: Seq::empty(),
        venue: None,
        market_name: None,
        event_name: None,
        race_type: None,
        country_code: None,
        suspend_time: None,
        settled_time: None,
        each_way_divisor: None,
    }
}

impl MarketDefinition {
    /// The definition of a market not yet defined: zero, false, empty and
    /// absent throughout, with default status and betting type.
    pub fn default() -> (r: Self)
        ensures
            r@ == default_definition(),
    {
        let r = MarketDefinition {
            bet_delay: 0,
            betting_type: MarketBettingType::default(),
            bsp_market: false,
            bsp_reconciled: false,
            complete: false,
            cross_matching: false,
            discount_allowed: false,
            event_id: 0,
            event_type_id: 0,
            in_play: false,
            market_base_rate: 0,
            number_of_winners: 0,
            persistence_enabled: false,
            runners_voidable: false,
            version: 0,
            status: MarketStatus::default(),
            turn_in_play_enabled: false,
            number_of_active_runners: 0,
            timezone: String::new(),
            market_type: String::new(),
            market_time: DateTimeString::default(),
            open_date: DateTimeString::default(),
            regulators: Vec::new(),
            venue: None,
            market_name: None,
            event_name: None,
            race_type: None,
            country_code: None,
            suspend_time: None,
            settled_time: None,
            each_way_divisor: None,
        };
        assert(texts(r.regulators@) =~= Seq::<Seq<char>>::empty());
        r
    }

    /// A copy of the definition.
    pub fn clone(&self) -> (r: Self)
        ensures
            r@ == self@,
    {
        MarketDefinition {
            bet_delay: self.bet_delay,
            betting_type: self.betting_type,
            bsp_market: self.bsp_market,
            bsp_reconciled: self.bsp_reconciled,
            complete: self.complete,
            cross_matching: self.cross_matching,
            discount_allowed: self.discount_allowed,
            event_id: self.event_id,
            event_type_id: self.event_type_id,
            in_play: self.in_play,
            market_base_rate: self.market_base_rate,
            number_of_winners: self.number_of_winners,
            persistence_enabled: self.persistence_enabled,
            runners_voidable: self.runners_voidable,
            version: self.version,
            status: self.status,
            turn_in_play_enabled: self.turn_in_play_enabled,
            number_of_active_runners: self.number_of_active_runners,
            timezone: self.timezone.clone(),
            market_type: self.market_type.clone(),
            market_time: self.market_time,
            open_date: self.open_date,
            regulators: copy_texts(&self.regulators),
            venue: copy_opt_text(&self.venue),
            market_name: copy_opt_text(&self.market_name),
            event_name: copy_opt_text(&self.event_name),
            race_type: copy_opt_text(&self.race_type),
            country_code: self.country_code,
            suspend_time: self.suspend_time,
            settled_time: self.settled_time,
            each_way_divisor: self.each_way_divisor,
        }
    }
}

} // verus!
