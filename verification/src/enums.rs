use vstd::prelude::*;

verus! {

/// The state of a market.
#[derive(Debug, PartialEq, Eq, Structural, Copy, Clone)]
pub enum MarketStatus {
    InActive,
    Open,
    Suspended,
    Closed,
}

/// The name that the stream gives each value.
pub open spec fn market_status_name(v: MarketStatus) -> Seq<char> {
    match v {
        MarketStatus::InActive => "INACTIVE"@,
        MarketStatus::Open => "OPEN"@,
        MarketStatus::Suspended => "SUSPENDED"@,
        MarketStatus::Closed => "CLOSED"@,
    }
}

/// Distinct market states have distinct names.
pub proof fn lemma_market_status_names_distinct(a: MarketStatus, b: MarketStatus)
    requires
        market_status_name(a) == market_status_name(b),
    ensures
        a == b,
{
    reveal_strlit("INACTIVE");
    reveal_strlit("OPEN");
    reveal_strlit("SUSPENDED");
    reveal_strlit("CLOSED");
    assert(market_status_name(MarketStatus::InActive).len() == 8);
    assert(market_status_name(MarketStatus::Open).len() == 4);
    assert(market_status_name(MarketStatus::Suspended).len() == 9);
    assert(market_status_name(MarketStatus::Closed).len() == 6);
}

/// Distinct runner states have distinct names.
pub proof fn lemma_selection_status_names_distinct(a: SelectionStatus, b: SelectionStatus)
    requires
        selection_status_name(a) == selection_status_name(b),
    ensures
        a == b,
{
    reveal_strlit("ACTIVE");
    reveal_strlit("REMOVED");
    reveal_strlit("REMOVED_VACANT");
    reveal_strlit("WINNER");
    reveal_strlit("PLACED");
    reveal_strlit("LOSER");
    reveal_strlit("HIDDEN");
    assert(selection_status_name(SelectionStatus::Active)[0] == 'A');
    assert(selection_status_name(SelectionStatus::Winner)[0] == 'W');
    assert(selection_status_name(SelectionStatus::Placed)[0] == 'P');
    assert(selection_status_name(SelectionStatus::Hidden)[0] == 'H');
    assert(selection_status_name(SelectionStatus::Active).len() == 6);
    assert(selection_status_name(SelectionStatus::Winner).len() == 6);
    assert(selection_status_name(SelectionStatus::Placed).len() == 6);
    assert(selection_status_name(SelectionStatus::Hidden).len() == 6);
    assert(selection_status_name(SelectionStatus::Removed).len() == 7);
    assert(selection_status_name(SelectionStatus::RemovedVacant).len() == 14);
    assert(selection_status_name(SelectionStatus::Loser).len() == 5);
}

impl MarketStatus {
    /// The name that the stream gives the value.
    pub fn as_ref(&self) -> (r: &'static str)
        ensures
            r@ == market_status_name(*self),
    {
        match self {
            MarketStatus::InActive => "INACTIVE",
            MarketStatus::Open => "OPEN",
            MarketStatus::Suspended => "SUSPENDED",
            MarketStatus::Closed => "CLOSED",
        }
    }
}

impl Default for MarketStatus {
    fn default() -> (r: Self)
        ensures
            r == MarketStatus::InActive,
    {
        MarketStatus::InActive
    }
}

impl From<MarketStatus> for &'static str {
    fn from(v: MarketStatus) -> (r: &'static str) {
        match v {
            MarketStatus::InActive => "INACTIVE",
            MarketStatus::Open => "OPEN",
            MarketStatus::Suspended => "SUSPENDED",
            MarketStatus::Closed => "CLOSED",
        }
    }
}

impl vstd::std_specs::convert::FromSpecImpl<MarketStatus> for &'static str {
    open spec fn obeys_from_spec() -> bool {
        true
    }

    open spec fn from_spec(v: MarketStatus) -> &'static str {
        match v {
            MarketStatus::InActive => "INACTIVE",
            MarketStatus::Open => "OPEN",
            MarketStatus::Suspended => "SUSPENDED",
            MarketStatus::Closed => "CLOSED",
        }
    }
}

/// The state of a runner (selection) in a market.
#[derive(Debug, PartialEq, Eq, Structural, Copy, Clone)]
pub enum SelectionStatus {
    Active,
    Removed,
    RemovedVacant,
    Winner,
    Placed,
    Loser,
    Hidden,
}

/// The name that the stream gives each value.
pub open spec fn selection_status_name(v: SelectionStatus) -> Seq<char> {
    match v {
        SelectionStatus::Active => "ACTIVE"@,
        SelectionStatus::Removed => "REMOVED"@,
        SelectionStatus::RemovedVacant => "REMOVED_VACANT"@,
        SelectionStatus::Winner => "WINNER"@,
        SelectionStatus::Placed => "PLACED"@,
        SelectionStatus::Loser => "LOSER"@,
        SelectionStatus::Hidden => "HIDDEN"@,
    }
}

impl SelectionStatus {
    /// The name that the stream gives the value.
    pub fn as_ref(&self) -> (r: &'static str)
        ensures
            r@ == selection_status_name(*self),
    {
        match self {
            SelectionStatus::Active => "ACTIVE",
            SelectionStatus::Removed => "REMOVED",
            SelectionStatus::RemovedVacant => "REMOVED_VACANT",
            SelectionStatus::Winner => "WINNER",
            SelectionStatus::Placed => "PLACED",
            SelectionStatus::Loser => "LOSER",
            SelectionStatus::Hidden => "HIDDEN",
        }
    }
}

impl Default for SelectionStatus {
    fn default() -> (r: Self)
        ensures
            r == SelectionStatus::Hidden,
    {
        SelectionStatus::Hidden
    }
}

impl From<SelectionStatus> for &'static str {
    fn from(v: SelectionStatus) -> (r: &'static str) {
        match v {
            SelectionStatus::Active => "ACTIVE",
            SelectionStatus::Removed => "REMOVED",
            SelectionStatus::RemovedVacant => "REMOVED_VACANT",
            SelectionStatus::Winner => "WINNER",
            SelectionStatus::Placed => "PLACED",
            SelectionStatus::Loser => "LOSER",
            SelectionStatus::Hidden => "HIDDEN",
        }
    }
}

impl vstd::std_specs::convert::FromSpecImpl<SelectionStatus> for &'static str {
    open spec fn obeys_from_spec() -> bool {
        true
    }

    open spec fn from_spec(v: SelectionStatus) -> &'static str {
        match v {
            SelectionStatus::Active => "ACTIVE",
            SelectionStatus::Removed => "REMOVED",
            SelectionStatus::RemovedVacant => "REMOVED_VACANT",
            SelectionStatus::Winner => "WINNER",
            SelectionStatus::Placed => "PLACED",
            SelectionStatus::Loser => "LOSER",
            SelectionStatus::Hidden => "HIDDEN",
        }
    }
}

/// How bets on a market are settled.
#[derive(Debug, PartialEq, Eq, Structural, Copy, Clone)]
pub enum MarketBettingType {
    Odds,
    Line,
    Range,
    AsianHandicapDoubleLine,
    AsianHandicapSingleLine,
    FixedOdds,
}

/// The name that the stream gives each value.
pub open spec fn betting_type_name(v: MarketBettingType) -> Seq<char> {
    match v {
        MarketBettingType::Odds => "ODDS"@,
        MarketBettingType::Line => "LINE"@,
        MarketBettingType::Range => "RANGE"@,
        MarketBettingType::AsianHandicapDoubleLine => "ASIAN_HANDICAP_DOUBLE_LINE"@,
        MarketBettingType::AsianHandicapSingleLine => "ASIAN_HANDICAP_SINGLE_LINE"@,
        MarketBettingType::FixedOdds => "FIXED_ODDS"@,
    }
}

impl MarketBettingType {
    /// The name that the stream gives the value.
    pub fn as_ref(&self) -> (r: &'static str)
        ensures
            r@ == betting_type_name(*self),
    {
        match self {
            MarketBettingType::Odds => "ODDS",
            MarketBettingType::Line => "LINE",
            MarketBettingType::Range => "RANGE",
            MarketBettingType::AsianHandicapDoubleLine => "ASIAN_HANDICAP_DOUBLE_LINE",
            MarketBettingType::AsianHandicapSingleLine => "ASIAN_HANDICAP_SINGLE_LINE",
            MarketBettingType::FixedOdds => "FIXED_ODDS",
        }
    }
}

impl Default for MarketBettingType {
    fn default() -> (r: Self)
        ensures
            r == MarketBettingType::Odds,
    {
        MarketBettingType::Odds
    }
}

impl From<MarketBettingType> for &'static str {
    fn from(v: MarketBettingType) -> (r: &'static str) {
        match v {
            MarketBettingType::Odds => "ODDS",
            MarketBettingType::Line => "LINE",
            MarketBettingType::Range => "RANGE",
            MarketBettingType::AsianHandicapDoubleLine => "ASIAN_HANDICAP_DOUBLE_LINE",
            MarketBettingType::AsianHandicapSingleLine => "ASIAN_HANDICAP_SINGLE_LINE",
            MarketBettingType::FixedOdds => "FIXED_ODDS",
        }
    }
}

impl vstd::std_specs::convert::FromSpecImpl<MarketBettingType> for &'static str {
    open spec fn obeys_from_spec() -> bool {
        true
    }

    open spec fn from_spec(v: MarketBettingType) -> &'static str {
        match v {
            MarketBettingType::Odds => "ODDS",
            MarketBettingType::Line => "LINE",
            MarketBettingType::Range => "RANGE",
            MarketBettingType::AsianHandicapDoubleLine => "ASIAN_HANDICAP_DOUBLE_LINE",
            MarketBettingType::AsianHandicapSingleLine => "ASIAN_HANDICAP_SINGLE_LINE",
            MarketBettingType::FixedOdds => "FIXED_ODDS",
        }
    }
}

/// The set of prices a market trades at.
#[derive(Debug, PartialEq, Eq, Structural, Copy, Clone)]
pub enum PriceLadderDefinition {
    Classic,
    Finest,
    LineRange,
}

/// The name that the stream gives each value.
pub open spec fn price_ladder_name(v: PriceLadderDefinition) -> Seq<char> {
    match v {
        PriceLadderDefinition::Classic => "CLASSIC"@,
        PriceLadderDefinition::Finest => "FINEST"@,
        PriceLadderDefinition::LineRange => "LINE_RANGE"@,
    }
}

impl PriceLadderDefinition {
    /// The name that the stream gives the value.
    pub fn as_ref(&self) -> (r: &'static str)
        ensures
            r@ == price_ladder_name(*self),
    {
        match self {
            PriceLadderDefinition::Classic => "CLASSIC",
            PriceLadderDefinition::Finest => "FINEST",
            PriceLadderDefinition::LineRange => "LINE_RANGE",
        }
    }
}

impl Default for PriceLadderDefinition {
    fn default() -> (r: Self)
        ensures
            r == PriceLadderDefinition::Classic,
    {
        PriceLadderDefinition::Classic
    }
}

impl From<PriceLadderDefinition> for &'static str {
    fn from(v: PriceLadderDefinition) -> (r: &'static str) {
        match v {
            PriceLadderDefinition::Classic => "CLASSIC",
            PriceLadderDefinition::Finest => "FINEST",
            PriceLadderDefinition::LineRange => "LINE_RANGE",
        }
    }
}

impl vstd::std_specs::convert::FromSpecImpl<PriceLadderDefinition> for &'static str {
    open spec fn obeys_from_spec() -> bool {
        true
    }

    open spec fn from_spec(v: PriceLadderDefinition) -> &'static str {
        match v {
            PriceLadderDefinition::Classic => "CLASSIC",
            PriceLadderDefinition::Finest => "FINEST",
            PriceLadderDefinition::LineRange => "LINE_RANGE",
        }
    }
}

} // verus!
