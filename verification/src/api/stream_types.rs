use vstd::prelude::*;

verus! {

/// The first message of a stream connection.
pub struct ConnectionMessage {
    pub id: Option<u32>,
    pub connection_id: String,
    pub connections_available: Option<u16>,
}

#[derive(Debug, PartialEq, Eq, Structural, Copy, Clone)]
pub enum StatusCode {
    Success,
    Failure,
}

/// The answer to a request of the stream.
pub struct StatusMessage {
    pub id: Option<u32>,
    pub status_code: StatusCode,
    pub error_code: Option<StreamErrorCode>,
    pub connection_id: Option<String>,
    pub error_message: Option<String>,
    pub connection_closed: Option<bool>,
    pub connections_available: Option<u16>,
}

/// Why the stream refused a request.
#[derive(Debug, PartialEq, Eq, Structural, Copy, Clone)]
pub enum StreamErrorCode {
    InvalidInput,
    Timeout,
    NoAppKey,
    InvalidAppKey,
    NoSession,
    InvalidSessionInfo,
    NotAuthorized,
    MaxConnectionLimitExceeded,
    TooManyRequests,
    SubscriptionLimitExceeded,
    InvalidClock,
    UnexpectedError,
    ConnectionFailed,
}

/// The name the stream gives an error code.
pub open spec fn error_code_name(c: StreamErrorCode) -> Seq<char> {
    match c {
        StreamErrorCode::InvalidInput => "INVALID_INPUT"@,
        StreamErrorCode::Timeout => "TIMEOUT"@,
        StreamErrorCode::NoAppKey => "NO_APP_KEY"@,
        StreamErrorCode::InvalidAppKey => "INVALID_APP_KEY"@,
        StreamErrorCode::NoSession => "NO_SESSION"@,
        StreamErrorCode::InvalidSessionInfo => "INVALID_SESSION_INFORMATION"@,
        StreamErrorCode::NotAuthorized => "NOT_AUTHORIZED"@,
        StreamErrorCode::MaxConnectionLimitExceeded => "MAX_CONNECTION_LIMIT_EXCEEDED"@,
        StreamErrorCode::TooManyRequests => "TOO_MANY_REQUESTS"@,
        StreamErrorCode::SubscriptionLimitExceeded => "SUBSCRIPTION_LIMIT_EXCEEDED"@,
        StreamErrorCode::InvalidClock => "INVALID_CLOCK"@,
        StreamErrorCode::UnexpectedError => "UNEXPECTED_ERROR"@,
        StreamErrorCode::ConnectionFailed => "CONNECTION_FAILED"@,
    }
}

impl StreamErrorCode {
    pub fn as_ref(&self) -> (r: &'static str)
        ensures
            r@ == error_code_name(*self),
    {
        match self {
            StreamErrorCode::InvalidInput => "INVALID_INPUT",
            StreamErrorCode::Timeout => "TIMEOUT",
            StreamErrorCode::NoAppKey => "NO_APP_KEY",
            StreamErrorCode::InvalidAppKey => "INVALID_APP_KEY",
            StreamErrorCode::NoSession => "NO_SESSION",
            StreamErrorCode::InvalidSessionInfo => "INVALID_SESSION_INFORMATION",
            StreamErrorCode::NotAuthorized => "NOT_AUTHORIZED",
            StreamErrorCode::MaxConnectionLimitExceeded => "MAX_CONNECTION_LIMIT_EXCEEDED",
            StreamErrorCode::TooManyRequests => "TOO_MANY_REQUESTS",
            StreamErrorCode::SubscriptionLimitExceeded => "SUBSCRIPTION_LIMIT_EXCEEDED",
            StreamErrorCode::InvalidClock => "INVALID_CLOCK",
            StreamErrorCode::UnexpectedError => "UNEXPECTED_ERROR",
            StreamErrorCode::ConnectionFailed => "CONNECTION_FAILED",
        }
    }
}

/// The authentication request.
pub struct AuthMessage {
    pub id: Option<u32>,
    pub session: String,
    pub app_key: String,
}

/// The heartbeat request.
pub struct HeartbeatMessage {
    pub id: Option<u32>,
}

/// What a subscription request subscribes to.
pub trait Subscription {
}

/// A subscription request.
pub struct SubMessage<T: Subscription> {
    pub id: Option<u32>,
    pub initial_clk: Option<String>,
    pub clk: Option<String>,
    pub segmentation_enabled: Option<bool>,
    pub heartbeat_ms: Option<u32>,
    pub conflate_ms: Option<u32>,
    pub filter: T,
}

/// A market subscription.
pub struct MarketSub {
    pub market_filter: MarketStreamFilter,
    pub market_data_filter: MarketDataFilter,
}

impl Subscription for MarketSub {
}

/// An order subscription.
pub struct OrderSub {
    pub order_filter: OrderFilter,
}

impl Subscription for OrderSub {
}

/// Which data of the markets to send.
pub struct MarketDataFilter {
    pub ladder_levels: Option<u32>,
    pub fields: Vec<DataFilterField>,
}

#[derive(Debug, PartialEq, Eq, Structural, Copy, Clone)]
pub enum DataFilterField {
    ExBestOffersDisp,
    ExBestOffers,
    ExAllOffers,
    ExTraded,
    ExTradedVol,
    ExLtp,
    ExMarketDef,
    SpTraded,
    SpProjected,
}

/// Which markets to send.
pub struct MarketStreamFilter {
    pub market_ids: Option<Vec<String>>,
    pub country_codes: Option<Vec<String>>,
    pub betting_types: Option<Vec<String>>,
    pub market_types: Option<Vec<String>>,
    pub venues: Option<Vec<String>>,
    pub event_type_ids: Option<Vec<String>>,
    pub event_ids: Option<Vec<String>>,
    pub turn_in_play_enabled: Option<bool>,
    pub bsp_market: Option<bool>,
}

/// Which orders to send.
pub struct OrderFilter {
    pub customer_strategy_refs: Option<Vec<String>>,
    pub include_overall_position: bool,
    pub partition_matched_by_strategy_ref: bool,
}

/// Why the stream refused an authentication.
#[derive(Debug)]
pub enum AuthFailure {
    /// The status message named the error and gave its message.
    Stream { code: StreamErrorCode, msg: String },
    /// The status message reported a failure without saying what.
    Unexpected,
}

/// What the answer to the authentication request means: the connection
/// goes on unless the status is a failure, which is reported with the code
/// and message the answer gives, where it gives both.
pub fn auth_outcome(status: StatusMessage) -> (r: Result<(), AuthFailure>)
    ensures
        status.status_code == StatusCode::Success ==> r is Ok,
        status.status_code == StatusCode::Failure ==> match (status.error_code, status.error_message) {
            (Some(c), Some(m)) => r matches Err(AuthFailure::Stream { code, msg }) && code == c && msg == m,
            _ => r matches Err(AuthFailure::Unexpected),
        },
{
    match (status.status_code, status.error_code, status.error_message) {
        (StatusCode::Failure, Some(code), Some(msg)) => Err(AuthFailure::Stream { code, msg }),
        (StatusCode::Failure, _, _) => Err(AuthFailure::Unexpected),
        _ => Ok(()),
    }
}

} // verus!
