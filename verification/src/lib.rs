pub mod deser;
pub mod market_source;
pub mod price_size;
pub mod enums;
pub mod strings;
pub mod datetime;
pub mod ids;
pub mod config;
pub mod bflw;
pub mod runner;
pub mod market_definition;
pub mod immutable;
pub mod market_change;
pub mod market;
pub mod api;
pub mod file_iter;
