pub mod config;
pub mod market_book;
pub mod market_definition;
pub mod market_definition_runner;
pub mod runner_book;
