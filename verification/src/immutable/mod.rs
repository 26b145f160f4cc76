pub mod definition;
pub mod market;
pub mod runner;
