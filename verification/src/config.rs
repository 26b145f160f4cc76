use vstd::prelude::*;

use crate::market_source::ConfigProducer;

verus! {

/// How the files of a source are read.
///
/// `cumulative_runner_tv`: historic files send the traded volume of a runner
/// only through its traded ladder, so a runner's total matched is the sum of
/// that ladder's sizes and a market's is the sum of its runners'; recorded
/// streams send both totals as values.
#[derive(Debug, Clone, Copy, PartialEq, Eq, Structural)]
pub struct Config {
    pub cumulative_runner_tv: bool,
}

impl ConfigProducer for Config {
    type Config = Self;

    open spec fn next_config(&self) -> Self {
        *self
    }

    open spec fn advanced(&self) -> Self {
        *self
    }

    fn get(&mut self) -> (r: Self)
        ensures
            r == *old(self),
            *final(self) == *old(self),
    {
        *self
    }
}

} // verus!
