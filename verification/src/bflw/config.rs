use vstd::prelude::*;

use crate::market_source::ConfigProducer;

verus! {

/// How one file is read in the betfairlightweight-compatible form: as
/// `crate::config::Config`, and with the stream id given to the file.
#[derive(Debug, Clone, Copy, PartialEq, Eq, Structural)]
pub struct Config {
    pub cumulative_runner_tv: bool,
    pub streaming_unique_id: Option<u32>,
}

/// Gives each file a configuration: the same settings, and stream ids that
/// count up by one from the first (when one is given).
pub struct ConfigBuilder {
    pub cumulative_runner_tv: bool,
    pub streaming_unique_id: Option<u32>,
}

impl ConfigProducer for ConfigBuilder {
    type Config = Config;

    open spec fn next_config(&self) -> Config {
        Config { cumulative_runner_tv: self.cumulative_runner_tv, streaming_unique_id: self.streaming_unique_id }
    }

    open spec fn advanced(&self) -> Self {
        ConfigBuilder {
            cumulative_runner_tv: self.cumulative_runner_tv,
            streaming_unique_id: match self.streaming_unique_id {
                Some(id) => Some(if id == u32::MAX { 0u32 } else { (id + 1) as u32 }),
                None => None,
            },
        }
    }

    /// The configuration for the next file. The stream id after `u32::MAX`
    /// wraps round to zero.
    fn get(&mut self) -> (c: Config)
        ensures
            c.cumulative_runner_tv == old(self).cumulative_runner_tv,
            c.streaming_unique_id == old(self).streaming_unique_id,
            final(self).cumulative_runner_tv == old(self).cumulative_runner_tv,
            final(self).streaming_unique_id == (match old(self).streaming_unique_id {
                Some(id) => Some(if id == u32::MAX { 0u32 } else { (id + 1) as u32 }),
                None => None,
            }),
    {
        let c = Config {
            cumulative_runner_tv: self.cumulative_runner_tv,
            streaming_unique_id: self.streaming_unique_id,
        };
        self.streaming_unique_id = match self.streaming_unique_id {
            Some(id) => Some(id.wrapping_add(1)),
            None => None,
        };
        c
    }
}

} // verus!
