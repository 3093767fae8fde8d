//! Consensus: the UTXO set, proof of work and proof of stake, governance state and the
//! rules a chain of blocks obeys.
pub mod block_acceptance;
pub mod block_processing;
pub mod chain;
pub mod chain_checks;
pub mod error;
pub mod governance_processing;
pub mod governance_state;
pub mod pos;
pub mod pose;
pub mod pow;
pub mod reorg;
pub mod state;
pub mod utxo_set;

use vstd::prelude::*;
use crate::consensus::error::message;

verus! {

/// The parameters the consensus rules run with.
#[derive(Debug, Clone, Copy, PartialEq, Eq)]
pub struct ConsensusConfig {
    /// Block time target in seconds.
    pub target_block_time: u64,
    /// Difficulty adjustment period in blocks.
    pub difficulty_adjustment_period: u64,
    /// Largest factor one difficulty adjustment may apply.
    pub max_difficulty_adjustment: u64,
    /// Fewest masternodes the network needs to be secure.
    pub min_masternode_count: usize,
    /// Size of the stake ticket pool.
    pub ticket_pool_size: usize,
    /// Blocks before a coinbase output can be spent.
    pub coinbase_maturity: u64,
}

/// The default parameters: one-minute blocks, adjustment every 144 blocks by at most a
/// factor of 4, at least 10 masternodes, 8192 tickets, coinbase maturity of 100 blocks.
pub open spec fn default_config() -> ConsensusConfig {
    ConsensusConfig {
        target_block_time: 60,
        difficulty_adjustment_period: 144,
        max_difficulty_adjustment: 4,
        min_masternode_count: 10,
        ticket_pool_size: 8192,
        coinbase_maturity: 100,
    }
}

impl Default for ConsensusConfig {
    fn default() -> (r: ConsensusConfig)
        ensures
            r == default_config(),
    {
        ConsensusConfig {
            target_block_time: 60,
            difficulty_adjustment_period: 144,
            max_difficulty_adjustment: 4,
            min_masternode_count: 10,
            ticket_pool_size: 8192,
            coinbase_maturity: 100,
        }
    }
}

/// Which check a configuration fails first, if any: a zero block time, a zero adjustment
/// period, or fewer than three masternodes.
pub open spec fn config_error(c: ConsensusConfig) -> Option<Seq<char>> {
    if c.target_block_time == 0 {
        Some("Invalid target block time: must be > 0"@)
    } else if c.difficulty_adjustment_period == 0 {
        Some("Invalid difficulty adjustment period: must be > 0"@)
    } else if c.min_masternode_count < 3 {
        Some("Insufficient minimum masternode count for security"@)
    } else {
        None
    }
}

/// Checks a configuration as the consensus subsystem does at start-up.
pub fn validate_consensus_config(config: &ConsensusConfig) -> (r: Result<(), String>)
    ensures
        config_error(*config) is None ==> r is Ok,
        config_error(*config) matches Some(m) ==> (r matches Err(e) && e@ == m),
{
    if config.target_block_time == 0 {
        return Err(message("Invalid target block time: must be > 0"));
    }
    if config.difficulty_adjustment_period == 0 {
        return Err(message("Invalid difficulty adjustment period: must be > 0"));
    }
    if config.min_masternode_count < 3 {
        return Err(message("Insufficient minimum masternode count for security"));
    }
    Ok(())
}

/// Starts the consensus subsystem with the default parameters, which pass every check.
pub fn init_consensus() -> (r: Result<ConsensusConfig, String>)
    ensures
        r == Ok::<ConsensusConfig, String>(default_config()),
{
    let config = ConsensusConfig::default();
    match validate_consensus_config(&config) {
        Ok(()) => Ok(config),
        Err(e) => Err(e),
    }
}

/// Starts the consensus subsystem with the given parameters; only a zero block time is
/// refused.
pub fn init_consensus_with_config(config: ConsensusConfig) -> (r: Result<ConsensusConfig, String>)
    ensures
        config.target_block_time == 0 ==> (r matches Err(e) && e@ == "Invalid target block time"@),
        config.target_block_time != 0 ==> r == Ok::<ConsensusConfig, String>(config),
{
    if config.target_block_time == 0 {
        return Err(message("Invalid target block time"));
    }
    Ok(config)
}

} // verus!
