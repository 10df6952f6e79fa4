use vstd::prelude::*;

use crate::errors::ConfigurationError;

verus! {

/// The validated configuration of a fixed-size worker pool: how many
/// long-lived worker threads pull units of work from the shared job queue.
///
/// Spawning the threads and running the queue is the embedding's work; the
/// library decides whether a pool may be built at all, and with how many
/// workers.
#[derive(Clone, Copy, PartialEq, Eq, Structural, Debug)]
pub struct PoolConfig {
    pub size: usize,
}

impl PoolConfig {
    /// Validates a requested pool size. A pool of zero workers could never
    /// run a job, so size zero is a configuration error and no thread may be
    /// spawned for it.
    pub fn new(size: usize) -> (r: Result<PoolConfig, ConfigurationError>)
        ensures
            size == 0 ==> r == Err::<PoolConfig, ConfigurationError>(
                ConfigurationError::ZeroWorkers,
            ),
            size > 0 ==> r == Ok::<PoolConfig, ConfigurationError>(PoolConfig { size }),
    {
        if size == 0 {
            Err(ConfigurationError::ZeroWorkers)
        } else {
            Ok(PoolConfig { size })
        }
    }
}

} // verus!
