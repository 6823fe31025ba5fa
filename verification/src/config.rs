//! What is checked before a scan starts: the range and the size of the
//! worker pool.

use vstd::prelude::*;
use vstd::string::*;

verus! {

/// Why a scan cannot start.
#[derive(Debug, Clone, Copy, PartialEq, Eq, Structural)]
pub enum ConfigError {
    /// The start of the range lies above its end.
    InvalidRange,
    /// A worker pool of less than one worker was asked for.
    InvalidWorkerCount,
}

impl ConfigError {
    /// What went wrong, in words.
    pub fn message(&self) -> (text: String)
        ensures
            text@ == match *self {
                ConfigError::InvalidRange => "invalid range: start is above end"@,
                ConfigError::InvalidWorkerCount => "invalid worker count: at least one worker is needed"@,
            },
    {
        match self {
            ConfigError::InvalidRange => String::from_str("invalid range: start is above end"),
            ConfigError::InvalidWorkerCount => String::from_str(
                "invalid worker count: at least one worker is needed",
            ),
        }
    }
}

/// The size of the pool where none is asked for: what the machine offers,
/// less two that stay free for writing and coordination, and at least 1.
pub open spec fn default_workers(available: nat) -> nat {
    if available > 3 {
        (available - 2) as nat
    } else {
        1
    }
}

/// The bounds of the scan, where they are in order.
pub fn validate_range(start: u128, end: u128) -> (range: Result<(u128, u128), ConfigError>)
    ensures
        start <= end ==> range == Ok::<(u128, u128), ConfigError>((start, end)),
        start > end ==> range == Err::<(u128, u128), ConfigError>(ConfigError::InvalidRange),
{
    if start <= end {
        Ok((start, end))
    } else {
        Err(ConfigError::InvalidRange)
    }
}

/// The size of the worker pool: the size asked for, exactly, where it is at
/// least 1; an error where it is 0; and where none is asked for, the default
/// for a machine that offers `available` cores.
pub fn worker_count(requested: Option<usize>, available: usize) -> (workers: Result<
    usize,
    ConfigError,
>)
    ensures
        workers == match requested {
            Some(k) => if k >= 1 {
                Ok::<usize, ConfigError>(k)
            } else {
                Err::<usize, ConfigError>(ConfigError::InvalidWorkerCount)
            },
            None => Ok::<usize, ConfigError>(default_workers(available as nat) as usize),
        },
{
    match requested {
        Some(k) => if k >= 1 {
            Ok(k)
        } else {
            Err(ConfigError::InvalidWorkerCount)
        },
        None => if available > 3 {
            Ok(available - 2)
        } else {
            Ok(1)
        },
    }
}

/// Calls `num_cpus::get`, the number of logical cores that this machine
/// offers to the process. Claims only that the number is at least 1, as its
/// documentation says; which number it is depends on the machine.
#[verifier::external_body]
fn available_cores() -> (cores: usize)
    ensures
        cores >= 1,
{
    num_cpus::get()
}

/// The size of the worker pool on this machine: as [`worker_count`] says,
/// with the number of cores that the machine reports.
pub fn resolve_worker_count(requested: Option<usize>) -> (workers: Result<usize, ConfigError>)
    ensures
        requested == Some(0usize) <==> workers is Err,
        workers is Err ==> workers == Err::<usize, ConfigError>(ConfigError::InvalidWorkerCount),
        workers is Ok ==> workers.unwrap() >= 1,
        requested is Some && workers is Ok ==> workers.unwrap() == requested.unwrap(),
        requested is None ==> exists|available: nat|
            available >= 1 && workers.unwrap() == #[trigger] default_workers(available),
{
    let available = available_cores();
    worker_count(requested, available)
}

} // verus!
