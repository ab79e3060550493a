//! The number of worker threads.

use crate::outside::physical_core_count;
use vstd::prelude::*;

verus! {

/// The number of threads to work with: the number that the user gave, as it
/// is; else the number of performance cores, where the platform told one and
/// it is not zero; else the number of physical cores.
pub open spec fn resolved_threads(
    explicit: Option<usize>,
    performance_cores: Option<usize>,
    physical_cores: usize,
) -> usize {
    match explicit {
        Some(count) => count,
        None => match performance_cores {
            Some(count) if count >= 1 => count,
            _ => physical_cores,
        },
    }
}

/// Decides the number of threads from what the user gave and what the
/// platform told.
pub fn resolve_threads(
    explicit: Option<usize>,
    performance_cores: Option<usize>,
    physical_cores: usize,
) -> (count: usize)
    ensures
        count == resolved_threads(explicit, performance_cores, physical_cores),
        explicit is None && physical_cores >= 1 ==> count >= 1,
{
    match explicit {
        Some(count) => count,
        None => match performance_cores {
            Some(count) => if count >= 1 {
                count
            } else {
                physical_cores
            },
            None => physical_cores,
        },
    }
}

/// The number of threads that suits this machine. `performance_cores` is the
/// number of performance cores, where the platform tells one; without it, or
/// where it is zero, the number of physical cores is taken.
pub fn detect_threads(performance_cores: Option<usize>) -> (count: usize)
    ensures
        count >= 1,
        performance_cores matches Some(cores) ==> (cores >= 1 ==> count == cores),
{
    resolve_threads(None, performance_cores, physical_core_count())
}

} // verus!
