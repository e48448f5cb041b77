//! The health status implied by a tunnel client's hardware report.
use vstd::prelude::*;
use crate::health::HealthStatus;
use crate::protocol::HardwareData;

verus! {

/// The status a hardware report implies: `Critical` when the report's CPU
/// load or memory or swap usage ratio is over its limit (`over_limit`), or
/// when at most one unit of swap or of memory is left; `Normal` otherwise.
///
/// The figures are checked in that order, and a check is only made when the
/// ones before it passed.
pub open spec fn hardware_health(
    over_limit: bool,
    total_memory: u64,
    used_memory: u64,
    total_swap: u64,
    used_swap: u64,
) -> HealthStatus {
    if over_limit || total_swap - used_swap <= 1 || total_memory - used_memory <= 1 {
        HealthStatus::Critical
    } else {
        HealthStatus::Normal
    }
}

/// The figures can be checked without underflow: the swap figures whenever
/// they are reached, and the memory figures whenever the swap check passes.
pub open spec fn hardware_figures_consistent(
    over_limit: bool,
    total_memory: u64,
    used_memory: u64,
    total_swap: u64,
    used_swap: u64,
) -> bool {
    over_limit || (used_swap <= total_swap && (total_swap - used_swap > 1 ==> used_memory
        <= total_memory))
}

/// Whether the figures of `report` can be checked (see
/// `hardware_figures_consistent`).
pub fn figures_consistent<G>(report: &HardwareData<G>, over_limit: bool) -> (b: bool)
    ensures
        b == hardware_figures_consistent(
            over_limit,
            report.total_memory,
            report.used_memory,
            report.total_swap,
            report.used_swap,
        ),
{
    over_limit || (report.used_swap <= report.total_swap && (report.total_swap - report.used_swap
        <= 1 || report.used_memory <= report.total_memory))
}

/// The status implied by `report`; `over_limit` tells whether the report's
/// CPU load or usage ratios exceed their limits.
pub fn hardware_status<G>(report: &HardwareData<G>, over_limit: bool) -> (s: HealthStatus)
    requires
        hardware_figures_consistent(
            over_limit,
            report.total_memory,
            report.used_memory,
            report.total_swap,
            report.used_swap,
        ),
    ensures
        s == hardware_health(
            over_limit,
            report.total_memory,
            report.used_memory,
            report.total_swap,
            report.used_swap,
        ),
{
    if over_limit || report.total_swap - report.used_swap <= 1 || report.total_memory
        - report.used_memory <= 1 {
        HealthStatus::Critical
    } else {
        HealthStatus::Normal
    }
}


/// The assessment is monotone: a report that is `Critical` stays `Critical`
/// when its CPU or usage ratios are also over their limits, and when more
/// memory or swap is in use out of the same totals.
pub proof fn lemma_hardware_monotone(
    over_limit: bool,
    total_memory: u64,
    used_memory: u64,
    total_swap: u64,
    used_swap: u64,
    more_memory: u64,
    more_swap: u64,
)
    requires
        used_memory <= more_memory <= total_memory,
        used_swap <= more_swap <= total_swap,
        hardware_health(over_limit, total_memory, used_memory, total_swap, used_swap)
            == HealthStatus::Critical,
    ensures
        hardware_health(true, total_memory, used_memory, total_swap, used_swap)
            == HealthStatus::Critical,
        hardware_health(over_limit, total_memory, more_memory, total_swap, more_swap)
            == HealthStatus::Critical,
{
}

} // verus!
