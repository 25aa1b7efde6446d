//! What one round of sampling brings in, and the percentages computed from
//! it.

use crate::grouping::all_readings;
use crate::process::{cpu_sum, fits, lemma_sums_of_prefix, memory_sum, ProcessSample, CPU_SCALE};
use vstd::prelude::*;

verus! {

/// The raw figures of one round of sampling.
#[derive(Debug, Clone, PartialEq, Eq)]
pub struct Reading {
    /// The process list, where a full refresh was made.
    pub processes: Option<Vec<ProcessSample>>,
    /// The load of each core, in CPU units.
    pub cores: Vec<u64>,
    /// Memory in use, in bytes.
    pub used_memory: u64,
    /// Memory installed, in bytes.
    pub total_memory: u64,
}

/// `used` as a percentage of `total`, rounded down and held to 64 bits.
/// Of nothing, nothing is 0 percent and anything else is beyond measure.
pub open spec fn percent_of(used: u64, total: u64) -> u64 {
    if total == 0 {
        if used == 0 {
            0
        } else {
            u64::MAX
        }
    } else if used * 100 / (total as int) > u64::MAX {
        u64::MAX
    } else {
        (used * 100 / (total as int)) as u64
    }
}

/// The loads of the cores, added up.
pub open spec fn load_sum(cores: Seq<u64>) -> nat
    decreases cores.len(),
{
    if cores.len() == 0 {
        0
    } else {
        load_sum(cores.drop_last()) + cores.last() as nat
    }
}

/// The mean load of the cores in whole percent points, rounded down; 0
/// where there are no cores.
pub open spec fn cpu_percent(cores: Seq<u64>) -> u64 {
    if cores.len() == 0 {
        0
    } else {
        (load_sum(cores) / (cores.len() * (CPU_SCALE as nat))) as u64
    }
}

/// The loads of `n` cores add up to no more than `n` times the largest
/// load a core can report.
pub proof fn lemma_load_sum_bound(cores: Seq<u64>)
    ensures
        load_sum(cores) <= cores.len() * u64::MAX,
    decreases cores.len(),
{
    if cores.len() > 0 {
        lemma_load_sum_bound(cores.drop_last());
        assert((cores.len() - 1) * u64::MAX + u64::MAX == cores.len() * u64::MAX)
            by (nonlinear_arith);
    }
}

/// Memory in use as a percentage of memory installed.
pub fn memory_percentage(used: u64, total: u64) -> (p: u64)
    ensures
        p == percent_of(used, total),
{
    if total == 0 {
        if used == 0 {
            0
        } else {
            u64::MAX
        }
    } else {
        let scaled: u128 = (used as u128) * 100;
        let q: u128 = scaled / (total as u128);
        if q > u64::MAX as u128 {
            u64::MAX
        } else {
            q as u64
        }
    }
}

/// The mean load of the cores in whole percent points.
pub fn cpu_percentage(cores: &Vec<u64>) -> (p: u64)
    ensures
        p == cpu_percent(cores@),
{
    let n = cores.len();
    if n == 0 {
        return 0;
    }
    let mut sum: u128 = 0;
    let mut i: usize = 0;
    while i < n
        invariant
            n == cores@.len(),
            0 <= i <= n,
            sum == load_sum(cores@.take(i as int)),
        decreases n - i,
    {
        proof {
            lemma_load_sum_bound(cores@.take(i + 1));
            assert(cores@.take(i + 1).drop_last() =~= cores@.take(i as int));
            assert((i + 1) * u64::MAX <= usize::MAX * u64::MAX) by (nonlinear_arith)
                requires
                    i + 1 <= usize::MAX,
            ;
            assert(usize::MAX * u64::MAX <= u64::MAX * u64::MAX) by (nonlinear_arith)
                requires
                    usize::MAX <= u64::MAX,
            ;
        }
        sum = sum + cores[i] as u128;
        i = i + 1;
    }
    proof {
        assert(cores@.take(i as int) =~= cores@);
        lemma_load_sum_bound(cores@);
    }
    let divisor: u128 = (n as u128) * (CPU_SCALE as u128);
    let q: u128 = sum / divisor;
    proof {
        assert(q <= u64::MAX) by (nonlinear_arith)
            requires
                q == sum / divisor,
                divisor == n * 10000,
                n > 0,
                sum <= n * u64::MAX,
        ;
    }
    q as u64
}

/// Whether the sums over all of `procs` can be held in 64 bits.
pub fn sums_fit(procs: &Vec<ProcessSample>) -> (ok: bool)
    ensures
        ok == fits(procs@),
{
    let ghost all = all_readings(procs@);
    let mut cpu: u64 = 0;
    let mut memory: u64 = 0;
    let mut i: usize = 0;
    while i < procs.len()
        invariant
            0 <= i <= procs@.len(),
            all == all_readings(procs@),
            cpu == cpu_sum(all.take(i as int)),
            memory == memory_sum(all.take(i as int)),
        decreases procs@.len() - i,
    {
        proof {
            lemma_sums_of_prefix(all, i + 1);
            assert(all.take(i + 1).drop_last() =~= all.take(i as int));
        }
        match (cpu.checked_add(procs[i].cpu), memory.checked_add(procs[i].memory)) {
            (Some(c), Some(m)) => {
                cpu = c;
                memory = m;
            },
            _ => {
                return false;
            },
        }
        i = i + 1;
    }
    proof {
        assert(all.take(i as int) =~= all);
    }
    true
}

} // verus!
