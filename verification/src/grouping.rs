//! Grouping of process readings by name.
//!
//! The grouping itself is done by `itertools`; this file states what it
//! yields and holds the one unproved function that calls it.

use crate::process::ProcessSample;
use itertools::Itertools;
use vstd::prelude::*;

verus! {

/// The (cpu, memory) reading that a sample carries.
pub open spec fn reading(p: ProcessSample) -> (u64, u64) {
    (p.cpu, p.memory)
}

/// The readings of all samples, in their order.
pub open spec fn all_readings(procs: Seq<ProcessSample>) -> Seq<(u64, u64)> {
    procs.map_values(|p: ProcessSample| reading(p))
}

/// The readings of the samples named `name`, in their order.
pub open spec fn readings_of(procs: Seq<ProcessSample>, name: Seq<char>) -> Seq<(u64, u64)> {
    procs.filter(|p: ProcessSample| p.name@ == name).map_values(|p: ProcessSample| reading(p))
}

/// Some sample of `procs` is named `name`.
pub open spec fn has_name(procs: Seq<ProcessSample>, name: Seq<char>) -> bool {
    exists|k: int| 0 <= k < procs.len() && (#[trigger] procs[k]).name@ == name
}

/// Some group of `groups` is headed by `name`.
pub open spec fn heads_group(groups: Seq<(String, Vec<(u64, u64)>)>, name: Seq<char>) -> bool {
    exists|i: int| 0 <= i < groups.len() && (#[trigger] groups[i]).0@ == name
}

/// `groups` splits the readings of `procs` by name: no name heads two
/// groups, every group is headed by the name of some sample and holds the
/// readings of exactly the samples with that name, in their order, and
/// every sample's name heads a group.
pub open spec fn is_grouping(
    groups: Seq<(String, Vec<(u64, u64)>)>,
    procs: Seq<ProcessSample>,
) -> bool {
    &&& forall|i: int, j: int|
        0 <= i < j < groups.len() ==> (#[trigger] groups[i]).0@ != (#[trigger] groups[j]).0@
    &&& forall|i: int|
        0 <= i < groups.len() ==> (#[trigger] groups[i]).1@ == readings_of(procs, groups[i].0@)
    &&& forall|i: int| 0 <= i < groups.len() ==> has_name(procs, (#[trigger] groups[i]).0@)
    &&& forall|k: int| 0 <= k < procs.len() ==> heads_group(groups, (#[trigger] procs[k]).name@)
}

/// `Itertools::into_group_map` over the pairs of each sample's name and
/// reading, with the entries of the resulting map handed out as a vector.
/// The map has one entry for each name that occurs, and the entry holds the
/// readings that came with that name in the order in which they came. The
/// order of the entries is that of a walk through a hash map, so nothing is
/// said about it.
#[verifier::external_body]
pub(crate) fn group_by_name(procs: &Vec<ProcessSample>) -> (groups: Vec<(String, Vec<(u64, u64)>)>)
    ensures
        is_grouping(groups@, procs@),
{
    procs.iter().map(|p| (p.name.clone(), (p.cpu, p.memory))).into_group_map().into_iter().collect()
}

} // verus!
