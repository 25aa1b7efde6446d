//! Process readings and the per-name ranking built from them.
//!
//! CPU usage is held in fixed point: one unit is a ten-thousandth of a
//! percent point, so `CPU_SCALE` units make one percent. Memory is held in
//! bytes.

use crate::grouping::{
    all_readings, group_by_name, has_name, heads_group, is_grouping, reading, readings_of,
};
use vstd::math::min;
use vstd::prelude::*;

verus! {

/// The number of CPU units in one percent point.
pub const CPU_SCALE: u64 = 10_000;

/// The number of CPU units in one hundredth of a percent point, the
/// resolution at which rows are ranked by CPU usage.
pub const CPU_RANK_UNIT: u64 = 100;

/// The largest number of rows a snapshot holds.
pub const MAX_ROWS: usize = 100;

/// One reading of one operating-system process.
#[derive(Debug, Clone, PartialEq, Eq)]
pub struct ProcessSample {
    pub name: String,
    pub cpu: u64,
    pub memory: u64,
}

/// One row of a snapshot: all processes that share a name, taken together.
#[derive(Debug, Clone, PartialEq, Eq)]
pub struct ProcessMeta {
    pub name: String,
    pub cpu_usage: u64,
    pub memory: u64,
    pub count: usize,
}

/// The key by which a snapshot is ordered.
#[derive(Debug, Copy, Clone, PartialEq, Eq, Structural)]
pub enum Sort {
    Cpu,
    Memory,
}

/// The CPU units of a sequence of (cpu, memory) readings, added up.
pub open spec fn cpu_sum(readings: Seq<(u64, u64)>) -> nat
    decreases readings.len(),
{
    if readings.len() == 0 {
        0
    } else {
        cpu_sum(readings.drop_last()) + readings.last().0 as nat
    }
}

/// The bytes of a sequence of (cpu, memory) readings, added up.
pub open spec fn memory_sum(readings: Seq<(u64, u64)>) -> nat
    decreases readings.len(),
{
    if readings.len() == 0 {
        0
    } else {
        memory_sum(readings.drop_last()) + readings.last().1 as nat
    }
}

/// The sums of a prefix never pass the sums of the whole.
pub proof fn lemma_sums_of_prefix(readings: Seq<(u64, u64)>, n: int)
    requires
        0 <= n <= readings.len(),
    ensures
        cpu_sum(readings.take(n)) <= cpu_sum(readings),
        memory_sum(readings.take(n)) <= memory_sum(readings),
    decreases readings.len(),
{
    if n == readings.len() {
        assert(readings.take(n) =~= readings);
    } else {
        lemma_sums_of_prefix(readings.drop_last(), n);
        assert(readings.drop_last().take(n) =~= readings.take(n));
    }
}

/// Adds up the readings of one group of processes into its row.
pub fn summarize(name: String, readings: &Vec<(u64, u64)>) -> (m: ProcessMeta)
    requires
        cpu_sum(readings@) <= u64::MAX,
        memory_sum(readings@) <= u64::MAX,
    ensures
        m.name == name,
        m.cpu_usage == cpu_sum(readings@),
        m.memory == memory_sum(readings@),
        m.count == readings@.len(),
{
    let mut cpu_usage: u64 = 0;
    let mut memory: u64 = 0;
    let mut i: usize = 0;
    while i < readings.len()
        invariant
            0 <= i <= readings.len(),
            cpu_usage == cpu_sum(readings@.take(i as int)),
            memory == memory_sum(readings@.take(i as int)),
            cpu_sum(readings@) <= u64::MAX,
            memory_sum(readings@) <= u64::MAX,
        decreases readings.len() - i,
    {
        proof {
            lemma_sums_of_prefix(readings@, i + 1);
            assert(readings@.take(i + 1).drop_last() =~= readings@.take(i as int));
        }
        cpu_usage = cpu_usage + readings[i].0;
        memory = memory + readings[i].1;
        i = i + 1;
    }
    proof {
        assert(readings@.take(i as int) =~= readings@);
    }
    ProcessMeta { name, cpu_usage, memory, count: readings.len() }
}

/// The key of a row under `sort`: CPU usage in hundredths of a percent
/// point, rounded down, or memory in bytes.
pub open spec fn key_of(m: ProcessMeta, sort: Sort) -> nat {
    match sort {
        Sort::Cpu => (m.cpu_usage / CPU_RANK_UNIT) as nat,
        Sort::Memory => m.memory as nat,
    }
}

impl ProcessMeta {
    /// The key of this row under `sort`.
    pub fn key(&self, sort: Sort) -> (k: u64)
        ensures
            k == key_of(*self, sort),
    {
        match sort {
            Sort::Cpu => self.cpu_usage / CPU_RANK_UNIT,
            Sort::Memory => self.memory,
        }
    }
}

/// Entry `a` of `all` ranks before entry `b` under `sort`: its key is
/// larger, or the keys are equal and it stands earlier in `all`.
pub open spec fn ranks_before(all: Seq<ProcessMeta>, sort: Sort, a: int, b: int) -> bool {
    key_of(all[a], sort) > key_of(all[b], sort) || (key_of(all[a], sort) == key_of(all[b], sort)
        && a < b)
}

/// `rows` is the ranking of `all` under `sort`, and `picked[i]` is the place
/// in `all` that `rows[i]` was taken from: the rows are entries of `all`, as
/// many as there are up to `MAX_ROWS`, each ranking before the next, and
/// every row ranks before every entry left out.
pub open spec fn is_ranking(
    rows: Seq<ProcessMeta>,
    all: Seq<ProcessMeta>,
    sort: Sort,
    picked: Seq<int>,
) -> bool {
    &&& rows.len() == min(all.len() as int, MAX_ROWS as int)
    &&& picked.len() == rows.len()
    &&& forall|i: int|
        0 <= i < rows.len() ==> 0 <= #[trigger] picked[i] < all.len() && rows[i] == all[picked[i]]
    &&& forall|i: int, j: int|
        0 <= i < j < rows.len() ==> ranks_before(
            all,
            sort,
            #[trigger] picked[i],
            #[trigger] picked[j],
        )
    &&& forall|k: int, i: int|
        0 <= k < all.len() && !(#[trigger] picked.contains(k)) && 0 <= i < rows.len()
            ==> ranks_before(all, sort, #[trigger] picked[i], k)
}

/// A ranking takes no entry twice, its rows are in descending order of
/// their keys, and no entry left out has a larger key than a row.
pub proof fn lemma_ranking_is_sorted(
    rows: Seq<ProcessMeta>,
    all: Seq<ProcessMeta>,
    sort: Sort,
    picked: Seq<int>,
)
    requires
        is_ranking(rows, all, sort, picked),
    ensures
        picked.no_duplicates(),
        descending(rows, sort),
        forall|k: int, i: int|
            0 <= k < all.len() && !(#[trigger] picked.contains(k)) && 0 <= i < rows.len()
                ==> key_of(all[k], sort) <= key_of(#[trigger] rows[i], sort),
{
    assert forall|i: int, j: int|
        0 <= i < picked.len() && 0 <= j < picked.len() && i != j implies picked[i]
        != picked[j] by {
        if i < j {
            assert(ranks_before(all, sort, picked[i], picked[j]));
        } else {
            assert(ranks_before(all, sort, picked[j], picked[i]));
        }
    }
    assert forall|i: int, j: int| 0 <= i < j < rows.len() implies key_of(
        #[trigger] rows[i],
        sort,
    ) >= key_of(#[trigger] rows[j], sort) by {
        assert(ranks_before(all, sort, picked[i], picked[j]));
    }
    assert forall|k: int, i: int|
        0 <= k < all.len() && !(#[trigger] picked.contains(k)) && 0 <= i < rows.len()
        implies key_of(all[k], sort) <= key_of(#[trigger] rows[i], sort) by {
        assert(ranks_before(all, sort, picked[i], k));
    }
}

/// Ranks `all` under `sort`: the entries with the largest keys, largest
/// first, cut off after `MAX_ROWS`. Among equal keys the earlier entry of
/// `all` comes first.
pub fn rank(all: Vec<ProcessMeta>, sort: Sort) -> (rows: Vec<ProcessMeta>)
    ensures
        exists|picked: Seq<int>| is_ranking(rows@, all@, sort, picked),
{
    let mut rest = all;
    let mut rows: Vec<ProcessMeta> = Vec::new();
    let ghost mut origin: Seq<int> = Seq::new(all@.len(), |k: int| k);
    let ghost mut picked: Seq<int> = Seq::empty();
    proof {
        assert forall|k: int| 0 <= k < all@.len() implies #[trigger] origin.contains(k) by {
            assert(origin[k] == k);
        }
    }
    while rows.len() < MAX_ROWS && rest.len() > 0
        invariant
            rest@.len() == origin.len(),
            rows@.len() == picked.len(),
            rows@.len() + rest@.len() == all@.len(),
            rows@.len() <= MAX_ROWS,
            forall|j: int|
                0 <= j < origin.len() ==> 0 <= #[trigger] origin[j] < all@.len() && rest@[j]
                    == all@[origin[j]],
            forall|s: int, t: int|
                0 <= s < t < origin.len() ==> #[trigger] origin[s] < #[trigger] origin[t],
            forall|i: int|
                0 <= i < picked.len() ==> 0 <= #[trigger] picked[i] < all@.len() && rows@[i]
                    == all@[picked[i]],
            forall|k: int|
                0 <= k < all@.len() ==> picked.contains(k) || #[trigger] origin.contains(k),
            forall|i: int, j: int|
                0 <= i < j < picked.len() ==> ranks_before(
                    all@,
                    sort,
                    #[trigger] picked[i],
                    #[trigger] picked[j],
                ),
            forall|i: int, j: int|
                0 <= i < picked.len() && 0 <= j < origin.len() ==> ranks_before(
                    all@,
                    sort,
                    #[trigger] picked[i],
                    #[trigger] origin[j],
                ),
        decreases rest@.len(),
    {
        let mut best: usize = 0;
        let mut j: usize = 1;
        while j < rest.len()
            invariant
                0 <= best < j <= rest@.len(),
                forall|t: int|
                    0 <= t < best ==> key_of(#[trigger] rest@[t], sort) < key_of(
                        rest@[best as int],
                        sort,
                    ),
                forall|t: int|
                    best <= t < j ==> key_of(#[trigger] rest@[t], sort) <= key_of(
                        rest@[best as int],
                        sort,
                    ),
            decreases rest@.len() - j,
        {
            if rest[j].key(sort) > rest[best].key(sort) {
                best = j;
            }
            j = j + 1;
        }
        let ghost old_origin = origin;
        let ghost old_picked = picked;
        let ghost old_rest = rest@;
        let top = rest.remove(best);
        rows.push(top);
        proof {
            let taken = old_origin[best as int];
            picked = old_picked.push(taken);
            origin = old_origin.remove(best as int);
            assert forall|t: int| 0 <= t < old_origin.len() && t != best implies ranks_before(
                all@,
                sort,
                taken,
                #[trigger] old_origin[t],
            ) by {
                assert(old_rest[t] == all@[old_origin[t]]);
                assert(old_rest[best as int] == all@[taken]);
                if t < best {
                    assert(key_of(old_rest[t], sort) < key_of(old_rest[best as int], sort));
                } else {
                    assert(key_of(old_rest[t], sort) <= key_of(old_rest[best as int], sort));
                    assert(old_origin[best as int] < old_origin[t]);
                }
            }
            assert forall|j: int| 0 <= j < origin.len() implies ranks_before(
                all@,
                sort,
                taken,
                #[trigger] origin[j],
            ) by {
                if j < best {
                    assert(origin[j] == old_origin[j]);
                } else {
                    assert(origin[j] == old_origin[j + 1]);
                }
            }
            assert forall|k: int| 0 <= k < all@.len() implies picked.contains(k)
                || #[trigger] origin.contains(k) by {
                if old_picked.contains(k) {
                    let i = choose|i: int| 0 <= i < old_picked.len() && old_picked[i] == k;
                    assert(picked[i] == k);
                } else {
                    assert(old_origin.contains(k));
                    let t = choose|t: int| 0 <= t < old_origin.len() && old_origin[t] == k;
                    if t == best {
                        assert(picked[old_picked.len() as int] == k);
                    } else if t < best {
                        assert(origin[t] == k);
                    } else {
                        assert(origin[t - 1] == k);
                    }
                }
            }
        }
    }
    proof {
        assert forall|k: int, i: int|
            0 <= k < all@.len() && !(#[trigger] picked.contains(k)) && 0 <= i < rows@.len()
            implies ranks_before(all@, sort, #[trigger] picked[i], k) by {
            assert(origin.contains(k));
            let t = choose|t: int| 0 <= t < origin.len() && origin[t] == k;
            assert(ranks_before(all@, sort, picked[i], origin[t]));
        }
        assert(is_ranking(rows@, all@, sort, picked));
    }
    rows
}

/// Adds up every group into its row, in the order of the groups.
pub fn summarize_all(groups: Vec<(String, Vec<(u64, u64)>)>) -> (all: Vec<ProcessMeta>)
    requires
        forall|i: int|
            0 <= i < groups@.len() ==> cpu_sum((#[trigger] groups@[i]).1@) <= u64::MAX
                && memory_sum(groups@[i].1@) <= u64::MAX,
    ensures
        all@.len() == groups@.len(),
        forall|i: int|
            0 <= i < all@.len() ==> (#[trigger] all@[i]).name == groups@[i].0
                && all@[i].cpu_usage == cpu_sum(groups@[i].1@)
                && all@[i].memory == memory_sum(groups@[i].1@)
                && all@[i].count == groups@[i].1@.len(),
{
    let mut all: Vec<ProcessMeta> = Vec::new();
    for group in it: groups
        invariant
            all@.len() == it.index(),
            it.seq() == groups@,
            forall|i: int|
                0 <= i < groups@.len() ==> cpu_sum((#[trigger] groups@[i]).1@) <= u64::MAX
                    && memory_sum(groups@[i].1@) <= u64::MAX,
            forall|i: int|
                0 <= i < all@.len() ==> (#[trigger] all@[i]).name == groups@[i].0
                    && all@[i].cpu_usage == cpu_sum(groups@[i].1@)
                    && all@[i].memory == memory_sum(groups@[i].1@)
                    && all@[i].count == groups@[i].1@.len(),
    {
        let (name, readings) = group;
        all.push(summarize(name, &readings));
    }
    all
}

/// The names that occur among `procs`.
pub open spec fn names_of(procs: Seq<ProcessSample>) -> Set<Seq<char>> {
    procs.map_values(|p: ProcessSample| p.name@).to_set()
}

/// The sums over all of `procs` can be held in 64 bits, and with them the
/// sums over any group.
pub open spec fn fits(procs: Seq<ProcessSample>) -> bool {
    &&& cpu_sum(all_readings(procs)) <= u64::MAX
    &&& memory_sum(all_readings(procs)) <= u64::MAX
}

/// The key under `sort` of the group of samples named `name`.
pub open spec fn group_key(procs: Seq<ProcessSample>, name: Seq<char>, sort: Sort) -> nat {
    match sort {
        Sort::Cpu => cpu_sum(readings_of(procs, name)) / (CPU_RANK_UNIT as nat),
        Sort::Memory => memory_sum(readings_of(procs, name)),
    }
}

/// `m` is the row of its name: the name occurs among `procs`, and the row
/// carries the exact sums and the number of the samples so named.
pub open spec fn summarizes(m: ProcessMeta, procs: Seq<ProcessSample>) -> bool {
    &&& has_name(procs, m.name@)
    &&& m.cpu_usage == cpu_sum(readings_of(procs, m.name@))
    &&& m.memory == memory_sum(readings_of(procs, m.name@))
    &&& m.count == readings_of(procs, m.name@).len()
}

/// Some row of `rows` is named `name`.
pub open spec fn has_row(rows: Seq<ProcessMeta>, name: Seq<char>) -> bool {
    exists|i: int| 0 <= i < rows.len() && (#[trigger] rows[i]).name@ == name
}

/// No two rows share a name.
pub open spec fn distinct_names(rows: Seq<ProcessMeta>) -> bool {
    forall|i: int, j: int|
        0 <= i < j < rows.len() ==> (#[trigger] rows[i]).name@ != (#[trigger] rows[j]).name@
}

/// The rows are in descending order of their keys under `sort`.
pub open spec fn descending(rows: Seq<ProcessMeta>, sort: Sort) -> bool {
    forall|i: int, j: int|
        0 <= i < j < rows.len() ==> key_of(#[trigger] rows[i], sort) >= key_of(
            #[trigger] rows[j],
            sort,
        )
}

/// `rows` is a snapshot of `procs` under `sort`: one row for each name, up
/// to `MAX_ROWS`; each row the exact summary of its group; the rows in
/// descending order of their keys; and no group without a row has a larger
/// key than a group with one.
pub open spec fn is_snapshot(
    rows: Seq<ProcessMeta>,
    procs: Seq<ProcessSample>,
    sort: Sort,
) -> bool {
    &&& rows.len() == min(names_of(procs).len() as int, MAX_ROWS as int)
    &&& distinct_names(rows)
    &&& forall|i: int| 0 <= i < rows.len() ==> summarizes(#[trigger] rows[i], procs)
    &&& descending(rows, sort)
    &&& forall|name: Seq<char>, i: int|
        has_name(procs, name) && !(#[trigger] has_row(rows, name)) && 0 <= i < rows.len()
            ==> group_key(procs, name, sort) <= key_of(#[trigger] rows[i], sort)
}

/// The sums of one group never pass the sums of all samples.
pub proof fn lemma_group_within_total(procs: Seq<ProcessSample>, name: Seq<char>)
    ensures
        cpu_sum(readings_of(procs, name)) <= cpu_sum(all_readings(procs)),
        memory_sum(readings_of(procs, name)) <= memory_sum(all_readings(procs)),
    decreases procs.len(),
{
    reveal(Seq::filter);
    if procs.len() > 0 {
        let earlier = procs.drop_last();
        let last = procs.last();
        lemma_group_within_total(earlier, name);
        assert(all_readings(procs).drop_last() =~= all_readings(earlier));
        assert(all_readings(procs).last() == reading(last));
        if last.name@ == name {
            assert(readings_of(procs, name) =~= readings_of(earlier, name).push(reading(last)));
            assert(readings_of(procs, name).drop_last() =~= readings_of(earlier, name));
        } else {
            assert(readings_of(procs, name) =~= readings_of(earlier, name));
        }
    }
}

/// A grouping has exactly one group for each name that occurs.
pub proof fn lemma_group_count(groups: Seq<(String, Vec<(u64, u64)>)>, procs: Seq<ProcessSample>)
    requires
        is_grouping(groups, procs),
    ensures
        groups.len() == names_of(procs).len(),
{
    let heads = groups.map_values(|g: (String, Vec<(u64, u64)>)| g.0@);
    let names = procs.map_values(|p: ProcessSample| p.name@);
    assert(heads.no_duplicates()) by {
        assert forall|i: int, j: int|
            0 <= i < heads.len() && 0 <= j < heads.len() && i != j implies heads[i]
            != heads[j] by {
            if i < j {
                assert(groups[i].0@ != groups[j].0@);
            } else {
                assert(groups[j].0@ != groups[i].0@);
            }
        }
    }
    assert forall|n: Seq<char>| heads.to_set().contains(n) <==> names.to_set().contains(n) by {
        if heads.to_set().contains(n) {
            let i = choose|i: int| 0 <= i < heads.len() && heads[i] == n;
            assert(has_name(procs, groups[i].0@));
            let k = choose|k: int| 0 <= k < procs.len() && (#[trigger] procs[k]).name@ == n;
            assert(names[k] == n);
        }
        if names.to_set().contains(n) {
            let k = choose|k: int| 0 <= k < names.len() && names[k] == n;
            assert(heads_group(groups, procs[k].name@));
            let i = choose|i: int| 0 <= i < groups.len() && (#[trigger] groups[i]).0@ == n;
            assert(heads[i] == n);
        }
    }
    assert(heads.to_set() =~= names.to_set());
    heads.unique_seq_to_set();
}

/// Builds the snapshot of `procs` under `sort`: groups the samples by name,
/// adds up each group, orders the groups by descending key and keeps the
/// first `MAX_ROWS`. Which of several groups with equal keys comes first is
/// left open.
pub fn get_processes(procs: &Vec<ProcessSample>, sort: Sort) -> (rows: Vec<ProcessMeta>)
    requires
        fits(procs@),
    ensures
        is_snapshot(rows@, procs@, sort),
{
    let groups = group_by_name(procs);
    proof {
        assert forall|i: int| 0 <= i < groups@.len() implies cpu_sum((#[trigger] groups@[i]).1@)
            <= u64::MAX && memory_sum(groups@[i].1@) <= u64::MAX by {
            lemma_group_within_total(procs@, groups@[i].0@);
        }
        lemma_group_count(groups@, procs@);
    }
    let all = summarize_all(groups);
    let rows = rank(all, sort);
    proof {
        let picked = choose|picked: Seq<int>| is_ranking(rows@, all@, sort, picked);
        lemma_ranking_is_sorted(rows@, all@, sort, picked);
        assert forall|i: int, j: int| 0 <= i < j < rows@.len() implies (#[trigger] rows@[i]).name@
            != (#[trigger] rows@[j]).name@ by {
            let a = picked[i];
            let b = picked[j];
            assert(a != b);
            assert(all@[a].name@ == groups@[a].0@);
            assert(all@[b].name@ == groups@[b].0@);
            if a < b {
                assert(groups@[a].0@ != groups@[b].0@);
            } else {
                assert(groups@[b].0@ != groups@[a].0@);
            }
        }
        assert forall|i: int| 0 <= i < rows@.len() implies summarizes(
            #[trigger] rows@[i],
            procs@,
        ) by {
            let a = picked[i];
            assert(all@[a].name@ == groups@[a].0@);
            assert(has_name(procs@, groups@[a].0@));
        }
        assert forall|name: Seq<char>, i: int|
            has_name(procs@, name) && !(#[trigger] has_row(rows@, name)) && 0 <= i < rows@.len()
            implies group_key(procs@, name, sort) <= key_of(#[trigger] rows@[i], sort) by {
            let k = choose|k: int| 0 <= k < procs@.len() && (#[trigger] procs@[k]).name@ == name;
            assert(heads_group(groups@, procs@[k].name@));
            let g = choose|g: int| 0 <= g < groups@.len() && (#[trigger] groups@[g]).0@ == name;
            assert(all@[g].name@ == name);
            if picked.contains(g) {
                let t = choose|t: int| 0 <= t < picked.len() && picked[t] == g;
                assert(rows@[t].name@ == name);
                assert(has_row(rows@, name));
            }
            assert(key_of(all@[g], sort) == group_key(procs@, name, sort));
        }
    }
    rows
}

} // verus!
