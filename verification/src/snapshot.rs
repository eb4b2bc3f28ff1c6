//! The point-in-time snapshot: raw per-domain readings merged into one
//! immutable aggregate, with the derived percentages, summaries, and
//! severity bands computed at aggregation time.

use vstd::prelude::*;
use crate::sensors::{TempReading, TempSummary, spec_temp_summary, temp_summary};
use crate::thresholds::{Band, spec_swap_band, swap_band};

verus! {

/// `x` capped at the largest value a `u64` can hold; summary totals
/// saturate there instead of wrapping.
pub open spec fn cap_u64(x: int) -> int {
    if x > u64::MAX {
        u64::MAX as int
    } else {
        x
    }
}

/// One network interface: cumulative received and transmitted bytes.
pub struct NetEntry {
    pub name: String,
    pub rx: u64,
    pub tx: u64,
}

impl NetEntry {
    pub fn duplicate(&self) -> (r: NetEntry)
        ensures
            r == *self,
    {
        NetEntry { name: self.name.clone(), rx: self.rx, tx: self.tx }
    }
}

/// One disk: its name, total capacity, and bytes still available.
pub struct DiskEntry {
    pub name: String,
    pub total: u64,
    pub available: u64,
}

impl DiskEntry {
    pub fn duplicate(&self) -> (r: DiskEntry)
        ensures
            r == *self,
    {
        DiskEntry { name: self.name.clone(), total: self.total, available: self.available }
    }
}

/// One process: id, name, CPU utilization in thousandths of a percent,
/// and resident memory in bytes.
pub struct ProcEntry {
    pub pid: u64,
    pub name: String,
    pub cpu_milli: u64,
    pub memory: u64,
}

impl ProcEntry {
    pub fn duplicate(&self) -> (r: ProcEntry)
        ensures
            r == *self,
    {
        ProcEntry {
            pid: self.pid,
            name: self.name.clone(),
            cpu_milli: self.cpu_milli,
            memory: self.memory,
        }
    }
}

/// Usage as basis points (hundredths of a percent): `used / total * 10000`,
/// truncated.
pub open spec fn spec_usage_bp(used: int, total: int) -> int {
    used * 10000 / total
}

/// Computes usage in basis points. A zero total yields no percentage at
/// all (the not-configured sentinel) rather than a division artifact; for
/// `used <= total` the result is the exact truncated value, at most 10000.
pub fn usage_bp(used: u64, total: u64) -> (r: Option<u64>)
    ensures
        (total == 0) == (r is None),
        total > 0 ==> r == Some(cap_u64(spec_usage_bp(used as int, total as int)) as u64),
        total > 0 && used <= total ==> r == Some(spec_usage_bp(used as int, total as int) as u64)
            && spec_usage_bp(used as int, total as int) <= 10000,
{
    if total == 0 {
        None
    } else {
        let v: u128 = (used as u128) * 10000 / (total as u128);
        proof {
            if used <= total {
                vstd::arithmetic::div_mod::lemma_div_is_ordered(
                    used as int * 10000,
                    total as int * 10000,
                    total as int,
                );
                vstd::arithmetic::div_mod::lemma_div_multiples_vanish(10000, total as int);
            }
        }
        if v > u64::MAX as u128 {
            Some(u64::MAX)
        } else {
            Some(v as u64)
        }
    }
}

/// Swap as reported: absent entirely, or configured with its pressure in
/// basis points and a severity band.
#[derive(Clone, Copy, PartialEq, Eq, Structural, Debug)]
pub enum SwapStatus {
    NotConfigured,
    Configured { bp: u64, band: Band },
}

/// The swap status owed for a given used/total pair.
pub open spec fn spec_swap_status(used: int, total: int) -> SwapStatus {
    if total == 0 {
        SwapStatus::NotConfigured
    } else {
        SwapStatus::Configured {
            bp: cap_u64(spec_usage_bp(used, total)) as u64,
            band: spec_swap_band(used, total),
        }
    }
}

/// Classifies swap: a zero total is the explicit not-configured sentinel,
/// never a division by zero.
pub fn swap_status(used: u64, total: u64) -> (s: SwapStatus)
    ensures
        s == spec_swap_status(used as int, total as int),
{
    match usage_bp(used, total) {
        None => SwapStatus::NotConfigured,
        Some(bp) => SwapStatus::Configured { bp, band: swap_band(used, total) },
    }
}

/// An interface is active when it has seen any traffic at all.
pub open spec fn active(e: NetEntry) -> bool {
    e.rx > 0 || e.tx > 0
}

/// The subsequence of active interfaces, in provider order.
pub open spec fn active_seq(s: Seq<NetEntry>) -> Seq<NetEntry> {
    s.filter(|e: NetEntry| active(e))
}

pub open spec fn sum_rx(s: Seq<NetEntry>) -> int
    decreases s.len(),
{
    if s.len() == 0 {
        0
    } else {
        sum_rx(s.drop_last()) + s.last().rx
    }
}

pub open spec fn sum_tx(s: Seq<NetEntry>) -> int
    decreases s.len(),
{
    if s.len() == 0 {
        0
    } else {
        sum_tx(s.drop_last()) + s.last().tx
    }
}

/// How many detail rows of interfaces and disks a snapshot retains.
pub const DETAIL_LIMIT: usize = 4;

/// Aggregate network view: totals and count over the active interfaces,
/// and the first few active interfaces for detail display.
pub struct NetSummary {
    pub total_rx: u64,
    pub total_tx: u64,
    pub active_count: usize,
    pub details: Vec<NetEntry>,
}

/// What a network summary owes to the interface list it came from:
/// saturating totals over exactly the active interfaces, their count, and
/// the first `DETAIL_LIMIT` of them, first-seen order, as details.
pub open spec fn net_summary_ok(nets: Seq<NetEntry>, s: NetSummary) -> bool {
    let act = active_seq(nets);
    &&& s.active_count == act.len()
    &&& s.total_rx == cap_u64(sum_rx(act))
    &&& s.total_tx == cap_u64(sum_tx(act))
    &&& s.details@ == act.take(vstd::math::min(DETAIL_LIMIT as int, act.len() as int))
}

/// Sums traffic across active interfaces (saturating) and retains the
/// first few active ones, in provider iteration order, for display.
pub fn net_summary(nets: &Vec<NetEntry>) -> (s: NetSummary)
    ensures
        net_summary_ok(nets@, s),
{
    let mut total_rx: u64 = 0;
    let mut total_tx: u64 = 0;
    let mut count: usize = 0;
    let mut details: Vec<NetEntry> = Vec::new();
    let n = nets.len();
    let mut i: usize = 0;
    proof {
        assert(nets@.take(0) =~= Seq::<NetEntry>::empty());
        reveal(Seq::filter);
        assert(active_seq(nets@.take(0)) =~= Seq::<NetEntry>::empty());
    }
    while i < n
        invariant
            0 <= i <= n,
            n == nets@.len(),
            count == active_seq(nets@.take(i as int)).len(),
            total_rx == cap_u64(sum_rx(active_seq(nets@.take(i as int)))),
            total_tx == cap_u64(sum_tx(active_seq(nets@.take(i as int)))),
            details@ == active_seq(nets@.take(i as int)).take(
                vstd::math::min(DETAIL_LIMIT as int, active_seq(nets@.take(i as int)).len() as int),
            ),
            count <= i,
        decreases n - i,
    {
        let ghost prefix = nets@.take(i as int);
        let ghost prefix1 = nets@.take(i as int + 1);
        let e = &nets[i];
        proof {
            reveal(Seq::filter);
            assert(prefix1.drop_last() =~= prefix);
            assert(prefix1.last() == nets@[i as int]);
            assert(*e == nets@[i as int]);
        }
        if e.rx > 0 || e.tx > 0 {
            proof {
                reveal(Seq::filter);
                assert(active(prefix1.last()));
                assert(active_seq(prefix1) =~= active_seq(prefix).push(*e));
                assert(active_seq(prefix1).drop_last() =~= active_seq(prefix));
            }
            total_rx = if e.rx > u64::MAX - total_rx {
                u64::MAX
            } else {
                total_rx + e.rx
            };
            total_tx = if e.tx > u64::MAX - total_tx {
                u64::MAX
            } else {
                total_tx + e.tx
            };
            if count < DETAIL_LIMIT {
                details.push(e.duplicate());
                proof {
                    assert(active_seq(prefix1).take(
                        vstd::math::min(DETAIL_LIMIT as int, active_seq(prefix1).len() as int),
                    ) =~= active_seq(prefix).take(
                        vstd::math::min(DETAIL_LIMIT as int, active_seq(prefix).len() as int),
                    ).push(*e));
                }
            } else {
                proof {
                    assert(active_seq(prefix1).take(
                        vstd::math::min(DETAIL_LIMIT as int, active_seq(prefix1).len() as int),
                    ) =~= active_seq(prefix).take(
                        vstd::math::min(DETAIL_LIMIT as int, active_seq(prefix).len() as int),
                    ));
                }
            }
            count = count + 1;
        } else {
            proof {
                reveal(Seq::filter);
                assert(!active(prefix1.last()));
                assert(active_seq(prefix1) =~= active_seq(prefix));
            }
        }
        i = i + 1;
    }
    proof {
        assert(nets@.take(n as int) =~= nets@);
    }
    NetSummary { total_rx, total_tx, active_count: count, details }
}

/// A disk is counted when it has any configured capacity.
pub open spec fn counted(e: DiskEntry) -> bool {
    e.total > 0
}

/// The subsequence of counted disks, in provider order.
pub open spec fn counted_seq(s: Seq<DiskEntry>) -> Seq<DiskEntry> {
    s.filter(|e: DiskEntry| counted(e))
}

/// Bytes in use on a disk: capacity minus available space (0 if a
/// provider ever reported more available than total).
pub open spec fn spec_disk_used(e: DiskEntry) -> int {
    if e.available <= e.total {
        e.total - e.available
    } else {
        0
    }
}

/// Bytes in use on a disk, from its entry.
pub fn disk_used(e: &DiskEntry) -> (r: u64)
    ensures
        r == spec_disk_used(*e),
{
    if e.available <= e.total {
        e.total - e.available
    } else {
        0
    }
}

pub open spec fn sum_space(s: Seq<DiskEntry>) -> int
    decreases s.len(),
{
    if s.len() == 0 {
        0
    } else {
        sum_space(s.drop_last()) + s.last().total
    }
}

pub open spec fn sum_used(s: Seq<DiskEntry>) -> int
    decreases s.len(),
{
    if s.len() == 0 {
        0
    } else {
        sum_used(s.drop_last()) + spec_disk_used(s.last())
    }
}

/// Aggregate storage view: totals and count over the counted disks, and
/// the first few of them for detail display.
pub struct DiskSummary {
    pub total_space: u64,
    pub total_used: u64,
    pub disk_count: usize,
    pub details: Vec<DiskEntry>,
}

/// What a disk summary owes to the disk list it came from: saturating
/// totals over exactly the disks with configured capacity, their count,
/// and the first `DETAIL_LIMIT` of them, first-seen order, as details.
pub open spec fn disk_summary_ok(disks: Seq<DiskEntry>, s: DiskSummary) -> bool {
    let c = counted_seq(disks);
    &&& s.disk_count == c.len()
    &&& s.total_space == cap_u64(sum_space(c))
    &&& s.total_used == cap_u64(sum_used(c))
    &&& s.details@ == c.take(vstd::math::min(DETAIL_LIMIT as int, c.len() as int))
}

/// Sums capacity and use across disks with configured space (saturating)
/// and retains the first few such disks for display.
pub fn disk_summary(disks: &Vec<DiskEntry>) -> (s: DiskSummary)
    ensures
        disk_summary_ok(disks@, s),
{
    let mut total_space: u64 = 0;
    let mut total_used: u64 = 0;
    let mut count: usize = 0;
    let mut details: Vec<DiskEntry> = Vec::new();
    let n = disks.len();
    let mut i: usize = 0;
    proof {
        assert(disks@.take(0) =~= Seq::<DiskEntry>::empty());
        reveal(Seq::filter);
        assert(counted_seq(disks@.take(0)) =~= Seq::<DiskEntry>::empty());
    }
    while i < n
        invariant
            0 <= i <= n,
            n == disks@.len(),
            count == counted_seq(disks@.take(i as int)).len(),
            total_space == cap_u64(sum_space(counted_seq(disks@.take(i as int)))),
            total_used == cap_u64(sum_used(counted_seq(disks@.take(i as int)))),
            details@ == counted_seq(disks@.take(i as int)).take(
                vstd::math::min(
                    DETAIL_LIMIT as int,
                    counted_seq(disks@.take(i as int)).len() as int,
                ),
            ),
            count <= i,
        decreases n - i,
    {
        let ghost prefix = disks@.take(i as int);
        let ghost prefix1 = disks@.take(i as int + 1);
        let e = &disks[i];
        proof {
            reveal(Seq::filter);
            assert(prefix1.drop_last() =~= prefix);
            assert(prefix1.last() == disks@[i as int]);
            assert(*e == disks@[i as int]);
        }
        if e.total > 0 {
            proof {
                reveal(Seq::filter);
                assert(counted(prefix1.last()));
                assert(counted_seq(prefix1) =~= counted_seq(prefix).push(*e));
                assert(counted_seq(prefix1).drop_last() =~= counted_seq(prefix));
            }
            let used = disk_used(e);
            total_space = if e.total > u64::MAX - total_space {
                u64::MAX
            } else {
                total_space + e.total
            };
            total_used = if used > u64::MAX - total_used {
                u64::MAX
            } else {
                total_used + used
            };
            if count < DETAIL_LIMIT {
                details.push(e.duplicate());
                proof {
                    assert(counted_seq(prefix1).take(
                        vstd::math::min(DETAIL_LIMIT as int, counted_seq(prefix1).len() as int),
                    ) =~= counted_seq(prefix).take(
                        vstd::math::min(DETAIL_LIMIT as int, counted_seq(prefix).len() as int),
                    ).push(*e));
                }
            } else {
                proof {
                    assert(counted_seq(prefix1).take(
                        vstd::math::min(DETAIL_LIMIT as int, counted_seq(prefix1).len() as int),
                    ) =~= counted_seq(prefix).take(
                        vstd::math::min(DETAIL_LIMIT as int, counted_seq(prefix).len() as int),
                    ));
                }
            }
            count = count + 1;
        } else {
            proof {
                reveal(Seq::filter);
                assert(!counted(prefix1.last()));
                assert(counted_seq(prefix1) =~= counted_seq(prefix));
            }
        }
        i = i + 1;
    }
    proof {
        assert(disks@.take(n as int) =~= disks@);
    }
    DiskSummary { total_space, total_used, disk_count: count, details }
}

/// Raw per-domain readings handed in by the raw-reading provider, already
/// converted to plain integer units: CPU utilization in basis points, load
/// averages in hundredths, temperatures in millidegrees.
pub struct RawReadings {
    pub cpu_bp: u64,
    pub mem_total: u64,
    pub mem_used: u64,
    pub swap_total: u64,
    pub swap_used: u64,
    pub load_one_c: u64,
    pub load_five_c: u64,
    pub load_fifteen_c: u64,
    pub uptime_s: u64,
    pub temps: Vec<TempReading>,
    pub disks: Vec<DiskEntry>,
    pub nets: Vec<NetEntry>,
    pub procs: Vec<ProcEntry>,
}

/// One consistent, immutable point-in-time bundle of all sampled metrics,
/// with the derived views computed from exactly the readings it holds.
pub struct Snapshot {
    pub cpu_bp: u64,
    pub mem_total: u64,
    pub mem_used: u64,
    /// Memory usage in basis points; the sentinel `None` when no memory
    /// total was reported.
    pub mem_usage: Option<u64>,
    pub swap_total: u64,
    pub swap_used: u64,
    pub swap: SwapStatus,
    pub load_one_c: u64,
    pub load_five_c: u64,
    pub load_fifteen_c: u64,
    pub uptime_s: u64,
    pub temps: Vec<TempReading>,
    pub disks: Vec<DiskEntry>,
    pub nets: Vec<NetEntry>,
    pub procs: Vec<ProcEntry>,
    pub temp: TempSummary,
    pub net: NetSummary,
    pub disk: DiskSummary,
}

/// Merges one set of raw readings into a snapshot. Every derived field is
/// a function of these readings alone, so all parts of the snapshot
/// reflect the same instant.
pub fn build_snapshot(raw: RawReadings) -> (s: Snapshot)
    ensures
        s.cpu_bp == raw.cpu_bp,
        s.mem_total == raw.mem_total,
        s.mem_used == raw.mem_used,
        (raw.mem_total == 0) == (s.mem_usage is None),
        raw.mem_total > 0 ==> s.mem_usage == Some(
            cap_u64(spec_usage_bp(raw.mem_used as int, raw.mem_total as int)) as u64,
        ),
        raw.mem_total > 0 && raw.mem_used <= raw.mem_total ==> s.mem_usage == Some(
            spec_usage_bp(raw.mem_used as int, raw.mem_total as int) as u64,
        ),
        s.swap_total == raw.swap_total,
        s.swap_used == raw.swap_used,
        s.swap == spec_swap_status(raw.swap_used as int, raw.swap_total as int),
        s.load_one_c == raw.load_one_c,
        s.load_five_c == raw.load_five_c,
        s.load_fifteen_c == raw.load_fifteen_c,
        s.uptime_s == raw.uptime_s,
        s.temps@ == raw.temps@,
        s.disks@ == raw.disks@,
        s.nets@ == raw.nets@,
        s.procs@ == raw.procs@,
        s.temp == spec_temp_summary(raw.temps@),
        net_summary_ok(raw.nets@, s.net),
        disk_summary_ok(raw.disks@, s.disk),
{
    let mem_usage = usage_bp(raw.mem_used, raw.mem_total);
    let swap = swap_status(raw.swap_used, raw.swap_total);
    let temp = temp_summary(&raw.temps);
    let net = net_summary(&raw.nets);
    let disk = disk_summary(&raw.disks);
    Snapshot {
        cpu_bp: raw.cpu_bp,
        mem_total: raw.mem_total,
        mem_used: raw.mem_used,
        mem_usage,
        swap_total: raw.swap_total,
        swap_used: raw.swap_used,
        swap,
        load_one_c: raw.load_one_c,
        load_five_c: raw.load_five_c,
        load_fifteen_c: raw.load_fifteen_c,
        uptime_s: raw.uptime_s,
        temps: raw.temps,
        disks: raw.disks,
        nets: raw.nets,
        procs: raw.procs,
        temp,
        net,
        disk,
    }
}

} // verus!
