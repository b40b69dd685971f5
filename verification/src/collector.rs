//! Values exchanged with the process collector, and the arithmetic that
//! turns raw process and memory readings into table rows and totals.
use crate::snapshot::{HistoryPoint, ProcessRow, Snapshot, SystemSummary};
use crate::text::push_str;
use std::collections::HashMap;
use std::time::Instant;
use vstd::prelude::*;

verus! {

/// Which detailed memory values the table needs for its visible rows.
#[derive(Debug, Clone, Copy, PartialEq, Eq, Structural)]
pub struct VisibleDetailRequest {
    /// Whether unique set sizes are needed.
    pub uss: bool,
    /// Whether proportional set sizes are needed.
    pub pss: bool,
}

impl VisibleDetailRequest {
    /// Whether any detailed value is needed.
    pub fn needs_any(&self) -> (r: bool)
        ensures
            r == (self.uss || self.pss),
    {
        self.uss || self.pss
    }
}

impl Default for VisibleDetailRequest {
    /// Nothing requested.
    fn default() -> (r: Self)
        ensures
            !r.uss && !r.pss,
    {
        VisibleDetailRequest { uss: false, pss: false }
    }
}

/// Previous CPU counters for one process: the tick count last observed and
/// when it was captured.
#[derive(Debug, Clone, Copy)]
pub struct CpuSample {
    /// Sum of user and system ticks.
    pub total_time_ticks: u64,
    /// Time when the tick count was captured.
    pub captured_at: Instant,
}

/// Memory details resolved lazily for visible rows.
#[derive(Debug, Clone, Copy, PartialEq, Eq, Structural)]
pub struct DetailedMemorySample {
    /// Unique set size in bytes.
    pub uss_bytes: Option<u64>,
    /// Proportional set size in bytes.
    pub pss_bytes: Option<u64>,
    /// Swap usage in bytes.
    pub swap_bytes: Option<u64>,
}

/// Why a collection cycle failed.
#[derive(Debug, Clone, Copy, PartialEq, Eq, Structural)]
pub enum CollectorError {
    /// Failed to read machine-wide memory information.
    ReadMeminfo,
    /// Failed to enumerate the current process list.
    ListProcesses,
}

/// The message shown for a collection error.
pub open spec fn error_message(e: CollectorError) -> Seq<char> {
    match e {
        CollectorError::ReadMeminfo => "failed to read /proc/meminfo"@,
        CollectorError::ListProcesses => "failed to enumerate /proc processes"@,
    }
}

impl CollectorError {
    /// The message shown for this error.
    pub fn message(&self) -> (r: String)
        ensures
            r@ == error_message(*self),
    {
        let mut r = String::new();
        match self {
            CollectorError::ReadMeminfo => push_str(&mut r, "failed to read /proc/meminfo"),
            CollectorError::ListProcesses => push_str(
                &mut r,
                "failed to enumerate /proc processes",
            ),
        }
        r
    }
}

/// The source of process and memory readings. The application only reads
/// the system through this trait, so another source can replace the default
/// one.
pub trait SystemCollector {
    /// Collects the lightweight full-process snapshot used for every
    /// refresh, the CPU counters for the next one and the totals for the
    /// history charts.
    fn collect_base_snapshot(
        &self,
        previous_cpu: &HashMap<i32, CpuSample>,
        now: Instant,
    ) -> Result<(Snapshot, HashMap<i32, CpuSample>, HistoryPoint), CollectorError>;

    /// Collects the detailed memory values `request` asks for, for the
    /// processes `pids`.
    fn collect_visible_memory_details(
        &self,
        pids: &[i32],
        request: VisibleDetailRequest,
    ) -> HashMap<i32, DetailedMemorySample>;
}

/// The resident size of a process: the kibibytes of its status when they
/// are known, else its resident pages.
pub open spec fn rss_bytes_spec(vmrss_kib: Option<u64>, rss_pages: u64, page_size: u64) -> int {
    match vmrss_kib {
        Some(v) => v * 1024,
        None => rss_pages * page_size,
    }
}

/// The resident size of a process in bytes.
pub fn rss_bytes(vmrss_kib: Option<u64>, rss_pages: u64, page_size: u64) -> (r: u64)
    requires
        rss_bytes_spec(vmrss_kib, rss_pages, page_size) <= u64::MAX,
    ensures
        r == rss_bytes_spec(vmrss_kib, rss_pages, page_size),
{
    match vmrss_kib {
        Some(v) => v * 1024,
        None => rss_pages * page_size,
    }
}

/// The swapped-out size of a process in bytes: its status kibibytes, or
/// none.
pub fn swap_bytes(vmswap_kib: Option<u64>) -> (r: u64)
    requires
        match vmswap_kib {
            Some(v) => v * 1024 <= u64::MAX,
            None => true,
        },
    ensures
        r == match vmswap_kib {
            Some(v) => v * 1024,
            None => 0,
        },
{
    match vmswap_kib {
        Some(v) => v * 1024,
        None => 0,
    }
}

/// The total ticks of a process: user plus system, saturating.
pub fn total_ticks(utime: u64, stime: u64) -> (r: u64)
    ensures
        r == if utime + stime > u64::MAX {
            u64::MAX as int
        } else {
            utime + stime
        },
{
    utime.saturating_add(stime)
}

/// `a - b`, or zero when `b` is larger.
pub open spec fn sub_or_zero(a: u64, b: u64) -> u64 {
    if a > b {
        (a - b) as u64
    } else {
        0
    }
}

/// The sum of the rows' resident sizes, saturating at `u64::MAX`.
pub open spec fn total_rss(rows: Seq<ProcessRow>) -> int
    decreases rows.len(),
{
    if rows.len() == 0 {
        0
    } else {
        let t = total_rss(rows.drop_last()) + rows.last().rss_bytes;
        if t > u64::MAX {
            u64::MAX as int
        } else {
            t
        }
    }
}

/// The sum of the rows' base swap sizes, saturating at `u64::MAX`.
pub open spec fn total_swap(rows: Seq<ProcessRow>) -> int
    decreases rows.len(),
{
    if rows.len() == 0 {
        0
    } else {
        let t = total_swap(rows.drop_last()) + rows.last().base_swap_bytes;
        if t > u64::MAX {
            u64::MAX as int
        } else {
            t
        }
    }
}

/// The plain sum of the rows' resident sizes.
pub open spec fn rss_sum(rows: Seq<ProcessRow>) -> int
    decreases rows.len(),
{
    if rows.len() == 0 {
        0
    } else {
        rss_sum(rows.drop_last()) + rows.last().rss_bytes
    }
}

/// The plain sum of the rows' base swap sizes.
pub open spec fn swap_sum(rows: Seq<ProcessRow>) -> int
    decreases rows.len(),
{
    if rows.len() == 0 {
        0
    } else {
        swap_sum(rows.drop_last()) + rows.last().base_swap_bytes
    }
}

/// The saturating totals are the plain sums, or `u64::MAX` when a sum does
/// not fit.
pub proof fn lemma_totals_are_sums(rows: Seq<ProcessRow>)
    ensures
        total_rss(rows) == if rss_sum(rows) > u64::MAX {
            u64::MAX as int
        } else {
            rss_sum(rows)
        },
        total_swap(rows) == if swap_sum(rows) > u64::MAX {
            u64::MAX as int
        } else {
            swap_sum(rows)
        },
    decreases rows.len(),
{
    if rows.len() > 0 {
        lemma_totals_are_sums(rows.drop_last());
        assert(rss_sum(rows.drop_last()) >= 0) by {
            lemma_sums_nonnegative(rows.drop_last());
        }
    }
}

proof fn lemma_sums_nonnegative(rows: Seq<ProcessRow>)
    ensures
        rss_sum(rows) >= 0,
        swap_sum(rows) >= 0,
    decreases rows.len(),
{
    if rows.len() > 0 {
        lemma_sums_nonnegative(rows.drop_last());
    }
}

/// Totals the resident and swapped sizes of the rows, saturating.
pub fn process_totals(rows: &[ProcessRow]) -> (r: (u64, u64))
    ensures
        r.0 == total_rss(rows@),
        r.1 == total_swap(rows@),
        r.0 == if rss_sum(rows@) > u64::MAX { u64::MAX as int } else { rss_sum(rows@) },
        r.1 == if swap_sum(rows@) > u64::MAX { u64::MAX as int } else { swap_sum(rows@) },
{
    proof {
        lemma_totals_are_sums(rows@);
    }
    let mut rss: u64 = 0;
    let mut swap: u64 = 0;
    let mut i: usize = 0;
    while i < rows.len()
        invariant
            i <= rows.len(),
            rss == total_rss(rows@.take(i as int)),
            swap == total_swap(rows@.take(i as int)),
        decreases rows.len() - i,
    {
        proof {
            assert(rows@.take(i + 1).drop_last() =~= rows@.take(i as int));
        }
        rss = rss.saturating_add(rows[i].rss_bytes);
        swap = swap.saturating_add(rows[i].base_swap_bytes);
        i = i + 1;
    }
    assert(rows@.take(rows.len() as int) =~= rows@);
    (rss, swap)
}

/// The memory summary of one collection cycle: used memory is the total
/// less the available memory (the free memory when availability is not
/// reported), used swap the total less the free swap, both at least zero.
pub fn system_summary(
    mem_total: u64,
    mem_available: Option<u64>,
    mem_free: u64,
    swap_total: u64,
    swap_free: u64,
    rows: &[ProcessRow],
) -> (r: SystemSummary)
    ensures
        r.mem_total == mem_total,
        r.mem_available == mem_available,
        r.mem_free == mem_free,
        r.mem_used == sub_or_zero(
            mem_total,
            match mem_available {
                Some(a) => a,
                None => mem_free,
            },
        ),
        r.swap_total == swap_total,
        r.swap_free == swap_free,
        r.swap_used == sub_or_zero(swap_total, swap_free),
        r.total_process_rss == total_rss(rows@),
        r.total_process_swap == total_swap(rows@),
        r.process_count == rows.len(),
{
    let (total_process_rss, total_process_swap) = process_totals(rows);
    let available = match mem_available {
        Some(a) => a,
        None => mem_free,
    };
    SystemSummary {
        mem_total,
        mem_available,
        mem_free,
        mem_used: mem_total.saturating_sub(available),
        swap_total,
        swap_free,
        swap_used: swap_total.saturating_sub(swap_free),
        total_process_rss,
        total_process_swap,
        process_count: rows.len(),
    }
}

/// The history sample of a summary: its resident and swap totals.
pub fn history_point(summary: &SystemSummary) -> (r: HistoryPoint)
    ensures
        r.rss_bytes == summary.total_process_rss,
        r.swap_bytes == summary.total_process_swap,
{
    HistoryPoint { rss_bytes: summary.total_process_rss, swap_bytes: summary.total_process_swap }
}

/// A value of the memory rollup, zero when it is missing.
pub open spec fn or_zero(v: Option<u64>) -> int {
    match v {
        Some(x) => x as int,
        None => 0,
    }
}

/// The detailed values of a process from its memory rollup: the unique set
/// is its private clean and private dirty pages (a missing one counting as
/// zero, the sum saturating), the proportional set and swap as reported.
pub fn detailed_sample(
    private_clean: Option<u64>,
    private_dirty: Option<u64>,
    pss: Option<u64>,
    swap: Option<u64>,
) -> (r: DetailedMemorySample)
    ensures
        r.uss_bytes == Some(
            if or_zero(private_clean) + or_zero(private_dirty) > u64::MAX {
                u64::MAX
            } else {
                (or_zero(private_clean) + or_zero(private_dirty)) as u64
            },
        ),
        r.pss_bytes == pss,
        r.swap_bytes == swap,
{
    let clean = match private_clean {
        Some(v) => v,
        None => 0,
    };
    let dirty = match private_dirty {
        Some(v) => v,
        None => 0,
    };
    DetailedMemorySample { uss_bytes: Some(clean.saturating_add(dirty)), pss_bytes: pss, swap_bytes: swap }
}

} // verus!
