//! Data captured in one collection cycle and the sort settings of the table.
use compact_str::CompactString;
use std::time::Instant;
use vstd::prelude::*;

verus! {

/// The monotonic clock reading type of std.
#[verifier::external_type_specification]
#[verifier::external_body]
pub struct ExInstant(Instant);

/// A short label held in a `compact_str::CompactString`. The string type
/// itself cannot be declared to Verus (its trait impls are refused), so the
/// label holds it in a private field behind this opaque struct.
#[verifier::external_body]
#[derive(Debug)]
pub struct CompactLabel {
    inner: CompactString,
}

/// The characters a label holds.
pub uninterp spec fn compact_chars(s: CompactLabel) -> Seq<char>;

/// Calls `CompactString::new`, which copies the given text: the new label
/// holds exactly the characters of `text`.
#[verifier::external_body]
fn compact_string_new(text: &str) -> (r: CompactLabel)
    ensures
        compact_chars(r) == text@,
{
    CompactLabel { inner: CompactString::new(text) }
}

impl CompactLabel {
    /// Calls `CompactString::as_str`, which returns the held text.
    #[verifier::external_body]
    pub fn as_str(&self) -> (r: &str)
        ensures
            r@ == compact_chars(*self),
    {
        self.inner.as_str()
    }
}

/// Reads the monotonic clock through `Instant::now`; nothing is stated of
/// the reading.
#[verifier::external_body]
pub fn instant_now() -> Instant {
    Instant::now()
}

/// Sort keys supported by the process table.
#[derive(Debug, Clone, Copy, PartialEq, Eq, Structural)]
pub enum SortKey {
    /// Sort by process ID.
    Pid,
    /// Sort by parent process ID.
    Ppid,
    /// Sort by owner name.
    Owner,
    /// Sort by short process name.
    Name,
    /// Sort by full command line.
    Command,
    /// Sort by resident set size.
    Rss,
    /// Sort by swap usage.
    Swap,
    /// Sort by calculated CPU percentage.
    Cpu,
}

/// The direction of a sort.
#[derive(Debug, Clone, Copy, PartialEq, Eq, Structural)]
pub enum SortDirection {
    /// Sort in ascending order (e.g. lowest to highest).
    Ascending,
    /// Sort in descending order (e.g. highest to lowest).
    Descending,
}

/// The sort keys in the order the sort picker lists them.
pub open spec fn sort_key_seq() -> Seq<SortKey> {
    seq![
        SortKey::Pid,
        SortKey::Ppid,
        SortKey::Owner,
        SortKey::Name,
        SortKey::Command,
        SortKey::Rss,
        SortKey::Swap,
        SortKey::Cpu,
    ]
}

/// The snake-case identifier of a sort key.
pub open spec fn sort_key_id_spec(key: SortKey) -> Seq<char> {
    match key {
        SortKey::Pid => "pid"@,
        SortKey::Ppid => "ppid"@,
        SortKey::Owner => "owner"@,
        SortKey::Name => "name"@,
        SortKey::Command => "command"@,
        SortKey::Rss => "rss"@,
        SortKey::Swap => "swap"@,
        SortKey::Cpu => "cpu"@,
    }
}

/// The identifier of a sort direction.
pub open spec fn sort_direction_id_spec(direction: SortDirection) -> Seq<char> {
    match direction {
        SortDirection::Ascending => "asc"@,
        SortDirection::Descending => "desc"@,
    }
}

/// The opposite direction.
pub open spec fn flipped(direction: SortDirection) -> SortDirection {
    match direction {
        SortDirection::Ascending => SortDirection::Descending,
        SortDirection::Descending => SortDirection::Ascending,
    }
}

/// Flipping a sort direction twice gives back the direction.
pub proof fn lemma_flip_involution(direction: SortDirection)
    ensures
        flipped(flipped(direction)) == direction,
        flipped(direction) != direction,
{
}

/// The direction a key starts with when it is first chosen: text and
/// identifiers ascend, metrics descend.
pub open spec fn default_direction_spec(key: SortKey) -> SortDirection {
    match key {
        SortKey::Rss | SortKey::Swap | SortKey::Cpu => SortDirection::Descending,
        _ => SortDirection::Ascending,
    }
}

/// The title shown for a sort key.
pub open spec fn sort_key_title(v: SortKey) -> Seq<char> {
    match v {
        SortKey::Pid => "PID"@,
        SortKey::Ppid => "PPID"@,
        SortKey::Owner => "OWNER"@,
        SortKey::Name => "NAME"@,
        SortKey::Command => "COMMAND"@,
        SortKey::Rss => "RSS"@,
        SortKey::Swap => "SWAP"@,
        SortKey::Cpu => "CPU"@,
    }
}

impl SortKey {
    /// Returns the snake-case identifier of this key.
    pub fn id(self) -> (r: &'static str)
        ensures
            r@ == sort_key_id_spec(self),
    {
        proof {
            reveal_strlit("pid");
            reveal_strlit("ppid");
            reveal_strlit("owner");
            reveal_strlit("name");
            reveal_strlit("command");
            reveal_strlit("rss");
            reveal_strlit("swap");
            reveal_strlit("cpu");
        }
        match self {
            SortKey::Pid => "pid",
            SortKey::Ppid => "ppid",
            SortKey::Owner => "owner",
            SortKey::Name => "name",
            SortKey::Command => "command",
            SortKey::Rss => "rss",
            SortKey::Swap => "swap",
            SortKey::Cpu => "cpu",
        }
    }

    /// Returns the column title shown for this key in the sort picker.
    pub fn title(self) -> (r: &'static str)
        ensures
            r@ == sort_key_title(self),
    {
        match self {
            SortKey::Pid => "PID",
            SortKey::Ppid => "PPID",
            SortKey::Owner => "OWNER",
            SortKey::Name => "NAME",
            SortKey::Command => "COMMAND",
            SortKey::Rss => "RSS",
            SortKey::Swap => "SWAP",
            SortKey::Cpu => "CPU",
        }
    }

    /// Returns the direction a key starts with when it is first chosen.
    pub fn default_direction(self) -> (r: SortDirection)
        ensures
            r == default_direction_spec(self),
    {
        match self {
            SortKey::Rss | SortKey::Swap | SortKey::Cpu => SortDirection::Descending,
            _ => SortDirection::Ascending,
        }
    }

    /// Returns the key at `index` in the picker order, if there is one.
    pub fn nth(index: usize) -> (r: Option<SortKey>)
        ensures
            r == (if index < sort_key_seq().len() {
                Some(sort_key_seq()[index as int])
            } else {
                None
            }),
    {
        match index {
            0 => Some(SortKey::Pid),
            1 => Some(SortKey::Ppid),
            2 => Some(SortKey::Owner),
            3 => Some(SortKey::Name),
            4 => Some(SortKey::Command),
            5 => Some(SortKey::Rss),
            6 => Some(SortKey::Swap),
            7 => Some(SortKey::Cpu),
            _ => None,
        }
    }

    /// Returns all keys in the picker order.
    pub fn all() -> (r: Vec<SortKey>)
        ensures
            r@ == sort_key_seq(),
    {
        let r = vec![
            SortKey::Pid,
            SortKey::Ppid,
            SortKey::Owner,
            SortKey::Name,
            SortKey::Command,
            SortKey::Rss,
            SortKey::Swap,
            SortKey::Cpu,
        ];
        assert(r@ =~= sort_key_seq());
        r
    }
}

impl SortDirection {
    /// Returns the identifier of this direction.
    pub fn id(self) -> (r: &'static str)
        ensures
            r@ == sort_direction_id_spec(self),
    {
        match self {
            SortDirection::Ascending => "asc",
            SortDirection::Descending => "desc",
        }
    }
}

/// The key and direction of the process table sort.
#[derive(Debug, Clone, Copy, PartialEq, Eq, Structural)]
pub struct SortState {
    /// The key currently used for sorting the process table.
    pub key: SortKey,
    /// The direction of sorting (ascending or descending).
    pub direction: SortDirection,
}

impl SortState {
    /// Creates a new `SortState` with the given key and direction.
    pub fn new(key: SortKey, direction: SortDirection) -> (r: Self)
        ensures
            r.key == key,
            r.direction == direction,
    {
        Self { key, direction }
    }

    /// Toggles the sort direction between ascending and descending.
    pub fn toggle(&mut self)
        ensures
            final(self).key == old(self).key,
            final(self).direction == flipped(old(self).direction),
    {
        self.direction =
        match self.direction {
            SortDirection::Ascending => SortDirection::Descending,
            SortDirection::Descending => SortDirection::Ascending,
        };
    }

    /// Chooses `key`: the same key again flips the direction, a new key
    /// starts with its default direction.
    pub fn toggle_key(&mut self, key: SortKey)
        ensures
            final(self).key == key,
            final(self).direction == (if old(self).key == key {
                flipped(old(self).direction)
            } else {
                default_direction_spec(key)
            }),
    {
        if self.key == key {
            self.toggle();
        } else {
            self.key = key;
            self.direction = key.default_direction();
        }
    }

    /// Returns `"<key> <direction>"`, for example `rss desc`.
    pub fn label(&self) -> (r: CompactLabel)
        ensures
            compact_chars(r) == sort_key_id_spec(self.key) + " "@ + sort_direction_id_spec(
                self.direction,
            ),
    {
        let mut text = String::new();
        crate::text::push_str(&mut text, self.key.id());
        crate::text::push_str(&mut text, " ");
        crate::text::push_str(&mut text, self.direction.id());
        compact_string_new(text.as_str())
    }
}

/// One history sample used by the top charts.
#[derive(Debug, Clone, Copy)]
pub struct HistoryPoint {
    /// Sum of RSS for all scanned processes, in bytes.
    pub rss_bytes: u64,
    /// Sum of swap for all scanned processes, in bytes.
    pub swap_bytes: u64,
}

/// Aggregated machine-wide and process-wide memory summary for the status panel.
#[derive(Debug, Clone, Copy)]
pub struct SystemSummary {
    /// Total physical memory, in bytes.
    pub mem_total: u64,
    /// Estimated memory available without swapping, in bytes.
    pub mem_available: Option<u64>,
    /// Free physical memory, in bytes.
    pub mem_free: u64,
    /// Used physical memory derived from total and available/free, in bytes.
    pub mem_used: u64,
    /// Total configured swap, in bytes.
    pub swap_total: u64,
    /// Free swap, in bytes.
    pub swap_free: u64,
    /// Used swap derived from total and free, in bytes.
    pub swap_used: u64,
    /// Sum of process RSS values currently observed, in bytes.
    pub total_process_rss: u64,
    /// Sum of process swap values currently observed, in bytes.
    pub total_process_swap: u64,
    /// Number of processes included in the snapshot.
    pub process_count: usize,
}

/// One row in the process table.
///
/// Lightweight fields such as RSS and base swap are collected every refresh.
/// Heavier values such as USS and PSS are filled only for the visible rows.
#[derive(Debug, Clone)]
pub struct ProcessRow {
    /// Process ID.
    pub pid: i32,
    /// Parent process ID.
    pub ppid: i32,
    /// Real or effective owner UID used for display.
    pub owner_uid: u32,
    /// Thread count.
    pub threads: u64,
    /// Short process name.
    pub name: String,
    /// Joined command line, truncated for display.
    pub command: String,
    /// Resident set size in bytes.
    pub rss_bytes: u64,
    /// Unique set size in bytes, when it has been loaded.
    pub uss_bytes: Option<u64>,
    /// Proportional set size in bytes, when it has been loaded.
    pub pss_bytes: Option<u64>,
    /// Cheap swap estimate, in bytes.
    pub base_swap_bytes: u64,
    /// Detailed swap value, in bytes, when it has been loaded.
    pub detailed_swap_bytes: Option<u64>,
    /// CPU percentage calculated from two samples, held as an order key: a
    /// higher key is a higher percentage and equal keys are equal
    /// percentages.
    pub cpu_percent: u32,
}

/// The swap value shown for a row: the detailed value when it is loaded.
pub open spec fn visible_swap_spec(row: ProcessRow) -> u64 {
    match row.detailed_swap_bytes {
        Some(v) => v,
        None => row.base_swap_bytes,
    }
}

impl ProcessRow {
    /// Returns the best swap value currently available for display.
    pub fn visible_swap_bytes(&self) -> (r: u64)
        ensures
            r == visible_swap_spec(*self),
    {
        match self.detailed_swap_bytes {
            Some(v) => v,
            None => self.base_swap_bytes,
        }
    }

    /// A copy of this row.
    pub fn copy(&self) -> (r: Self)
        ensures
            same_row(r, *self),
    {
        ProcessRow {
            pid: self.pid,
            ppid: self.ppid,
            owner_uid: self.owner_uid,
            threads: self.threads,
            name: crate::text::copy_string(&self.name),
            command: crate::text::copy_string(&self.command),
            rss_bytes: self.rss_bytes,
            uss_bytes: self.uss_bytes,
            pss_bytes: self.pss_bytes,
            base_swap_bytes: self.base_swap_bytes,
            detailed_swap_bytes: self.detailed_swap_bytes,
            cpu_percent: self.cpu_percent,
        }
    }
}

/// Whether two rows hold the same values, texts compared by their
/// characters.
pub open spec fn same_row(a: ProcessRow, b: ProcessRow) -> bool {
    &&& a.pid == b.pid
    &&& a.ppid == b.ppid
    &&& a.owner_uid == b.owner_uid
    &&& a.threads == b.threads
    &&& a.name@ == b.name@
    &&& a.command@ == b.command@
    &&& a.rss_bytes == b.rss_bytes
    &&& a.uss_bytes == b.uss_bytes
    &&& a.pss_bytes == b.pss_bytes
    &&& a.base_swap_bytes == b.base_swap_bytes
    &&& a.detailed_swap_bytes == b.detailed_swap_bytes
    &&& a.cpu_percent == b.cpu_percent
}

/// Immutable view of one collection cycle.
#[derive(Debug)]
pub struct Snapshot {
    /// Time when this snapshot was captured.
    pub captured_at: Instant,
    /// Aggregated summary for the status panel and graphs.
    pub system: SystemSummary,
    /// Process rows shown in the main table.
    pub processes: Vec<ProcessRow>,
}

/// A snapshot with no processes and all totals zero.
pub fn empty_snapshot() -> (r: Snapshot)
    ensures
        r.processes@.len() == 0,
        r.system.mem_total == 0,
        r.system.mem_available is None,
        r.system.mem_free == 0,
        r.system.mem_used == 0,
        r.system.swap_total == 0,
        r.system.swap_free == 0,
        r.system.swap_used == 0,
        r.system.total_process_rss == 0,
        r.system.total_process_swap == 0,
        r.system.process_count == 0,
{
    Snapshot {
        captured_at: instant_now(),
        system: SystemSummary {
            mem_total: 0,
            mem_available: None,
            mem_free: 0,
            mem_used: 0,
            swap_total: 0,
            swap_free: 0,
            swap_used: 0,
            total_process_rss: 0,
            total_process_swap: 0,
            process_count: 0,
        },
        processes: Vec::new(),
    }
}

} // verus!
