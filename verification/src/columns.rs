//! Process table columns, their order and their visibility.
use crate::collector::VisibleDetailRequest;
use crate::snapshot::SortKey;
use crate::text::{push_str, str_eq};
use crate::view::ViewMode;
use vstd::prelude::*;

verus! {

/// One column of the process table.
#[derive(Debug, Clone, Copy, PartialEq, Eq, Structural)]
pub enum ProcessColumn {
    Pid,
    Ppid,
    Owner,
    Thread,
    Name,
    Command,
    Rss,
    Uss,
    Pss,
    Swap,
    Cpu,
}

/// The number of columns.
pub const COLUMN_COUNT: usize = 11;

/// All columns in their default order.
pub open spec fn all_columns() -> Seq<ProcessColumn> {
    seq![
        ProcessColumn::Pid,
        ProcessColumn::Ppid,
        ProcessColumn::Owner,
        ProcessColumn::Thread,
        ProcessColumn::Name,
        ProcessColumn::Command,
        ProcessColumn::Rss,
        ProcessColumn::Uss,
        ProcessColumn::Pss,
        ProcessColumn::Swap,
        ProcessColumn::Cpu,
    ]
}

/// The position of a column in the default order.
pub open spec fn column_index(c: ProcessColumn) -> int {
    match c {
        ProcessColumn::Pid => 0,
        ProcessColumn::Ppid => 1,
        ProcessColumn::Owner => 2,
        ProcessColumn::Thread => 3,
        ProcessColumn::Name => 4,
        ProcessColumn::Command => 5,
        ProcessColumn::Rss => 6,
        ProcessColumn::Uss => 7,
        ProcessColumn::Pss => 8,
        ProcessColumn::Swap => 9,
        ProcessColumn::Cpu => 10,
    }
}

/// The snake-case identifier of a column, used in the configuration file.
pub open spec fn column_id_spec(c: ProcessColumn) -> Seq<char> {
    match c {
        ProcessColumn::Pid => "pid"@,
        ProcessColumn::Ppid => "ppid"@,
        ProcessColumn::Owner => "owner"@,
        ProcessColumn::Thread => "thread"@,
        ProcessColumn::Name => "name"@,
        ProcessColumn::Command => "command"@,
        ProcessColumn::Rss => "rss"@,
        ProcessColumn::Uss => "uss"@,
        ProcessColumn::Pss => "pss"@,
        ProcessColumn::Swap => "swap"@,
        ProcessColumn::Cpu => "cpu"@,
    }
}

/// The column whose identifier is exactly `id`, if any.
pub open spec fn column_from_id_spec(id: Seq<char>) -> Option<ProcessColumn> {
    if id == "pid"@ {
        Some(ProcessColumn::Pid)
    } else if id == "ppid"@ {
        Some(ProcessColumn::Ppid)
    } else if id == "owner"@ {
        Some(ProcessColumn::Owner)
    } else if id == "thread"@ {
        Some(ProcessColumn::Thread)
    } else if id == "name"@ {
        Some(ProcessColumn::Name)
    } else if id == "command"@ {
        Some(ProcessColumn::Command)
    } else if id == "rss"@ {
        Some(ProcessColumn::Rss)
    } else if id == "uss"@ {
        Some(ProcessColumn::Uss)
    } else if id == "pss"@ {
        Some(ProcessColumn::Pss)
    } else if id == "swap"@ {
        Some(ProcessColumn::Swap)
    } else if id == "cpu"@ {
        Some(ProcessColumn::Cpu)
    } else {
        None
    }
}

/// The column title shown in the table header.
pub open spec fn column_title_spec(c: ProcessColumn) -> Seq<char> {
    match c {
        ProcessColumn::Pid => "PID"@,
        ProcessColumn::Ppid => "PPID"@,
        ProcessColumn::Owner => "OWNER"@,
        ProcessColumn::Thread => "THREAD"@,
        ProcessColumn::Name => "NAME"@,
        ProcessColumn::Command => "COMMAND"@,
        ProcessColumn::Rss => "RSS"@,
        ProcessColumn::Uss => "USS"@,
        ProcessColumn::Pss => "PSS"@,
        ProcessColumn::Swap => "SWAP"@,
        ProcessColumn::Cpu => "CPU"@,
    }
}

/// The width of a column in the flat and in the tree view.
pub open spec fn column_width_spec(c: ProcessColumn, view_mode: ViewMode) -> u16 {
    match c {
        ProcessColumn::Pid => 7,
        ProcessColumn::Ppid => 7,
        ProcessColumn::Owner => 12,
        ProcessColumn::Thread => 8,
        ProcessColumn::Name => if view_mode == ViewMode::Flat {
            24
        } else {
            32
        },
        ProcessColumn::Command => if view_mode == ViewMode::Flat {
            24
        } else {
            16
        },
        ProcessColumn::Rss => 12,
        ProcessColumn::Uss => 12,
        ProcessColumn::Pss => 12,
        ProcessColumn::Swap => 12,
        ProcessColumn::Cpu => 8,
    }
}

/// The column that shows a sort key.
pub open spec fn column_of_sort_key(key: SortKey) -> ProcessColumn {
    match key {
        SortKey::Pid => ProcessColumn::Pid,
        SortKey::Ppid => ProcessColumn::Ppid,
        SortKey::Owner => ProcessColumn::Owner,
        SortKey::Name => ProcessColumn::Name,
        SortKey::Command => ProcessColumn::Command,
        SortKey::Rss => ProcessColumn::Rss,
        SortKey::Swap => ProcessColumn::Swap,
        SortKey::Cpu => ProcessColumn::Cpu,
    }
}

proof fn lemma_column_index(c: ProcessColumn)
    ensures
        0 <= column_index(c) < 11,
        all_columns()[column_index(c)] == c,
{
}

proof fn lemma_all_columns_index(k: int)
    requires
        0 <= k < 11,
    ensures
        column_index(all_columns()[k]) == k,
{
}

/// Every identifier names its own column.
pub proof fn lemma_column_id_roundtrip(c: ProcessColumn)
    ensures
        column_from_id_spec(column_id_spec(c)) == Some(c),
{
    reveal_strlit("pid");
    reveal_strlit("ppid");
    reveal_strlit("owner");
    reveal_strlit("thread");
    reveal_strlit("name");
    reveal_strlit("command");
    reveal_strlit("rss");
    reveal_strlit("uss");
    reveal_strlit("pss");
    reveal_strlit("swap");
    reveal_strlit("cpu");
    assert("pid"@[1] != "pss"@[1]);
    assert("pid"@[0] != "rss"@[0]);
    assert("pid"@[0] != "uss"@[0]);
    assert("pid"@[0] != "cpu"@[0]);
    assert("rss"@[0] != "uss"@[0]);
    assert("rss"@[0] != "pss"@[0]);
    assert("rss"@[0] != "cpu"@[0]);
    assert("uss"@[0] != "pss"@[0]);
    assert("uss"@[0] != "cpu"@[0]);
    assert("pss"@[0] != "cpu"@[0]);
    assert("ppid"@[0] != "name"@[0]);
    assert("ppid"@[0] != "swap"@[0]);
    assert("name"@[0] != "swap"@[0]);
    assert("thread"@.len() == 6);
    assert("command"@.len() == 7);
    assert("owner"@.len() == 5);
    match c {
        ProcessColumn::Pid => {},
        ProcessColumn::Ppid => {},
        ProcessColumn::Owner => {},
        ProcessColumn::Thread => {},
        ProcessColumn::Name => {},
        ProcessColumn::Command => {},
        ProcessColumn::Rss => {},
        ProcessColumn::Uss => {},
        ProcessColumn::Pss => {},
        ProcessColumn::Swap => {},
        ProcessColumn::Cpu => {},
    }
}

impl ProcessColumn {
    /// Returns the snake-case identifier of this column.
    pub fn id(self) -> (r: &'static str)
        ensures
            r@ == column_id_spec(self),
    {
        match self {
            ProcessColumn::Pid => "pid",
            ProcessColumn::Ppid => "ppid",
            ProcessColumn::Owner => "owner",
            ProcessColumn::Thread => "thread",
            ProcessColumn::Name => "name",
            ProcessColumn::Command => "command",
            ProcessColumn::Rss => "rss",
            ProcessColumn::Uss => "uss",
            ProcessColumn::Pss => "pss",
            ProcessColumn::Swap => "swap",
            ProcessColumn::Cpu => "cpu",
        }
    }

    /// Returns the column whose identifier is exactly `id`.
    pub fn try_from_id(id: &str) -> (r: Option<ProcessColumn>)
        ensures
            r == column_from_id_spec(id@),
    {
        if str_eq(id, "pid") {
            Some(ProcessColumn::Pid)
        } else if str_eq(id, "ppid") {
            Some(ProcessColumn::Ppid)
        } else if str_eq(id, "owner") {
            Some(ProcessColumn::Owner)
        } else if str_eq(id, "thread") {
            Some(ProcessColumn::Thread)
        } else if str_eq(id, "name") {
            Some(ProcessColumn::Name)
        } else if str_eq(id, "command") {
            Some(ProcessColumn::Command)
        } else if str_eq(id, "rss") {
            Some(ProcessColumn::Rss)
        } else if str_eq(id, "uss") {
            Some(ProcessColumn::Uss)
        } else if str_eq(id, "pss") {
            Some(ProcessColumn::Pss)
        } else if str_eq(id, "swap") {
            Some(ProcessColumn::Swap)
        } else if str_eq(id, "cpu") {
            Some(ProcessColumn::Cpu)
        } else {
            None
        }
    }

    /// Returns the header title of this column.
    pub fn title(self) -> (r: &'static str)
        ensures
            r@ == column_title_spec(self),
    {
        match self {
            ProcessColumn::Pid => "PID",
            ProcessColumn::Ppid => "PPID",
            ProcessColumn::Owner => "OWNER",
            ProcessColumn::Thread => "THREAD",
            ProcessColumn::Name => "NAME",
            ProcessColumn::Command => "COMMAND",
            ProcessColumn::Rss => "RSS",
            ProcessColumn::Uss => "USS",
            ProcessColumn::Pss => "PSS",
            ProcessColumn::Swap => "SWAP",
            ProcessColumn::Cpu => "CPU",
        }
    }

    /// Returns the position of this column in the default order.
    pub fn index(self) -> (r: usize)
        ensures
            r == column_index(self),
    {
        match self {
            ProcessColumn::Pid => 0,
            ProcessColumn::Ppid => 1,
            ProcessColumn::Owner => 2,
            ProcessColumn::Thread => 3,
            ProcessColumn::Name => 4,
            ProcessColumn::Command => 5,
            ProcessColumn::Rss => 6,
            ProcessColumn::Uss => 7,
            ProcessColumn::Pss => 8,
            ProcessColumn::Swap => 9,
            ProcessColumn::Cpu => 10,
        }
    }

    /// Returns the column at `index` in the default order.
    pub fn from_index(index: usize) -> (r: ProcessColumn)
        requires
            index < 11,
        ensures
            r == all_columns()[index as int],
    {
        match index {
            0 => ProcessColumn::Pid,
            1 => ProcessColumn::Ppid,
            2 => ProcessColumn::Owner,
            3 => ProcessColumn::Thread,
            4 => ProcessColumn::Name,
            5 => ProcessColumn::Command,
            6 => ProcessColumn::Rss,
            7 => ProcessColumn::Uss,
            8 => ProcessColumn::Pss,
            9 => ProcessColumn::Swap,
            _ => ProcessColumn::Cpu,
        }
    }

    /// Returns the width of this column in the given view.
    pub fn width(self, view_mode: ViewMode) -> (r: u16)
        ensures
            r == column_width_spec(self, view_mode),
    {
        match view_mode {
            ViewMode::Flat => match self {
                ProcessColumn::Pid => 7,
                ProcessColumn::Ppid => 7,
                ProcessColumn::Owner => 12,
                ProcessColumn::Thread => 8,
                ProcessColumn::Name => 24,
                ProcessColumn::Command => 24,
                ProcessColumn::Rss => 12,
                ProcessColumn::Uss => 12,
                ProcessColumn::Pss => 12,
                ProcessColumn::Swap => 12,
                ProcessColumn::Cpu => 8,
            },
            ViewMode::Tree => match self {
                ProcessColumn::Pid => 7,
                ProcessColumn::Ppid => 7,
                ProcessColumn::Owner => 12,
                ProcessColumn::Thread => 8,
                ProcessColumn::Name => 32,
                ProcessColumn::Command => 16,
                ProcessColumn::Rss => 12,
                ProcessColumn::Uss => 12,
                ProcessColumn::Pss => 12,
                ProcessColumn::Swap => 12,
                ProcessColumn::Cpu => 8,
            },
        }
    }

    /// Whether the column can be hidden: every column but the name.
    pub fn is_toggleable(self) -> (r: bool)
        ensures
            r == (self != ProcessColumn::Name),
    {
        self != ProcessColumn::Name
    }

    /// Returns the column that shows the given sort key.
    pub fn from_sort_key(sort_key: SortKey) -> (r: Option<ProcessColumn>)
        ensures
            r == Some(column_of_sort_key(sort_key)),
    {
        match sort_key {
            SortKey::Pid => Some(ProcessColumn::Pid),
            SortKey::Ppid => Some(ProcessColumn::Ppid),
            SortKey::Owner => Some(ProcessColumn::Owner),
            SortKey::Name => Some(ProcessColumn::Name),
            SortKey::Command => Some(ProcessColumn::Command),
            SortKey::Rss => Some(ProcessColumn::Rss),
            SortKey::Swap => Some(ProcessColumn::Swap),
            SortKey::Cpu => Some(ProcessColumn::Cpu),
        }
    }
}

/// Copies a string slice into an owned `String`.
pub fn owned_string(s: &str) -> (r: String)
    ensures
        r@ == s@,
{
    let mut r = String::new();
    push_str(&mut r, s);
    r
}

/// The views of a list of strings.
pub open spec fn string_views(v: Seq<String>) -> Seq<Seq<char>> {
    v.map_values(|s: String| s@)
}

/// The identifiers of the given columns.
pub open spec fn column_ids(cols: Seq<ProcessColumn>) -> Seq<Seq<char>> {
    cols.map_values(|c: ProcessColumn| column_id_spec(c))
}

/// Column settings as they are stored in the configuration file.
#[derive(Debug, Clone)]
pub struct ColumnConfigV1 {
    pub version: u8,
    pub order: Vec<String>,
    pub hidden: Vec<String>,
}

impl Default for ColumnConfigV1 {
    /// Version 1, every column in the default order, none hidden.
    fn default() -> (r: Self)
        ensures
            r.version == 1,
            string_views(r.order@) == column_ids(all_columns()),
            r.hidden@.len() == 0,
    {
        let mut order: Vec<String> = Vec::new();
        let mut k: usize = 0;
        while k < 11
            invariant
                k <= 11,
                order@.len() == k,
                string_views(order@) == column_ids(all_columns().take(k as int)),
            decreases 11 - k,
        {
            let c = ProcessColumn::from_index(k);
            let ghost before = order@;
            let s = owned_string(c.id());
            order.push(s);
            proof {
                lemma_ids_push(all_columns().take(k as int), before, s, c);
                assert(all_columns().take(k as int).push(c) =~= all_columns().take(k + 1));
            }
            k = k + 1;
        }
        assert(all_columns().take(11) =~= all_columns());
        ColumnConfigV1 { version: 1, order, hidden: Vec::new() }
    }
}

proof fn lemma_ids_push(a: Seq<ProcessColumn>, v: Seq<String>, s: String, c: ProcessColumn)
    requires
        string_views(v) == column_ids(a),
        s@ == column_id_spec(c),
    ensures
        string_views(v.push(s)) == column_ids(a.push(c)),
{
    assert(v.len() == string_views(v).len());
    assert forall|j: int| 0 <= j < v.len() implies string_views(v.push(s))[j] == column_ids(
        a.push(c),
    )[j] by {
        assert(string_views(v)[j] == column_ids(a)[j]);
        assert(v.push(s)[j] == v[j]);
        assert(a.push(c)[j] == a[j]);
    }
    assert(string_views(v.push(s)) =~= column_ids(a.push(c)));
}

/// The known, not yet seen columns named by `ids`, in the order they are
/// named: what the configured order keeps.
pub open spec fn config_order_prefix(ids: Seq<Seq<char>>) -> Seq<ProcessColumn>
    decreases ids.len(),
{
    if ids.len() == 0 {
        Seq::empty()
    } else {
        let p = config_order_prefix(ids.drop_last());
        match column_from_id_spec(ids.last()) {
            Some(c) => if p.contains(c) {
                p
            } else {
                p.push(c)
            },
            None => p,
        }
    }
}

/// The columns among `cols` that `prefix` does not hold, in their order.
pub open spec fn missing_columns(cols: Seq<ProcessColumn>, prefix: Seq<ProcessColumn>) -> Seq<
    ProcessColumn,
>
    decreases cols.len(),
{
    if cols.len() == 0 {
        Seq::empty()
    } else {
        let m = missing_columns(cols.drop_last(), prefix);
        if prefix.contains(cols.last()) {
            m
        } else {
            m.push(cols.last())
        }
    }
}

/// The column order a configuration gives: its known columns without
/// repeats, then every other column in the default order.
pub open spec fn config_order(ids: Seq<Seq<char>>) -> Seq<ProcessColumn> {
    config_order_prefix(ids) + missing_columns(all_columns(), config_order_prefix(ids))
}

/// Whether one of `ids` names the column `c`.
pub open spec fn names_column(ids: Seq<Seq<char>>, c: ProcessColumn) -> bool {
    exists|j: int| 0 <= j < ids.len() && column_from_id_spec(#[trigger] ids[j]) == Some(c)
}

/// The visibility a configuration gives: the name column is always shown,
/// every other column is shown unless the hidden list names it.
pub open spec fn config_visible(hidden: Seq<Seq<char>>) -> Seq<bool> {
    Seq::new(
        11,
        |k: int| all_columns()[k] == ProcessColumn::Name || !names_column(hidden, all_columns()[k]),
    )
}

/// The number of `true` entries.
pub open spec fn count_true(s: Seq<bool>) -> nat
    decreases s.len(),
{
    if s.len() == 0 {
        0
    } else {
        count_true(s.drop_last()) + if s.last() {
            1nat
        } else {
            0nat
        }
    }
}

proof fn lemma_count_true_update(s: Seq<bool>, k: int, v: bool)
    requires
        0 <= k < s.len(),
    ensures
        count_true(s.update(k, v)) + (if s[k] {
            1nat
        } else {
            0nat
        }) == count_true(s) + (if v {
            1nat
        } else {
            0nat
        }),
    decreases s.len(),
{
    if k < s.len() - 1 {
        lemma_count_true_update(s.drop_last(), k, v);
        assert(s.update(k, v).drop_last() =~= s.drop_last().update(k, v));
    } else {
        assert(s.update(k, v).drop_last() =~= s.drop_last());
    }
}

proof fn lemma_count_true_bound(s: Seq<bool>)
    ensures
        count_true(s) <= s.len(),
    decreases s.len(),
{
    if s.len() > 0 {
        lemma_count_true_bound(s.drop_last());
    }
}

proof fn lemma_count_true_pos(s: Seq<bool>, k: int)
    requires
        0 <= k < s.len(),
        s[k],
    ensures
        count_true(s) >= 1,
    decreases s.len(),
{
    if k < s.len() - 1 {
        lemma_count_true_pos(s.drop_last(), k);
    }
}

proof fn lemma_count_true_none(s: Seq<bool>)
    requires
        forall|k: int| 0 <= k < s.len() ==> !#[trigger] s[k],
    ensures
        count_true(s) == 0,
    decreases s.len(),
{
    if s.len() > 0 {
        lemma_count_true_none(s.drop_last());
    }
}

proof fn lemma_count_true_all(s: Seq<bool>)
    requires
        forall|k: int| 0 <= k < s.len() ==> #[trigger] s[k],
    ensures
        count_true(s) == s.len(),
    decreases s.len(),
{
    if s.len() > 0 {
        lemma_count_true_all(s.drop_last());
    }
}

/// The columns whose entry in `visible` is set, in the order of `order`.
pub open spec fn filter_visible(order: Seq<ProcessColumn>, visible: Seq<bool>) -> Seq<ProcessColumn>
    decreases order.len(),
{
    if order.len() == 0 {
        Seq::empty()
    } else {
        let p = filter_visible(order.drop_last(), visible);
        if visible[column_index(order.last())] {
            p.push(order.last())
        } else {
            p
        }
    }
}

/// Whether a column order holds every column exactly once.
pub open spec fn is_full_order(order: Seq<ProcessColumn>) -> bool {
    &&& order.len() == 11
    &&& order.no_duplicates()
    &&& forall|c: ProcessColumn| order.contains(c)
}

/// The ordered, partly hidden set of process table columns.
#[derive(Debug, Clone)]
pub struct ColumnLayout {
    order: Vec<ProcessColumn>,
    visible: [bool; 11],
}

impl ColumnLayout {
    /// The column order.
    pub closed spec fn order(&self) -> Seq<ProcessColumn> {
        self.order@
    }

    /// Whether each column, by default position, is shown.
    pub closed spec fn visible(&self) -> Seq<bool> {
        self.visible@
    }

    /// The layout invariant: every column exactly once, the name shown.
    pub open spec fn wf(&self) -> bool {
        &&& is_full_order(self.order())
        &&& self.visible().len() == 11
        &&& self.visible()[4]
    }

    /// Every column visible, in the default order.
    pub fn new_default() -> (r: Self)
        ensures
            r.wf(),
            r.order() == all_columns(),
            r.visible() == Seq::new(11, |k: int| true),
    {
        let order = vec![
            ProcessColumn::Pid,
            ProcessColumn::Ppid,
            ProcessColumn::Owner,
            ProcessColumn::Thread,
            ProcessColumn::Name,
            ProcessColumn::Command,
            ProcessColumn::Rss,
            ProcessColumn::Uss,
            ProcessColumn::Pss,
            ProcessColumn::Swap,
            ProcessColumn::Cpu,
        ];
        let r = ColumnLayout {
            order,
            visible: [true, true, true, true, true, true, true, true, true, true, true],
        };
        assert(r.order@ =~= all_columns());
        assert(r.visible@ =~= Seq::new(11, |k: int| true));
        proof {
            lemma_all_columns_full();
        }
        r
    }

    /// Checks the layout invariant: every column exactly once, the name
    /// shown.
    pub fn is_well_formed(&self) -> (r: bool)
        ensures
            r == self.wf(),
    {
        if self.order.len() != 11 || !self.visible[4] {
            return false;
        }
        let mut i: usize = 0;
        while i < 11
            invariant
                i <= 11,
                self.order@.len() == 11,
                forall|a: int, b: int| 0 <= a < i && a < b < 11 ==> self.order@[a] != self.order@[b],
            decreases 11 - i,
        {
            let mut j: usize = i + 1;
            while j < 11
                invariant
                    i < j <= 11,
                    self.order@.len() == 11,
                    forall|b: int| i < b < j ==> self.order@[i as int] != self.order@[b],
                decreases 11 - j,
            {
                if self.order[i] == self.order[j] {
                    assert(!self.order@.no_duplicates());
                    return false;
                }
                j = j + 1;
            }
            i = i + 1;
        }
        assert(self.order@.no_duplicates());
        let mut k: usize = 0;
        while k < 11
            invariant
                k <= 11,
                self.order@.len() == 11,
                forall|m: int| 0 <= m < k ==> self.order@.contains(#[trigger] all_columns()[m]),
            decreases 11 - k,
        {
            let c = ProcessColumn::from_index(k);
            let mut found = false;
            let mut p: usize = 0;
            while p < 11
                invariant
                    p <= 11,
                    self.order@.len() == 11,
                    found == exists|q: int| 0 <= q < p && self.order@[q] == c,
                decreases 11 - p,
            {
                if self.order[p] == c {
                    found = true;
                }
                p = p + 1;
            }
            if !found {
                assert(!self.order@.contains(c));
                return false;
            }
            k = k + 1;
        }
        assert forall|c: ProcessColumn| self.order@.contains(c) by {
            lemma_column_index(c);
            assert(all_columns()[column_index(c)] == c);
        }
        true
    }

    /// Returns the columns in their current order.
    pub fn ordered_columns(&self) -> (r: &[ProcessColumn])
        ensures
            r@ == self.order(),
    {
        self.order.as_slice()
    }

    /// Returns the column at `index` in the current order.
    pub fn column_at(&self, index: usize) -> (r: Option<ProcessColumn>)
        ensures
            r == (if index < self.order().len() {
                Some(self.order()[index as int])
            } else {
                None
            }),
    {
        if index < self.order.len() {
            Some(self.order[index])
        } else {
            None
        }
    }

    /// Whether `column` is shown.
    pub fn is_visible(&self, column: ProcessColumn) -> (r: bool)
        ensures
            r == self.visible()[column_index(column)],
    {
        self.visible[column.index()]
    }

    /// Returns the shown columns in their current order.
    pub fn visible_columns(&self) -> (r: Vec<ProcessColumn>)
        ensures
            r@ == filter_visible(self.order(), self.visible()),
    {
        let mut r: Vec<ProcessColumn> = Vec::new();
        let mut i: usize = 0;
        while i < self.order.len()
            invariant
                i <= self.order@.len(),
                r@ == filter_visible(self.order@.take(i as int), self.visible@),
            decreases self.order@.len() - i,
        {
            let c = self.order[i];
            assert(self.order@.take(i + 1).drop_last() =~= self.order@.take(i as int));
            if self.visible[c.index()] {
                r.push(c);
            }
            i = i + 1;
        }
        assert(self.order@.take(self.order@.len() as int) =~= self.order@);
        r
    }

    /// Returns the number of shown columns.
    pub fn visible_count(&self) -> (r: usize)
        ensures
            r == count_true(self.visible()),
    {
        count_visible(&self.visible)
    }

    /// Shows a hidden column or hides a shown one; the name column, and the
    /// last shown column, stay shown.  Returns whether anything changed.
    pub fn toggle(&mut self, column: ProcessColumn) -> (r: bool)
        requires
            old(self).wf(),
        ensures
            final(self).wf(),
            r == (column != ProcessColumn::Name && !(count_true(old(self).visible()) == 1
                && old(self).visible()[column_index(column)])),
            final(self).order() == old(self).order(),
            final(self).visible() == (if r {
                old(self).visible().update(
                    column_index(column),
                    !old(self).visible()[column_index(column)],
                )
            } else {
                old(self).visible()
            }),
    {
        if !column.is_toggleable() || (self.visible_count() == 1 && self.is_visible(column)) {
            return false;
        }
        let index = column.index();
        let v = !self.visible[index];
        self.visible[index] = v;
        assert(self.visible@ =~= old(self).visible@.update(index as int, v));
        true
    }

    /// Swaps the column at `index` with the one `delta` places away; returns
    /// the new position, or `None` (and changes nothing) when that place is
    /// outside the order.
    pub fn move_in_order(&mut self, index: usize, delta: isize) -> (r: Option<usize>)
        requires
            old(self).wf(),
        ensures
            final(self).wf(),
            final(self).visible() == old(self).visible(),
            r == moved_target(index as int, delta as int, old(self).order().len() as int),
            r matches Some(t) ==> t == index + delta && t < old(self).order().len(),
            r is None <==> (index >= old(self).order().len() || index + delta < 0 || index + delta
                >= old(self).order().len()),
            match r {
                Some(t) => final(self).order() == old(self).order().update(
                    index as int,
                    old(self).order()[t as int],
                ).update(t as int, old(self).order()[index as int]),
                None => final(self).order() == old(self).order(),
            },
    {
        let target = if delta < 0 {
            let d = crate::num::unsigned_abs(delta);
            if d > index {
                return None;
            }
            index - d
        } else {
            let d = delta as usize;
            if index > usize::MAX - d {
                return None;
            }
            index + d
        };
        if target >= self.order.len() || index >= self.order.len() {
            return None;
        }
        let a = self.order[index];
        let b = self.order[target];
        self.order.set(index, b);
        self.order.set(target, a);
        proof {
            lemma_swap_full_order(old(self).order@, index as int, target as int);
        }
        Some(target)
    }

    /// Which detailed memory values the shown columns need.
    pub fn detail_request(&self) -> (r: VisibleDetailRequest)
        ensures
            r.uss == self.visible()[7],
            r.pss == self.visible()[8],
    {
        VisibleDetailRequest {
            uss: self.is_visible(ProcessColumn::Uss),
            pss: self.is_visible(ProcessColumn::Pss),
        }
    }

    /// Builds a layout from stored settings: unknown and repeated identifiers
    /// are dropped, missing columns are appended in the default order, and
    /// the name column is always shown.
    pub fn from_config(config: &ColumnConfigV1) -> (r: Self)
        ensures
            r.wf(),
            r.order() == config_order(string_views(config.order@)),
            r.visible() == config_visible(string_views(config.hidden@)),
    {
        let mut layout = ColumnLayout {
            order: Vec::new(),
            visible: [true, true, true, true, true, true, true, true, true, true, true],
        };
        layout.apply_config(config);
        layout
    }

    /// The stored form of this layout: the order and the hidden columns by
    /// identifier.
    pub fn to_config_v1(&self) -> (r: ColumnConfigV1)
        ensures
            r.version == 1,
            string_views(r.order@) == column_ids(self.order()),
            string_views(r.hidden@) == column_ids(
                all_columns().filter(|c: ProcessColumn| !self.visible()[column_index(c)]),
            ),
    {
        let mut order: Vec<String> = Vec::new();
        let mut i: usize = 0;
        while i < self.order.len()
            invariant
                i <= self.order@.len(),
                order@.len() == i,
                string_views(order@) == column_ids(self.order@.take(i as int)),
            decreases self.order@.len() - i,
        {
            let ghost before = order@;
            let s = owned_string(self.order[i].id());
            order.push(s);
            proof {
                lemma_ids_push(self.order@.take(i as int), before, s, self.order@[i as int]);
                assert(self.order@.take(i as int).push(self.order@[i as int]) =~= self.order@.take(
                    i + 1,
                ));
            }
            i = i + 1;
        }
        assert(self.order@.take(self.order@.len() as int) =~= self.order@);
        let mut hidden: Vec<String> = Vec::new();
        let mut k: usize = 0;
        let ghost pred = |c: ProcessColumn| !self.visible@[column_index(c)];
        while k < 11
            invariant
                k <= 11,
                pred == (|c: ProcessColumn| !self.visible@[column_index(c)]),
                hidden@.len() == all_columns().take(k as int).filter(pred).len(),
                string_views(hidden@) == column_ids(all_columns().take(k as int).filter(pred)),
            decreases 11 - k,
        {
            let c = ProcessColumn::from_index(k);
            proof {
                lemma_all_columns_index(k as int);
                reveal_with_fuel(Seq::<_>::filter, 1);
                assert(all_columns().take(k + 1).drop_last() =~= all_columns().take(k as int));
            }
            let ghost before = hidden@;
            if !self.visible[k] {
                let s = owned_string(c.id());
                hidden.push(s);
                proof {
                    assert(all_columns().take(k + 1).filter(pred) =~= all_columns().take(
                        k as int,
                    ).filter(pred).push(c));
                    lemma_ids_push(all_columns().take(k as int).filter(pred), before, s, c);
                }
            } else {
                proof {
                    assert(all_columns().take(k + 1).filter(pred) =~= all_columns().take(
                        k as int,
                    ).filter(pred));
                }
            }
            k = k + 1;
        }
        assert(all_columns().take(11) =~= all_columns());
        ColumnConfigV1 { version: 1, order, hidden }
    }

    fn apply_config(&mut self, config: &ColumnConfigV1)
        requires
            old(self).order@.len() == 0,
        ensures
            final(self).wf(),
            final(self).order() == config_order(string_views(config.order@)),
            final(self).visible() == config_visible(string_views(config.hidden@)),
    {
        let ghost ids = string_views(config.order@);
        // Order: keep only known columns, remove duplicates, then append missing defaults.
        let mut seen: [bool; 11] = [false, false, false, false, false, false, false, false, false, false, false];
        proof {
            lemma_count_true_none(seen@);
        }
        let mut i: usize = 0;
        while i < config.order.len()
            invariant
                i <= config.order@.len(),
                ids == string_views(config.order@),
                self.order@ == config_order_prefix(ids.take(i as int)),
                self.order@.no_duplicates(),
                self.order@.len() == count_true(seen@),
                forall|k: int| 0 <= k < 11 ==> #[trigger] seen@[k] == self.order@.contains(all_columns()[k]),
            decreases config.order@.len() - i,
        {
            proof {
                assert(ids.take(i + 1).drop_last() =~= ids.take(i as int));
                assert(ids.take(i + 1).last() == config.order@[i as int]@);
            }
            match ProcessColumn::try_from_id(config.order[i].as_str()) {
                None => {},
                Some(column) => {
                    let idx = column.index();
                    proof {
                        lemma_column_index(column);
                    }
                    if !seen[idx] {
                        let ghost before = self.order@;
                        let ghost seen_before = seen@;
                        seen[idx] = true;
                        self.order.push(column);
                        proof {
                            assert(seen@ =~= seen_before.update(idx as int, true));
                            lemma_count_true_update(seen_before, idx as int, true);
                            assert forall|k: int| 0 <= k < 11 implies #[trigger] seen@[k]
                                == self.order@.contains(all_columns()[k]) by {
                                if self.order@.contains(all_columns()[k]) {
                                    let j = choose|j: int|
                                        0 <= j < self.order@.len() && self.order@[j]
                                            == all_columns()[k];
                                    if j < before.len() {
                                        assert(before.contains(all_columns()[k]));
                                    } else {
                                        lemma_all_columns_index(k);
                                    }
                                }
                                if k == idx {
                                    assert(self.order@[before.len() as int] == column);
                                } else if seen_before[k] {
                                    let j = choose|j: int|
                                        0 <= j < before.len() && before[j] == all_columns()[k];
                                    assert(self.order@[j] == all_columns()[k]);
                                }
                            }
                            assert(self.order@.no_duplicates()) by {
                                assert(!before.contains(column));
                            }
                        }
                    } else {
                        proof {
                            assert(self.order@.contains(column));
                        }
                    }
                },
            }
            i = i + 1;
        }
        assert(ids.take(ids.len() as int) =~= ids);
        let ghost prefix = self.order@;
        let mut k: usize = 0;
        while k < 11
            invariant
                k <= 11,
                prefix == config_order_prefix(ids),
                self.order@ == prefix + missing_columns(all_columns().take(k as int), prefix),
                self.order@.no_duplicates(),
                self.order@.len() == count_true(seen@),
                forall|j: int| 0 <= j < 11 ==> #[trigger] seen@[j] == self.order@.contains(all_columns()[j]),
                forall|j: int| 0 <= j < 11 ==> (prefix.contains(all_columns()[j]) ==> #[trigger] seen@[j]),
                forall|j: int| 0 <= j < k ==> #[trigger] seen@[j],
            decreases 11 - k,
        {
            let ghost before = self.order@;
            let ghost seen_before = seen@;
            proof {
                assert(all_columns().take(k + 1).drop_last() =~= all_columns().take(k as int));
                assert(all_columns().take(k + 1).last() == all_columns()[k as int]);
            }
            if !seen[k] {
                let c = ProcessColumn::from_index(k);
                seen[k] = true;
                self.order.push(c);
                proof {
                    assert(!prefix.contains(c));
                    assert(self.order@ =~= prefix + missing_columns(all_columns().take(k + 1), prefix));
                    assert(seen@ =~= seen_before.update(k as int, true));
                    lemma_count_true_update(seen_before, k as int, true);
                    assert forall|j: int| 0 <= j < 11 implies #[trigger] seen@[j]
                        == self.order@.contains(all_columns()[j]) by {
                        if self.order@.contains(all_columns()[j]) {
                            let jj = choose|jj: int|
                                0 <= jj < self.order@.len() && self.order@[jj] == all_columns()[j];
                            if jj < before.len() {
                                assert(before.contains(all_columns()[j]));
                            } else {
                                lemma_all_columns_index(j);
                                lemma_all_columns_index(k as int);
                            }
                        }
                        if j == k {
                            assert(self.order@[before.len() as int] == c);
                        } else if seen_before[j] {
                            let jj = choose|jj: int|
                                0 <= jj < before.len() && before[jj] == all_columns()[j];
                            assert(self.order@[jj] == all_columns()[j]);
                        }
                    }
                    assert(!before.contains(c));
                }
            } else {
                proof {
                    assert(prefix.contains(all_columns()[k as int])) by {
                        assert(before.contains(all_columns()[k as int]));
                        let jj = choose|jj: int|
                            0 <= jj < before.len() && before[jj] == all_columns()[k as int];
                        if jj >= prefix.len() {
                            lemma_missing_columns_not_in_prefix(
                                all_columns().take(k as int),
                                prefix,
                                jj - prefix.len(),
                            );
                            lemma_missing_columns_from(all_columns().take(k as int), prefix, jj - prefix.len());
                            let m = choose|m: int| 0 <= m < k && all_columns()[m] == before[jj];
                            lemma_all_columns_index(m);
                            lemma_all_columns_index(k as int);
                        }
                    }
                    assert(self.order@ =~= prefix + missing_columns(all_columns().take(k + 1), prefix));
                }
            }
            k = k + 1;
        }
        assert(all_columns().take(11) =~= all_columns());
        proof {
            lemma_count_true_all(seen@);
            assert forall|c: ProcessColumn| self.order@.contains(c) by {
                lemma_column_index(c);
                assert(seen@[column_index(c)]);
            }
        }
        // Visibility: start from all visible, then apply the hidden list.
        let ghost hidden_ids = string_views(config.hidden@);
        self.visible = [true, true, true, true, true, true, true, true, true, true, true];
        let mut h: usize = 0;
        while h < config.hidden.len()
            invariant
                h <= config.hidden@.len(),
                hidden_ids == string_views(config.hidden@),
                is_full_order(self.order@),
                self.order@ == config_order(ids),
                forall|j: int| 0 <= j < 11 ==> #[trigger] self.visible@[j] == (all_columns()[j]
                    == ProcessColumn::Name || !names_column(hidden_ids.take(h as int), all_columns()[j])),
            decreases config.hidden@.len() - h,
        {
            let ghost vis_before = self.visible@;
            match ProcessColumn::try_from_id(config.hidden[h].as_str()) {
                None => {},
                Some(column) => {
                    if column != ProcessColumn::Name {
                        let idx = column.index();
                        self.visible[idx] = false;
                    }
                },
            }
            proof {
                let t0 = hidden_ids.take(h as int);
                let t1 = hidden_ids.take(h + 1);
                assert(t1[h as int] == config.hidden@[h as int]@);
                assert forall|j: int| 0 <= j < 11 implies #[trigger] self.visible@[j] == (
                all_columns()[j] == ProcessColumn::Name || !names_column(t1, all_columns()[j])) by {
                    lemma_all_columns_index(j);
                    if names_column(t0, all_columns()[j]) {
                        let q = choose|q: int| 0 <= q < t0.len() && column_from_id_spec(#[trigger] t0[q]) == Some(all_columns()[j]);
                        assert(t1[q] == t0[q]);
                    }
                    if names_column(t1, all_columns()[j]) {
                        let q = choose|q: int| 0 <= q < t1.len() && column_from_id_spec(#[trigger] t1[q]) == Some(all_columns()[j]);
                        if q < h {
                            assert(t0[q] == t1[q]);
                        }
                    }
                }
            }
            h = h + 1;
        }
        // Enforce invariants.
        self.visible[4] = true;
        proof {
            lemma_count_true_pos(self.visible@, 4);
        }
        if count_visible(&self.visible) == 0 {
            self.visible[4] = true;
            self.visible[6] = true;
        }
        assert(hidden_ids.take(hidden_ids.len() as int) =~= hidden_ids);
        assert(self.visible@ =~= config_visible(hidden_ids));
    }
}

/// The position `delta` places away from `index`, if it is in `0..len`.
pub open spec fn moved_target(index: int, delta: int, len: int) -> Option<usize> {
    if 0 <= index + delta < len && index < len {
        Some((index + delta) as usize)
    } else {
        None
    }
}

fn count_visible(visible: &[bool; 11]) -> (r: usize)
    ensures
        r == count_true(visible@),
{
    let mut n: usize = 0;
    let mut k: usize = 0;
    while k < 11
        invariant
            k <= 11,
            n == count_true(visible@.take(k as int)),
            n <= k,
        decreases 11 - k,
    {
        assert(visible@.take(k + 1).drop_last() =~= visible@.take(k as int));
        if visible[k] {
            n = n + 1;
        }
        k = k + 1;
    }
    assert(visible@.take(11) =~= visible@);
    n
}

proof fn lemma_all_columns_full()
    ensures
        is_full_order(all_columns()),
{
    assert forall|c: ProcessColumn| all_columns().contains(c) by {
        lemma_column_index(c);
    }
    assert forall|i: int, j: int|
        0 <= i < 11 && 0 <= j < 11 && i != j implies all_columns()[i] != all_columns()[j] by {
        lemma_all_columns_index(i);
        lemma_all_columns_index(j);
    }
}

proof fn lemma_swap_full_order(s: Seq<ProcessColumn>, i: int, j: int)
    requires
        is_full_order(s),
        0 <= i < s.len(),
        0 <= j < s.len(),
    ensures
        is_full_order(s.update(i, s[j]).update(j, s[i])),
{
    let t = s.update(i, s[j]).update(j, s[i]);
    assert forall|c: ProcessColumn| t.contains(c) by {
        assert(s.contains(c));
        let k = choose|k: int| 0 <= k < s.len() && s[k] == c;
        if k == i {
            assert(t[j] == c);
        } else if k == j {
            assert(t[i] == c);
        } else {
            assert(t[k] == c);
        }
    }
    assert forall|a: int, b: int| 0 <= a < t.len() && 0 <= b < t.len() && a != b implies t[a]
        != t[b] by {
        let pa = if a == i {
            j
        } else if a == j {
            i
        } else {
            a
        };
        let pb = if b == i {
            j
        } else if b == j {
            i
        } else {
            b
        };
        assert(t[a] == s[pa]);
        assert(t[b] == s[pb]);
    }
}

proof fn lemma_missing_columns_not_in_prefix(cols: Seq<ProcessColumn>, prefix: Seq<ProcessColumn>, m: int)
    requires
        0 <= m < missing_columns(cols, prefix).len(),
    ensures
        !prefix.contains(missing_columns(cols, prefix)[m]),
    decreases cols.len(),
{
    if cols.len() > 0 {
        let p = missing_columns(cols.drop_last(), prefix);
        if m < p.len() {
            lemma_missing_columns_not_in_prefix(cols.drop_last(), prefix, m);
        }
    }
}

proof fn lemma_missing_columns_from(cols: Seq<ProcessColumn>, prefix: Seq<ProcessColumn>, m: int)
    requires
        0 <= m < missing_columns(cols, prefix).len(),
    ensures
        exists|q: int| 0 <= q < cols.len() && cols[q] == missing_columns(cols, prefix)[m],
    decreases cols.len(),
{
    if cols.len() > 0 {
        let p = missing_columns(cols.drop_last(), prefix);
        if m < p.len() {
            lemma_missing_columns_from(cols.drop_last(), prefix, m);
            let q = choose|q: int| 0 <= q < cols.drop_last().len() && cols.drop_last()[q] == p[m];
            assert(cols[q] == p[m]);
        } else {
            assert(cols[cols.len() - 1] == missing_columns(cols, prefix)[m]);
        }
    }
}

proof fn lemma_prefix_of_full_order(order: Seq<ProcessColumn>, i: int)
    requires
        order.no_duplicates(),
        0 <= i <= order.len(),
    ensures
        config_order_prefix(column_ids(order).take(i)) == order.take(i),
    decreases i,
{
    if i > 0 {
        lemma_prefix_of_full_order(order, i - 1);
        let ids = column_ids(order).take(i);
        assert(ids.drop_last() =~= column_ids(order).take(i - 1));
        lemma_column_id_roundtrip(order[i - 1]);
        assert(ids.last() == column_id_spec(order[i - 1]));
        assert(!order.take(i - 1).contains(order[i - 1]));
        assert(order.take(i - 1).push(order[i - 1]) =~= order.take(i));
    }
}

proof fn lemma_missing_of_full(cols: Seq<ProcessColumn>, order: Seq<ProcessColumn>)
    requires
        forall|c: ProcessColumn| order.contains(c),
    ensures
        missing_columns(cols, order) == Seq::<ProcessColumn>::empty(),
    decreases cols.len(),
{
    if cols.len() > 0 {
        lemma_missing_of_full(cols.drop_last(), order);
        assert(order.contains(cols.last()));
    }
}

/// Storing a well-formed layout and loading it back gives the same layout:
/// the same column order and the same visibility.
pub proof fn lemma_config_roundtrip(layout: ColumnLayout)
    requires
        layout.wf(),
    ensures
        config_order(column_ids(layout.order())) == layout.order(),
        config_visible(
            column_ids(all_columns().filter(|c: ProcessColumn| !layout.visible()[column_index(c)])),
        ) == layout.visible(),
{
    let order = layout.order();
    lemma_prefix_of_full_order(order, order.len() as int);
    assert(column_ids(order).take(order.len() as int) =~= column_ids(order));
    assert(order.take(order.len() as int) =~= order);
    lemma_missing_of_full(all_columns(), order);
    assert(config_order(column_ids(order)) =~= order);
    let pred = |c: ProcessColumn| !layout.visible()[column_index(c)];
    let hidden = column_ids(all_columns().filter(pred));
    assert forall|k: int| 0 <= k < 11 implies #[trigger] config_visible(hidden)[k]
        == layout.visible()[k] by {
        let c = all_columns()[k];
        lemma_all_columns_index(k);
        if names_column(hidden, c) {
            let j = choose|j: int| 0 <= j < hidden.len() && column_from_id_spec(#[trigger] hidden[j]) == Some(c);
            let f = all_columns().filter(pred);
            lemma_column_id_roundtrip(f[j]);
            assert(hidden[j] == column_id_spec(f[j]));
            assert(f[j] == c);
            assert(pred(f[j])) by {
                all_columns().lemma_filter_pred(pred, j);
            }
        } else if !layout.visible()[k] {
            assert(pred(c));
            assert(all_columns().contains(c));
            all_columns().lemma_filter_contains(pred, k);
            assert(all_columns().filter(pred).contains(c));
            let j = choose|j: int| 0 <= j < all_columns().filter(pred).len() && all_columns().filter(pred)[j] == c;
            lemma_column_id_roundtrip(c);
            assert(column_from_id_spec(hidden[j]) == Some(c));
        }
    }
    assert(config_visible(hidden) =~= layout.visible());
}

/// The older, array-backed column settings of the table.
#[derive(Debug, Clone)]
pub struct ColumnVisibility {
    order: [ProcessColumn; 11],
    visible: [bool; 11],
}

impl ColumnVisibility {
    /// The column order.
    pub closed spec fn order(&self) -> Seq<ProcessColumn> {
        self.order@
    }

    /// Whether each column, by default position, is shown.
    pub closed spec fn visible(&self) -> Seq<bool> {
        self.visible@
    }

    /// The invariant: every column exactly once, the name shown.
    pub open spec fn wf(&self) -> bool {
        &&& is_full_order(self.order())
        &&& self.visible().len() == 11
        &&& self.visible()[4]
    }

    /// Every column visible, in the default order.
    pub fn new() -> (r: Self)
        ensures
            r.wf(),
            r.order() == all_columns(),
            r.visible() == Seq::new(11, |k: int| true),
    {
        let r = ColumnVisibility {
            order: [
                ProcessColumn::Pid,
                ProcessColumn::Ppid,
                ProcessColumn::Owner,
                ProcessColumn::Thread,
                ProcessColumn::Name,
                ProcessColumn::Command,
                ProcessColumn::Rss,
                ProcessColumn::Uss,
                ProcessColumn::Pss,
                ProcessColumn::Swap,
                ProcessColumn::Cpu,
            ],
            visible: [true, true, true, true, true, true, true, true, true, true, true],
        };
        assert(r.order@ =~= all_columns());
        assert(r.visible@ =~= Seq::new(11, |k: int| true));
        proof {
            lemma_all_columns_full();
        }
        r
    }

    /// Whether `column` is shown.
    pub fn is_visible(&self, column: ProcessColumn) -> (r: bool)
        ensures
            r == self.visible()[column_index(column)],
    {
        self.visible[column.index()]
    }

    /// Returns the columns in their current order.
    pub fn ordered_columns(&self) -> (r: &[ProcessColumn; 11])
        ensures
            r@ == self.order(),
    {
        &self.order
    }

    /// Returns the shown columns in their current order.
    pub fn visible_columns(&self) -> (r: Vec<ProcessColumn>)
        ensures
            r@ == filter_visible(self.order(), self.visible()),
    {
        let mut r: Vec<ProcessColumn> = Vec::new();
        let mut i: usize = 0;
        while i < 11
            invariant
                i <= 11,
                r@ == filter_visible(self.order@.take(i as int), self.visible@),
            decreases 11 - i,
        {
            let c = self.order[i];
            assert(self.order@.take(i + 1).drop_last() =~= self.order@.take(i as int));
            if self.visible[c.index()] {
                r.push(c);
            }
            i = i + 1;
        }
        assert(self.order@.take(11) =~= self.order@);
        r
    }

    /// Returns the column at `index` in the current order.
    pub fn column_at(&self, index: usize) -> (r: Option<ProcessColumn>)
        ensures
            r == (if index < 11 {
                Some(self.order()[index as int])
            } else {
                None
            }),
    {
        if index < 11 {
            Some(self.order[index])
        } else {
            None
        }
    }

    /// Shows a hidden column or hides a shown one; the name column, and the
    /// last shown column, stay shown.  Returns whether anything changed.
    pub fn toggle(&mut self, column: ProcessColumn) -> (r: bool)
        requires
            old(self).wf(),
        ensures
            final(self).wf(),
            r == (column != ProcessColumn::Name && !(count_true(old(self).visible()) == 1
                && old(self).visible()[column_index(column)])),
            final(self).order() == old(self).order(),
            final(self).visible() == (if r {
                old(self).visible().update(
                    column_index(column),
                    !old(self).visible()[column_index(column)],
                )
            } else {
                old(self).visible()
            }),
    {
        if !column.is_toggleable() || self.visible_count() == 1 && self.is_visible(column) {
            return false;
        }
        let index = column.index();
        let v = !self.visible[index];
        self.visible[index] = v;
        assert(self.visible@ =~= old(self).visible@.update(index as int, v));
        true
    }

    /// Returns the number of shown columns.
    pub fn visible_count(&self) -> (r: usize)
        ensures
            r == count_true(self.visible()),
    {
        count_visible(&self.visible)
    }

    /// Swaps the column at `index` with the one `delta` places away; returns
    /// the new position, or `None` (and changes nothing) when that place is
    /// outside the order.
    pub fn move_column(&mut self, index: usize, delta: isize) -> (r: Option<usize>)
        requires
            old(self).wf(),
        ensures
            final(self).wf(),
            final(self).visible() == old(self).visible(),
            r == moved_target(index as int, delta as int, 11),
            match r {
                Some(t) => final(self).order() == old(self).order().update(
                    index as int,
                    old(self).order()[t as int],
                ).update(t as int, old(self).order()[index as int]),
                None => final(self).order() == old(self).order(),
            },
    {
        let target = if delta < 0 {
            let d = crate::num::unsigned_abs(delta);
            if d > index {
                return None;
            }
            index - d
        } else {
            let d = delta as usize;
            if index > usize::MAX - d {
                return None;
            }
            index + d
        };
        if target >= 11 || index >= 11 {
            return None;
        }
        let a = self.order[index];
        let b = self.order[target];
        self.order[index] = b;
        self.order[target] = a;
        proof {
            lemma_swap_full_order(old(self).order@, index as int, target as int);
            assert(self.order@ =~= old(self).order@.update(index as int, b).update(target as int, a));
        }
        Some(target)
    }
}

/// The columns the process table shows, in order.
pub fn process_table_columns(visibility: &ColumnVisibility) -> (r: Vec<ProcessColumn>)
    ensures
        r@ == filter_visible(visibility.order(), visibility.visible()),
{
    visibility.visible_columns()
}

/// Which detailed memory values the shown columns need.
pub fn process_table_detail_request(visibility: &ColumnVisibility) -> (r: VisibleDetailRequest)
    ensures
        r.uss == visibility.visible()[7],
        r.pss == visibility.visible()[8],
{
    VisibleDetailRequest {
        uss: visibility.is_visible(ProcessColumn::Uss),
        pss: visibility.is_visible(ProcessColumn::Pss),
    }
}

} // verus!
