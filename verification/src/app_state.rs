//! The application state: the latest snapshot, the table view, the tree,
//! the overlays, and how each key, click and refresh changes them.
use crate::collector::{
    CollectorError, CpuSample, DetailedMemorySample, SystemCollector, VisibleDetailRequest,
};
use crate::columns::ColumnLayout;
use crate::filter::{FilterModalState, ProcessFilter};
use crate::history::HistoryBuffer;
use crate::navigation::Rect;
use crate::owners::OwnerNameCache;
use crate::snapshot::{
    empty_snapshot, same_row, visible_swap_spec, HistoryPoint, ProcessRow, Snapshot, SortDirection,
    SortKey, SortState,
};
use crate::tree::{
    ancestor_chain, build_process_tree_state, chain_ends, is_tree_state, pids_at,
    rows_view, selected_tree_visible_index, ProcessTreeState, TreeRow,
};
use crate::sort::{is_sorted_table, sort_processes};
use crate::filter::{
    cycled, filter_rows, matching_spec, modal_error, modal_predicates, FilterRow,
    MetricFilterField, MetricFilterOperator, MetricFilterValue, try_build_filter_from_modal,
    uses_metric,
};
use crate::input::{
    key_command, key_command_spec, moved_index, moved_index_spec, sort_key_index, AppCommand,
    KeyAction, KeyEvent, MouseEvent, MouseEventKind,
};
use crate::columns::ProcessColumn;
use crate::navigation::{boundary_selection, is_inside_table, move_visible_index, table_hit_test};
use crate::text::{chars_of, push_char, string_from_chars};
use crate::view::ViewMode;
use std::collections::HashMap;
use vstd::prelude::*;

verus! {

broadcast use vstd::std_specs::hash::group_hash_axioms;

/// How many samples the history charts keep.
pub const HISTORY_CAPACITY: usize = 180;

/// One sample of the process monitor.
#[derive(Debug, Clone, Copy, PartialEq, Eq, Structural)]
pub struct ProcessMonitorSample {
    pub rss_bytes: u64,
    pub uss_bytes: Option<u64>,
    pub pss_bytes: Option<u64>,
    pub swap_bytes: u64,
    /// CPU percentage as its order key.
    pub cpu_percent: u32,
    pub threads: u64,
}

/// The monitor sample of a row.
pub open spec fn sample_of(row: ProcessRow) -> ProcessMonitorSample {
    ProcessMonitorSample {
        rss_bytes: row.rss_bytes,
        uss_bytes: row.uss_bytes,
        pss_bytes: row.pss_bytes,
        swap_bytes: visible_swap_spec(row),
        cpu_percent: row.cpu_percent,
        threads: row.threads,
    }
}

impl ProcessMonitorSample {
    /// The monitor sample of a row.
    pub fn from_row(row: &ProcessRow) -> (r: Self)
        ensures
            r == sample_of(*row),
    {
        ProcessMonitorSample {
            rss_bytes: row.rss_bytes,
            uss_bytes: row.uss_bytes,
            pss_bytes: row.pss_bytes,
            swap_bytes: row.visible_swap_bytes(),
            cpu_percent: row.cpu_percent,
            threads: row.threads,
        }
    }
}

/// The process monitor: one process, its latest sample and its history.
#[derive(Debug)]
pub struct ProcessMonitorState {
    pub pid: i32,
    pub name: String,
    pub command: String,
    pub latest: ProcessMonitorSample,
    pub history: HistoryBuffer<ProcessMonitorSample>,
    /// Whether the process was missing from the last snapshot.
    pub missing: bool,
}

/// The chart points of the known values among the first `n` samples: each
/// known value with its sample position.
pub open spec fn known_points(values: Seq<Option<u64>>, n: int) -> Seq<(usize, u64)>
    decreases n,
{
    if n <= 0 {
        Seq::empty()
    } else {
        known_points(values, n - 1) + match values[n - 1] {
            Some(v) => seq![((n - 1) as usize, v)],
            None => Seq::empty(),
        }
    }
}

/// The USS values of the samples, or their PSS values.
pub open spec fn sample_values(samples: Seq<ProcessMonitorSample>, uss: bool) -> Seq<Option<u64>> {
    samples.map_values(
        |s: ProcessMonitorSample|
            if uss {
                s.uss_bytes
            } else {
                s.pss_bytes
            },
    )
}

impl ProcessMonitorState {
    /// The chart points of the known USS values (`uss`) or PSS values of
    /// the samples, oldest first.
    pub fn detail_points(&self, uss: bool) -> (r: Vec<(usize, u64)>)
        ensures
            r@ == known_points(sample_values(self.history@, uss), self.history@.len() as int),
    {
        let n = self.history.len();
        let ghost values = sample_values(self.history@, uss);
        let mut r: Vec<(usize, u64)> = Vec::new();
        let mut i: usize = 0;
        while i < n
            invariant
                i <= n,
                n == self.history@.len(),
                values == sample_values(self.history@, uss),
                r@ == known_points(values, i as int),
            decreases n - i,
        {
            let value = match self.history.get(i) {
                Some(sample) => if uss {
                    sample.uss_bytes
                } else {
                    sample.pss_bytes
                },
                None => None,
            };
            match value {
                Some(v) => r.push((i, v)),
                None => {},
            }
            assert(r@ == known_points(values, i + 1));
            i = i + 1;
        }
        r
    }

    /// A monitor of `row`, its history holding the one sample of the row.
    pub fn new(row: &ProcessRow, capacity: usize) -> (r: Self)
        ensures
            r.pid == row.pid,
            r.name@ == row.name@,
            r.command@ == row.command@,
            r.latest == sample_of(*row),
            r.history@ == crate::history::pushed(Seq::empty(), capacity as nat, sample_of(*row)),
            r.history.cap() == capacity,
            !r.missing,
    {
        let latest = ProcessMonitorSample::from_row(row);
        let mut history = HistoryBuffer::new(capacity);
        history.push(latest);
        ProcessMonitorState {
            pid: row.pid,
            name: crate::columns::owned_string(row.name.as_str()),
            command: crate::columns::owned_string(row.command.as_str()),
            latest,
            history,
            missing: false,
        }
    }

    /// Records the current values of the monitored process.
    pub fn record(&mut self, row: &ProcessRow)
        ensures
            final(self).pid == old(self).pid,
            final(self).name@ == row.name@,
            final(self).command@ == row.command@,
            final(self).latest == sample_of(*row),
            final(self).history@ == crate::history::pushed(
                old(self).history@,
                old(self).history.cap(),
                sample_of(*row),
            ),
            final(self).history.cap() == old(self).history.cap(),
            !final(self).missing,
    {
        let sample = ProcessMonitorSample::from_row(row);
        self.name = crate::columns::owned_string(row.name.as_str());
        self.command = crate::columns::owned_string(row.command.as_str());
        self.latest = sample;
        self.history.push(sample);
        self.missing = false;
    }

    /// Marks the monitored process as missing; its samples stay.
    pub fn mark_missing(&mut self)
        ensures
            final(self).missing,
            final(self).pid == old(self).pid,
            final(self).latest == old(self).latest,
            final(self).history@ == old(self).history@,
    {
        self.missing = true;
    }
}

/// Data captured from the system and derived from refresh cycles.
pub struct AppDataState {
    pub snapshot: Snapshot,
    pub rss_history: HistoryBuffer<u64>,
    pub swap_history: HistoryBuffer<u64>,
    pub process_monitor: Option<ProcessMonitorState>,
    pub previous_cpu: HashMap<i32, CpuSample>,
    pub last_error: Option<CollectorError>,
}

/// The data other than the rows of the snapshot is the same.
pub open spec fn same_data_but_rows(a: AppDataState, b: AppDataState) -> bool {
    &&& a.snapshot.captured_at == b.snapshot.captured_at
    &&& a.snapshot.system == b.snapshot.system
    &&& a.rss_history == b.rss_history
    &&& a.swap_history == b.swap_history
    &&& a.process_monitor == b.process_monitor
    &&& a.previous_cpu == b.previous_cpu
    &&& a.last_error == b.last_error
}

/// The rows are the same but for their detailed memory values.
pub open spec fn same_rows_but_details(a: Seq<ProcessRow>, b: Seq<ProcessRow>) -> bool {
    &&& a.len() == b.len()
    &&& forall|i: int|
        0 <= i < a.len() ==> #[trigger] b[i] == ProcessRow {
            uss_bytes: b[i].uss_bytes,
            pss_bytes: b[i].pss_bytes,
            ..a[i]
        }
}

impl AppDataState {
    /// An empty snapshot and empty histories.
    pub fn new() -> (r: Self)
        ensures
            r.snapshot.processes@.len() == 0,
            r.rss_history@.len() == 0,
            r.rss_history.cap() == HISTORY_CAPACITY,
            r.swap_history@.len() == 0,
            r.swap_history.cap() == HISTORY_CAPACITY,
            r.process_monitor is None,
            r.previous_cpu@.len() == 0,
            r.last_error is None,
    {
        AppDataState {
            snapshot: empty_snapshot(),
            rss_history: HistoryBuffer::new(HISTORY_CAPACITY),
            swap_history: HistoryBuffer::new(HISTORY_CAPACITY),
            process_monitor: None,
            previous_cpu: HashMap::new(),
            last_error: None,
        }
    }
}

/// State used to navigate and render the process table.
pub struct AppViewState {
    pub sort_state: SortState,
    /// Index of the selected process in the snapshot.
    pub selected: usize,
    pub scroll_offset: usize,
    pub view_mode: ViewMode,
    pub viewport_rows: usize,
    pub process_table_area: Option<Rect>,
    pub columns: ColumnLayout,
    pub column_picker_open: bool,
    pub column_picker_index: usize,
    pub sort_picker_open: bool,
    pub sort_picker_index: usize,
    pub process_monitor_open: bool,
    pub paused: bool,
    pub filter: ProcessFilter,
    pub filter_modal: FilterModalState,
    /// Indexes of the processes the filter keeps, in table order.
    pub filtered_indexes: Vec<usize>,
}

impl AppViewState {
    /// The flat view sorted by RSS, descending, with every column shown and
    /// nothing open.
    pub fn new() -> (r: Self)
        ensures
            initial_view(r),
            r.sort_state == (SortState { key: SortKey::Rss, direction: SortDirection::Descending }),
            r.selected == 0,
            r.scroll_offset == 0,
            r.view_mode == ViewMode::Flat,
            r.viewport_rows == 20,
            r.process_table_area is None,
            r.columns.wf(),
            !r.column_picker_open,
            r.column_picker_index == 0,
            !r.sort_picker_open,
            r.sort_picker_index == 0,
            !r.process_monitor_open,
            !r.paused,
            r.filter@.len() == 0,
            !r.filter_modal.open,
            !r.filter_modal.editing,
            r.filter_modal.selected == 0,
            r.filtered_indexes@.len() == 0,
    {
        AppViewState {
            sort_state: SortState::new(SortKey::Rss, SortDirection::Descending),
            selected: 0,
            scroll_offset: 0,
            view_mode: ViewMode::Flat,
            viewport_rows: 20,
            process_table_area: None,
            columns: ColumnLayout::new_default(),
            column_picker_open: false,
            column_picker_index: 0,
            sort_picker_open: false,
            sort_picker_index: 0,
            process_monitor_open: false,
            paused: false,
            filter: ProcessFilter::default(),
            filter_modal: FilterModalState::default(),
            filtered_indexes: Vec::new(),
        }
    }
}

/// The view a new state starts with: the flat view sorted by RSS,
/// descending, every column shown in the default order, no filter, nothing
/// selected, scrolled or open, and refreshing not paused.
pub open spec fn initial_view(v: AppViewState) -> bool {
    &&& v.sort_state == (SortState { key: SortKey::Rss, direction: SortDirection::Descending })
    &&& v.selected == 0
    &&& v.scroll_offset == 0
    &&& v.view_mode == ViewMode::Flat
    &&& v.viewport_rows == 20
    &&& v.process_table_area is None
    &&& v.columns.wf()
    &&& v.columns.order() == crate::columns::all_columns()
    &&& v.columns.visible() == Seq::new(11, |k: int| true)
    &&& !v.column_picker_open
    &&& v.column_picker_index == 0
    &&& !v.sort_picker_open
    &&& v.sort_picker_index == 0
    &&& !v.process_monitor_open
    &&& !v.paused
    &&& v.filter@.len() == 0
    &&& !v.filter_modal.open
    &&& !v.filter_modal.editing
    &&& v.filter_modal.selected == 0
    &&& v.filter_modal.error is None
    &&& v.filtered_indexes@.len() == 0
}

/// Resources the state transitions use: owner names and the collector.
pub struct AppResources<C: SystemCollector> {
    pub owner_resolver: OwnerNameCache,
    pub collector: C,
}

impl<C: SystemCollector> AppResources<C> {
    /// The resources of a state reading the system through `collector`.
    pub fn new(collector: C, owner_resolver: OwnerNameCache) -> (r: Self)
        ensures
            r.collector == collector,
            r.owner_resolver == owner_resolver,
    {
        AppResources { owner_resolver, collector }
    }
}

/// The application state shared by the input handlers, the refresh cycle
/// and the renderer.
pub struct AppState<C: SystemCollector> {
    pub data: AppDataState,
    pub view: AppViewState,
    pub tree: ProcessTreeState,
    pub resources: AppResources<C>,
    /// Whether the view preferences changed since they were last stored.
    pub config_changed: bool,
}

/// The positions of the processes the flat view lists: the filtered ones
/// when a filter is active, else all of them.
pub open spec fn flat_indexes_spec<C: SystemCollector>(app: AppState<C>) -> Seq<usize> {
    if app.view.filter@.len() > 0 {
        app.view.filtered_indexes@
    } else {
        Seq::new(app.data.snapshot.processes@.len(), |k: int| k as usize)
    }
}

/// Whether the selection is listed at row `v` of the current view: in the
/// flat view its position among the listed processes (without a filter, the
/// selection limited to the last row), in the tree view its first tree row.
pub open spec fn selected_row_spec<C: SystemCollector>(app: AppState<C>, v: int) -> bool {
    let sel = app.view.selected;
    match app.view.view_mode {
        ViewMode::Flat => if app.view.filter@.len() > 0 {
            let f = app.view.filtered_indexes@;
            0 <= v < f.len() && f[v] == sel && forall|m: int| 0 <= m < v ==> f[m] != sel
        } else {
            let n = app.data.snapshot.processes@.len();
            n > 0 && v == (if sel < n {
                sel as int
            } else {
                n - 1
            })
        },
        ViewMode::Tree => {
            let rows = app.tree.rows@;
            0 <= v < rows.len() && rows[v].process_index == sel && forall|m: int|
                0 <= m < v ==> rows[m].process_index != sel
        },
    }
}

/// The process listed at row `v` of the current view.
pub open spec fn process_at_row<C: SystemCollector>(app: AppState<C>, v: int) -> Option<usize> {
    match app.view.view_mode {
        ViewMode::Flat => if 0 <= v < flat_indexes_spec(app).len() {
            Some(flat_indexes_spec(app)[v])
        } else {
            None
        },
        ViewMode::Tree => if 0 <= v < app.tree.rows@.len() {
            Some(app.tree.rows@[v].process_index)
        } else {
            None
        },
    }
}

/// The first row the viewport shows.
pub open spec fn first_shown_row<C: SystemCollector>(app: AppState<C>) -> int {
    if app.view.scroll_offset < total_rows_spec(app) {
        app.view.scroll_offset as int
    } else {
        total_rows_spec(app)
    }
}

/// The row after the last one the viewport shows.
pub open spec fn last_shown_row<C: SystemCollector>(app: AppState<C>) -> int {
    if first_shown_row(app) + app.view.viewport_rows < total_rows_spec(app) {
        first_shown_row(app) + app.view.viewport_rows
    } else {
        total_rows_spec(app)
    }
}

/// The process ids of rows `start` up to `end` of the current view, for
/// the rows that list a process of the snapshot.
pub open spec fn shown_pids<C: SystemCollector>(app: AppState<C>, start: int, end: int) -> Seq<i32>
    decreases end - start,
{
    if end <= start {
        Seq::empty()
    } else {
        shown_pids(app, start, end - 1) + match process_at_row(app, end - 1) {
            Some(i) => if i < app.data.snapshot.processes@.len() {
                seq![app.data.snapshot.processes@[i as int].pid]
            } else {
                Seq::empty()
            },
            None => Seq::empty(),
        }
    }
}

/// `v` limited to the largest `u16`.
pub open spec fn saturated_u16(v: int) -> int {
    if v > u16::MAX {
        u16::MAX as int
    } else {
        v
    }
}

/// The cells the first `k` columns of the default order take, each with
/// its spacing.
pub open spec fn leading_widths(k: int) -> int
    decreases k,
{
    if k <= 0 {
        0
    } else {
        leading_widths(k - 1) + crate::columns::column_width_spec(
            crate::columns::all_columns()[k - 1],
            ViewMode::Flat,
        ) + 1
    }
}

/// The first cell column of the name column in a table whose left border
/// is at `x`.
pub open spec fn name_column_start(x: u16) -> int {
    saturated_u16(x + 1 + leading_widths(4))
}

/// Whether a click at `column` hits the expand toggle of `row`: in the tree
/// view, on a row with children, within the name cell and within the
/// toggle's cells.
pub open spec fn toggle_click_spec<C: SystemCollector>(
    app: AppState<C>,
    column: u16,
    row: crate::tree::TreeRowModel,
) -> bool {
    match app.view.process_table_area {
        Some(area) => {
            let start = name_column_start(area.x);
            let width = crate::columns::column_width_spec(ProcessColumn::Name, app.view.view_mode);
            let end = saturated_u16(start + crate::navigation::sat_sub(width as int, 1));
            let offset = crate::tree::toggle_offset_spec(
                row.ancestor_has_next_sibling.len(),
                row.depth,
            );
            let toggle_start = saturated_u16(start + offset);
            let toggle_end = saturated_u16(toggle_start + 2);
            &&& app.view.view_mode == ViewMode::Tree
            &&& row.has_children
            &&& start <= column <= end
            &&& toggle_start <= column <= toggle_end
        },
        None => false,
    }
}

/// What a left click at `column`, `row` does: outside the data rows of the
/// table nothing; on a row that lists a process, that process is selected
/// (a click on a tree row's toggle also expands or collapses it).
pub open spec fn click_effect<C: SystemCollector>(a: AppState<C>, b: AppState<C>, column: u16, row: u16) -> bool {
    &&& b.view.view_mode == a.view.view_mode
    &&& match a.view.process_table_area {
        Some(area) => match crate::navigation::table_hit_test_spec(area, column, row) {
            None => b == a,
            Some(d) => {
                let v = if a.view.scroll_offset + d > usize::MAX {
                    usize::MAX as int
                } else {
                    a.view.scroll_offset + d
                };
                match process_at_row(a, v) {
                    Some(i) => clicked_row_effect(a, b, column, v, i),
                    None => b == a,
                }
            },
        },
        None => b == a,
    }
}

/// What a click at `column` on the listed row `v`, which lists process
/// `i`, does: `i` is selected, and when the click lands on the row's
/// toggle in the tree view, the expansion of its process flips and the
/// tree is rebuilt; otherwise the tree stays.
pub open spec fn clicked_row_effect<C: SystemCollector>(
    a: AppState<C>,
    b: AppState<C>,
    column: u16,
    v: int,
    i: usize,
) -> bool {
    &&& b.view.selected == i
    &&& if click_toggles(a, column, v) && i < a.data.snapshot.processes@.len() {
        &&& exists|t: ProcessTreeState|
            #![trigger tree_rebuilt(with_selected(a, i), crate::tree::toggled_pids(a.tree.expanded_pids@, a.data.snapshot.processes@[i as int].pid), t)]
            tree_rebuilt(
                with_selected(a, i),
                crate::tree::toggled_pids(
                    a.tree.expanded_pids@,
                    a.data.snapshot.processes@[i as int].pid,
                ),
                t,
            ) && selection_shown(with_tree(with_selected(a, i), t), b.tree)
        &&& b.view == AppViewState { selected: i, scroll_offset: b.view.scroll_offset, ..a.view }
        &&& scrolled_into_view(with_tree(with_selected(a, i), b.tree), b.view.scroll_offset)
    } else if click_toggles(a, column, v) {
        b.tree == a.tree && b.view == AppViewState { selected: i, ..a.view }
    } else {
        &&& b.tree == a.tree
        &&& b.view == AppViewState { selected: i, scroll_offset: b.view.scroll_offset, ..a.view }
        &&& scrolled_into_view(with_selected(a, i), b.view.scroll_offset)
    }
}

/// Whether a click at `column` on the tree row `v` lands on its
/// expand/collapse toggle.
pub open spec fn click_toggles<C: SystemCollector>(a: AppState<C>, column: u16, v: int) -> bool {
    &&& a.view.view_mode == ViewMode::Tree
    &&& 0 <= v < a.tree.rows@.len()
    &&& toggle_click_spec(a, column, a.tree.rows@[v]@)
}

/// What a wheel step of `delta` rows at `column`, `row` does: inside the
/// table it scrolls, limited to the last page, without moving the
/// selection; elsewhere nothing.
pub open spec fn wheel_effect<C: SystemCollector>(
    a: AppState<C>,
    b: AppState<C>,
    column: u16,
    row: u16,
    delta: isize,
) -> bool {
    &&& b.view.selected == a.view.selected
    &&& b.view.view_mode == a.view.view_mode
    &&& match a.view.process_table_area {
        Some(area) => if crate::navigation::is_inside_spec(area, column, row) && total_rows_spec(a)
            > 0 {
            b.view.scroll_offset == crate::navigation::clamped_offset(
                crate::num::saturating_offset(a.view.scroll_offset as int, delta as int),
                total_rows_spec(a),
                a.view.viewport_rows as int,
            )
        } else {
            b == a
        },
        None => b == a,
    }
}

/// The process ids of the ancestors of the selected process.
pub open spec fn selection_ancestor_pids<C: SystemCollector>(a: AppState<C>) -> Set<i32> {
    pids_at(
        a.data.snapshot.processes@,
        ancestor_chain(a.tree.parents@, a.view.selected as int, a.tree.parents@.len() as nat),
    ).to_set()
}

/// Whether tree `t` is the tree of `a` after the ancestors of the selected
/// process were expanded: the same tree when nothing was expanded, else the
/// tree rebuilt with those ancestors expanded too.
pub open spec fn selection_shown<C: SystemCollector>(a: AppState<C>, t: ProcessTreeState) -> bool {
    ||| t.expanded_pids@ == a.tree.expanded_pids@ && t.rows@ == a.tree.rows@ && t.parents@
        == a.tree.parents@
    ||| exists|names: Seq<Seq<char>>|
        names.len() == a.data.snapshot.processes@.len() && is_tree_state(
            a.data.snapshot.processes@,
            a.view.sort_state,
            names,
            a.tree.expanded_pids@.union(selection_ancestor_pids(a)),
            t.expanded_pids@,
            t.parents@,
            rows_view(t.rows@),
        )
}

/// Whether showing the selection in the tree view expands anything: the
/// view is the tree, the selection is a row, its ancestors are known and
/// some of them are collapsed.
pub open spec fn selection_expands<C: SystemCollector>(a: AppState<C>) -> bool {
    &&& a.view.view_mode == ViewMode::Tree
    &&& a.view.selected < a.data.snapshot.processes@.len()
    &&& ancestors_known(
        a.tree.parents@,
        a.view.selected as int,
        a.data.snapshot.processes@.len() as int,
    )
    &&& !selection_ancestor_pids(a).subset_of(a.tree.expanded_pids@)
}

/// State `a` with tree `t`.
pub open spec fn with_tree<C: SystemCollector>(a: AppState<C>, t: ProcessTreeState) -> AppState<C> {
    AppState { tree: t, ..a }
}

/// Whether tree `t` is the tree of the snapshot of `a` rebuilt with the
/// processes `expanded` expanded.
pub open spec fn tree_rebuilt<C: SystemCollector>(a: AppState<C>, expanded: Set<i32>, t: ProcessTreeState) -> bool {
    exists|names: Seq<Seq<char>>|
        names.len() == a.data.snapshot.processes@.len() && is_tree_state(
            a.data.snapshot.processes@,
            a.view.sort_state,
            names,
            expanded,
            t.expanded_pids@,
            t.parents@,
            rows_view(t.rows@),
        )
}

/// What moving the selection `delta` rows does in the tree view `m` (after
/// the selected process was shown): the process of the tree row `delta`
/// rows away, kept within the rows, is selected.
pub open spec fn tree_move_effect<C: SystemCollector>(m: AppState<C>, b: AppState<C>, delta: isize) -> bool {
    let rows = m.tree.rows@;
    &&& (forall|v: int| !selected_row_spec(m, v)) ==> b.view.selected == m.view.selected
    &&& forall|c: int|
        #![trigger selected_row_spec(m, c)]
        selected_row_spec(m, c) && c + delta <= isize::MAX && c + delta >= isize::MIN
            && rows.len() <= isize::MAX ==> {
            let next = if c + delta < 0 {
                0
            } else if c + delta > rows.len() - 1 {
                rows.len() - 1
            } else {
                c + delta
            };
            b.view.selected == rows[next].process_index
        }
}

/// What a left key does in the tree view `m` (after the selected process
/// was shown): an expanded selected row with children is collapsed and the
/// tree rebuilt; otherwise the selection moves to the row's parent, if any.
pub open spec fn tree_left_effect<C: SystemCollector>(m: AppState<C>, b: AppState<C>) -> bool {
    let rows = m.tree.rows@;
    let n = m.data.snapshot.processes@.len();
    &&& (forall|v: int| !selected_row_spec(m, v)) ==> b.view.selected == m.view.selected
    &&& forall|v: int|
        #![trigger selected_row_spec(m, v)]
        selected_row_spec(m, v) && rows[v].process_index < n ==> {
            let row = rows[v];
            let pid = m.data.snapshot.processes@[row.process_index as int].pid;
            if row.has_children && row.expanded {
                &&& b.view.selected == m.view.selected
                &&& exists|names: Seq<Seq<char>>|
                    names.len() == n && is_tree_state(
                        m.data.snapshot.processes@,
                        m.view.sort_state,
                        names,
                        m.tree.expanded_pids@.remove(pid),
                        b.tree.expanded_pids@,
                        b.tree.parents@,
                        rows_view(b.tree.rows@),
                    )
            } else {
                b.view.selected == match row.parent_index {
                    Some(p) => p,
                    None => m.view.selected,
                }
            }
        }
}

/// What a right key does in the tree view `m` (after the selected process
/// was shown): a collapsed selected row with children is expanded and the
/// tree rebuilt; on an expanded one the selection moves to its first child.
pub open spec fn tree_right_effect<C: SystemCollector>(m: AppState<C>, b: AppState<C>) -> bool {
    let rows = m.tree.rows@;
    let n = m.data.snapshot.processes@.len();
    &&& (forall|v: int| !selected_row_spec(m, v)) ==> b.view.selected == m.view.selected
    &&& forall|v: int|
        #![trigger selected_row_spec(m, v)]
        selected_row_spec(m, v) && rows[v].process_index < n ==> {
            let row = rows[v];
            let pid = m.data.snapshot.processes@[row.process_index as int].pid;
            if row.has_children && !row.expanded {
                &&& b.view.selected == m.view.selected
                &&& exists|names: Seq<Seq<char>>|
                    names.len() == n && is_tree_state(
                        m.data.snapshot.processes@,
                        m.view.sort_state,
                        names,
                        m.tree.expanded_pids@.insert(pid),
                        b.tree.expanded_pids@,
                        b.tree.parents@,
                        rows_view(b.tree.rows@),
                    )
            } else if row.has_children && v + 1 < rows.len() && rows[v + 1].parent_index == Some(
                row.process_index,
            ) {
                b.view.selected == rows[v + 1].process_index
            } else {
                b.view.selected == m.view.selected
            }
        }
}

/// The process ids of rows, in order.
pub open spec fn row_pids(rows: Seq<ProcessRow>) -> Seq<i32> {
    rows.map_values(|r: ProcessRow| r.pid)
}

/// Whether `after` lists the processes of `before` in the table order of
/// `state`: its process ids are those of a sorted arrangement of `before`.
pub open spec fn sorted_rows(state: SortState, before: Seq<ProcessRow>, after: Seq<ProcessRow>) -> bool {
    exists|sorted: Seq<ProcessRow>, names: Seq<Seq<char>>|
        names.len() == before.len() && is_sorted_table(state, before, names, sorted) && row_pids(
            after,
        ) == row_pids(sorted)
}

/// Whether `offset` is the scroll offset that brings the selection of `s`
/// into view (the first row when the selection is not listed), moving as
/// little as possible from the offset of `s`.
pub open spec fn scrolled_into_view<C: SystemCollector>(s: AppState<C>, offset: usize) -> bool {
    &&& forall|v: int|
        #![trigger selected_row_spec(s, v)]
        selected_row_spec(s, v) ==> offset == crate::navigation::visible_offset(
            v,
            s.view.scroll_offset as int,
            s.view.viewport_rows as int,
            total_rows_spec(s),
        )
    &&& (forall|v: int| !selected_row_spec(s, v)) ==> offset == crate::navigation::visible_offset(
        0,
        s.view.scroll_offset as int,
        s.view.viewport_rows as int,
        total_rows_spec(s),
    )
}

/// Whether the selection is a listed process of the snapshot.
pub open spec fn has_selected_row<C: SystemCollector>(app: AppState<C>) -> bool {
    &&& exists|v: int| selected_row_spec(app, v)
    &&& app.view.selected < app.data.snapshot.processes@.len()
}

/// Whether two view states differ at most in their scroll offset.
pub open spec fn same_but_scroll(a: AppViewState, b: AppViewState) -> bool {
    &&& a.sort_state == b.sort_state
    &&& a.selected == b.selected
    &&& a.view_mode == b.view_mode
    &&& a.viewport_rows == b.viewport_rows
    &&& a.process_table_area == b.process_table_area
    &&& a.columns == b.columns
    &&& a.column_picker_open == b.column_picker_open
    &&& a.column_picker_index == b.column_picker_index
    &&& a.sort_picker_open == b.sort_picker_open
    &&& a.sort_picker_index == b.sort_picker_index
    &&& a.process_monitor_open == b.process_monitor_open
    &&& a.paused == b.paused
    &&& a.filter == b.filter
    &&& a.filter_modal == b.filter_modal
    &&& a.filtered_indexes == b.filtered_indexes
}

/// Whether two view states differ at most in the selection and the scroll
/// offset.
pub open spec fn same_but_selection(a: AppViewState, b: AppViewState) -> bool {
    &&& a.sort_state == b.sort_state
    &&& a.view_mode == b.view_mode
    &&& a.viewport_rows == b.viewport_rows
    &&& a.process_table_area == b.process_table_area
    &&& a.columns == b.columns
    &&& a.column_picker_open == b.column_picker_open
    &&& a.column_picker_index == b.column_picker_index
    &&& a.sort_picker_open == b.sort_picker_open
    &&& a.sort_picker_index == b.sort_picker_index
    &&& a.process_monitor_open == b.process_monitor_open
    &&& a.paused == b.paused
    &&& a.filter == b.filter
    &&& a.filter_modal == b.filter_modal
    &&& a.filtered_indexes == b.filtered_indexes
}

/// The number of rows the current view lists.
pub open spec fn total_rows_spec<C: SystemCollector>(app: AppState<C>) -> int {
    match app.view.view_mode {
        ViewMode::Flat => flat_indexes_spec(app).len() as int,
        ViewMode::Tree => app.tree.rows@.len() as int,
    }
}

impl<C: SystemCollector> AppState<C> {
    /// An empty state reading the system through `collector`; the first
    /// `refresh` fills it.
    pub fn new(collector: C) -> (r: Self)
        ensures
            r.data.snapshot.processes@.len() == 0,
            r.view.view_mode == ViewMode::Flat,
            r.view.sort_state == (SortState { key: SortKey::Rss, direction: SortDirection::Descending }),
            r.view.columns.wf(),
            initial_view(r.view),
            r.data.rss_history@.len() == 0,
            r.data.swap_history@.len() == 0,
            r.data.process_monitor is None,
            r.data.last_error is None,
            r.data.previous_cpu@.len() == 0,
            r.tree.rows@.len() == 0,
            r.tree.expanded_pids@.len() == 0,
            r.resources.collector == collector,
            !r.config_changed,
    {
        AppState {
            data: AppDataState::new(),
            view: AppViewState::new(),
            tree: ProcessTreeState::new(),
            resources: AppResources::new(collector, OwnerNameCache::new()),
            config_changed: false,
        }
    }

    /// The latest snapshot.
    pub fn snapshot(&self) -> (r: &Snapshot)
        ensures
            r == &self.data.snapshot,
    {
        &self.data.snapshot
    }

    /// The current sort.
    pub fn sort_state(&self) -> (r: SortState)
        ensures
            r == self.view.sort_state,
    {
        self.view.sort_state
    }

    /// The current view mode.
    pub fn view_mode(&self) -> (r: ViewMode)
        ensures
            r == self.view.view_mode,
    {
        self.view.view_mode
    }

    /// Whether the column picker is open.
    pub fn is_column_picker_open(&self) -> (r: bool)
        ensures
            r == self.view.column_picker_open,
    {
        self.view.column_picker_open
    }

    /// The highlighted row of the column picker.
    pub fn column_picker_index(&self) -> (r: usize)
        ensures
            r == self.view.column_picker_index,
    {
        self.view.column_picker_index
    }

    /// Whether the sort picker is open.
    pub fn is_sort_picker_open(&self) -> (r: bool)
        ensures
            r == self.view.sort_picker_open,
    {
        self.view.sort_picker_open
    }

    /// The highlighted row of the sort picker.
    pub fn sort_picker_index(&self) -> (r: usize)
        ensures
            r == self.view.sort_picker_index,
    {
        self.view.sort_picker_index
    }

    /// The sort keys the sort picker lists.
    pub fn sort_picker_keys(&self) -> (r: Vec<SortKey>)
        ensures
            r@ == crate::snapshot::sort_key_seq(),
    {
        SortKey::all()
    }

    /// Whether the filter modal is open.
    pub fn is_filter_modal_open(&self) -> (r: bool)
        ensures
            r == self.view.filter_modal.open,
    {
        self.view.filter_modal.open
    }

    /// The filter modal.
    pub fn filter_modal(&self) -> (r: &FilterModalState)
        ensures
            r == &self.view.filter_modal,
    {
        &self.view.filter_modal
    }

    /// Whether a filter is active.
    pub fn is_filter_active(&self) -> (r: bool)
        ensures
            r == (self.view.filter@.len() > 0),
    {
        self.view.filter.is_active()
    }

    /// Whether refreshing is paused.
    pub fn is_paused(&self) -> (r: bool)
        ensures
            r == self.view.paused,
    {
        self.view.paused
    }

    /// The summary of the latest snapshot.
    pub fn system_summary(&self) -> (r: &crate::snapshot::SystemSummary)
        ensures
            r == &self.data.snapshot.system,
    {
        &self.data.snapshot.system
    }

    /// The row at `index` of the snapshot.
    pub fn process_row(&self, index: usize) -> (r: Option<&ProcessRow>)
        ensures
            r == (if index < self.data.snapshot.processes@.len() {
                Some(&self.data.snapshot.processes@[index as int])
            } else {
                None
            }),
    {
        if index < self.data.snapshot.processes.len() {
            Some(&self.data.snapshot.processes[index])
        } else {
            None
        }
    }

    /// The process monitor, once one was started.
    pub fn process_monitor(&self) -> (r: Option<&ProcessMonitorState>)
        ensures
            r == match &self.data.process_monitor {
                Some(m) => Some(m),
                None => None,
            },
    {
        match &self.data.process_monitor {
            Some(m) => Some(m),
            None => None,
        }
    }

    /// The most recent collection error, if one is shown.
    pub fn last_error(&self) -> (r: Option<CollectorError>)
        ensures
            r == self.data.last_error,
    {
        self.data.last_error
    }

    /// The display name of the owner `uid`: its account name, or the id in
    /// decimal when the user database does not know it.
    pub fn owner_name(&self, uid: u32) -> (r: String)
        ensures
            exists|found: Option<Seq<char>>| r@ == crate::owners::owner_display_spec(found, uid),
    {
        self.resources.owner_resolver.resolve(uid)
    }

    /// The shown columns of the process table, in order.
    pub fn visible_columns(&self) -> (r: Vec<ProcessColumn>)
        ensures
            r@ == crate::columns::filter_visible(self.view.columns.order(), self.view.columns.visible()),
    {
        self.view.columns.visible_columns()
    }

    /// Every column in the order the column picker lists them.
    pub fn column_picker_columns(&self) -> (r: &[ProcessColumn])
        ensures
            r@ == self.view.columns.order(),
    {
        self.view.columns.ordered_columns()
    }

    /// The samples of the RSS history chart, oldest first.
    pub fn rss_history(&self) -> (r: &HistoryBuffer<u64>)
        ensures
            r == &self.data.rss_history,
    {
        &self.data.rss_history
    }

    /// The samples of the swap history chart, oldest first.
    pub fn swap_history(&self) -> (r: &HistoryBuffer<u64>)
        ensures
            r == &self.data.swap_history,
    {
        &self.data.swap_history
    }

    /// Whether the preferences changed since the last call; the flag is
    /// cleared.
    pub fn take_config_changed(&mut self) -> (r: bool)
        ensures
            r == old(self).config_changed,
            !final(self).config_changed,
            final(self).view == old(self).view,
            final(self).data == old(self).data,
    {
        let r = self.config_changed;
        self.config_changed = false;
        r
    }

    /// The chart points of the monitored process's known USS values;
    /// none without a monitor.
    pub fn process_monitor_uss_points(&self) -> (r: Vec<(usize, u64)>)
        ensures
            match self.data.process_monitor {
                Some(m) => r@ == known_points(sample_values(m.history@, true), m.history@.len() as int),
                None => r@.len() == 0,
            },
    {
        match &self.data.process_monitor {
            Some(m) => m.detail_points(true),
            None => Vec::new(),
        }
    }

    /// The chart points of the monitored process's known PSS values;
    /// none without a monitor.
    pub fn process_monitor_pss_points(&self) -> (r: Vec<(usize, u64)>)
        ensures
            match self.data.process_monitor {
                Some(m) => r@ == known_points(sample_values(m.history@, false), m.history@.len() as int),
                None => r@.len() == 0,
            },
    {
        match &self.data.process_monitor {
            Some(m) => m.detail_points(false),
            None => Vec::new(),
        }
    }

    /// The most recent collection error as display text.
    pub fn last_error_message(&self) -> (r: Option<String>)
        ensures
            match self.data.last_error {
                Some(e) => r matches Some(m) && m@ == crate::collector::error_message(e),
                None => r is None,
            },
    {
        match self.data.last_error {
            Some(e) => Some(e.message()),
            None => None,
        }
    }

    /// The positions of the processes the flat view lists.
    pub fn current_flat_process_indexes(&self) -> (r: Vec<usize>)
        ensures
            r@ == flat_indexes_spec(*self),
    {
        if self.view.filter.is_active() {
            let mut r: Vec<usize> = Vec::new();
            let mut i: usize = 0;
            while i < self.view.filtered_indexes.len()
                invariant
                    i <= self.view.filtered_indexes.len(),
                    r@ == self.view.filtered_indexes@.take(i as int),
                decreases self.view.filtered_indexes.len() - i,
            {
                r.push(self.view.filtered_indexes[i]);
                assert(r@ =~= self.view.filtered_indexes@.take(i + 1));
                i = i + 1;
            }
            assert(r@ =~= self.view.filtered_indexes@);
            r
        } else {
            let n = self.data.snapshot.processes.len();
            let mut r: Vec<usize> = Vec::new();
            let mut i: usize = 0;
            while i < n
                invariant
                    i <= n,
                    r@ == Seq::new(i as nat, |k: int| k as usize),
                decreases n - i,
            {
                r.push(i);
                assert(r@ =~= Seq::new((i + 1) as nat, |k: int| k as usize));
                i = i + 1;
            }
            r
        }
    }

    /// The number of processes the flat view lists.
    pub fn filtered_process_count(&self) -> (r: usize)
        ensures
            r == flat_indexes_spec(*self).len(),
    {
        if self.view.filter.is_active() {
            self.view.filtered_indexes.len()
        } else {
            self.data.snapshot.processes.len()
        }
    }

    /// The number of rows the current view lists.
    pub fn total_visible_rows(&self) -> (r: usize)
        ensures
            r == total_rows_spec(*self),
    {
        match self.view.view_mode {
            ViewMode::Flat => self.filtered_process_count(),
            ViewMode::Tree => self.tree.rows.len(),
        }
    }

    /// The process listed at row `visible_index` of the flat view.
    pub fn flat_process_index_at(&self, visible_index: usize) -> (r: Option<usize>)
        ensures
            r == (if visible_index < flat_indexes_spec(*self).len() {
                Some(flat_indexes_spec(*self)[visible_index as int])
            } else {
                None
            }),
    {
        if self.view.filter.is_active() {
            if visible_index < self.view.filtered_indexes.len() {
                Some(self.view.filtered_indexes[visible_index])
            } else {
                None
            }
        } else if visible_index < self.data.snapshot.processes.len() {
            Some(visible_index)
        } else {
            None
        }
    }

    /// The process listed at row `visible_index` of the current view.
    pub fn process_index_at_visible_row(&self, visible_index: usize) -> (r: Option<usize>)
        ensures
            r == match self.view.view_mode {
                ViewMode::Flat => if visible_index < flat_indexes_spec(*self).len() {
                    Some(flat_indexes_spec(*self)[visible_index as int])
                } else {
                    None
                },
                ViewMode::Tree => if visible_index < self.tree.rows@.len() {
                    Some(self.tree.rows@[visible_index as int].process_index)
                } else {
                    None
                },
            },
    {
        match self.view.view_mode {
            ViewMode::Flat => self.flat_process_index_at(visible_index),
            ViewMode::Tree => if visible_index < self.tree.rows.len() {
                Some(self.tree.rows[visible_index].process_index)
            } else {
                None
            },
        }
    }

    /// The tree row at row `visible_index`, in the tree view.
    pub fn tree_row_at_visible_row(&self, visible_index: usize) -> (r: Option<&TreeRow>)
        ensures
            r == (if self.view.view_mode == ViewMode::Tree && visible_index < self.tree.rows@.len() {
                Some(&self.tree.rows@[visible_index as int])
            } else {
                None
            }),
    {
        match self.view.view_mode {
            ViewMode::Flat => None,
            ViewMode::Tree => if visible_index < self.tree.rows.len() {
                Some(&self.tree.rows[visible_index])
            } else {
                None
            },
        }
    }

    /// The row of the selection in the current view: in the flat view its
    /// position among the listed processes (without a filter, the selection
    /// limited to the last row), in the tree view its first tree row.
    pub fn selected_visible_index(&self) -> (r: Option<usize>)
        ensures
            match r {
                Some(v) => selected_row_spec(*self, v as int),
                None => forall|v: int| !selected_row_spec(*self, v),
            },
    {
        match self.view.view_mode {
            ViewMode::Flat => {
                if self.view.filter.is_active() {
                    let mut k: usize = 0;
                    while k < self.view.filtered_indexes.len()
                        invariant
                            k <= self.view.filtered_indexes.len(),
                            self.view.view_mode == ViewMode::Flat,
                            self.view.filter@.len() > 0,
                            forall|m: int|
                                0 <= m < k ==> self.view.filtered_indexes@[m] != self.view.selected,
                        decreases self.view.filtered_indexes.len() - k,
                    {
                        if self.view.filtered_indexes[k] == self.view.selected {
                            return Some(k);
                        }
                        k = k + 1;
                    }
                    None
                } else {
                    let n = self.data.snapshot.processes.len();
                    if n == 0 {
                        None
                    } else if self.view.selected < n {
                        Some(self.view.selected)
                    } else {
                        Some(n - 1)
                    }
                }
            },
            ViewMode::Tree => selected_tree_visible_index(self.tree.rows.as_slice(), self.view.selected),
        }
    }

    /// The process id of the selected row, if there is one.
    pub fn selected_pid(&self) -> (r: Option<i32>)
        ensures
            r == (if self.view.selected < self.data.snapshot.processes@.len() {
                Some(self.data.snapshot.processes@[self.view.selected as int].pid)
            } else {
                None
            }),
    {
        if self.view.selected < self.data.snapshot.processes.len() {
            Some(self.data.snapshot.processes[self.view.selected].pid)
        } else {
            None
        }
    }

    /// The rows the viewport shows.
    pub fn visible_row_range(&self) -> (r: std::ops::Range<usize>)
        ensures
            r.start == if self.view.scroll_offset < total_rows_spec(*self) {
                self.view.scroll_offset as int
            } else {
                total_rows_spec(*self)
            },
            r.end == if r.start + self.view.viewport_rows < total_rows_spec(*self) {
                r.start + self.view.viewport_rows
            } else {
                total_rows_spec(*self)
            },
    {
        crate::view::visible_row_range(
            self.view.scroll_offset,
            self.view.viewport_rows,
            self.total_visible_rows(),
        )
    }

    /// Limits the scroll offset to the last page.
    pub fn clamp_scroll_offset(&mut self)
        ensures
            final(self).view.scroll_offset == crate::navigation::clamped_offset(
                old(self).view.scroll_offset as int,
                total_rows_spec(*old(self)),
                old(self).view.viewport_rows as int,
            ),
            final(self).data == old(self).data,
            final(self).tree == old(self).tree,
            same_but_scroll(old(self).view, final(self).view),
    {
        let total = self.total_visible_rows();
        self.view.scroll_offset = crate::navigation::clamp_scroll_offset(
            self.view.scroll_offset,
            total,
            self.view.viewport_rows,
        );
    }

    /// Scrolls just enough to show the selected row (the first row when the
    /// selection is not listed).
    pub fn ensure_visible(&mut self)
        ensures
            same_overlays(old(self).view, final(self).view),
            scrolled_into_view(*old(self), final(self).view.scroll_offset),
            final(self).data == old(self).data,
            final(self).tree == old(self).tree,
            same_but_scroll(old(self).view, final(self).view),
            forall|v: int|
                #![trigger selected_row_spec(*old(self), v)]
                selected_row_spec(*old(self), v) ==> {
                    &&& final(self).view.scroll_offset == crate::navigation::visible_offset(
                        v,
                        old(self).view.scroll_offset as int,
                        old(self).view.viewport_rows as int,
                        total_rows_spec(*old(self)),
                    )
                    &&& final(self).view.scroll_offset <= v < final(self).view.scroll_offset + if old(
                        self,
                    ).view.viewport_rows < 1 {
                        1
                    } else {
                        old(self).view.viewport_rows as int
                    }
                },
            (forall|v: int| !selected_row_spec(*old(self), v)) ==> final(self).view.scroll_offset
                == crate::navigation::visible_offset(
                0,
                old(self).view.scroll_offset as int,
                old(self).view.viewport_rows as int,
                total_rows_spec(*old(self)),
            ),
    {
        let selected_visible = match self.selected_visible_index() {
            Some(v) => v,
            None => 0,
        };
        let total = self.total_visible_rows();
        let ghost before = *old(self);
        self.view.scroll_offset = crate::navigation::ensure_visible_scroll(
            selected_visible,
            self.view.scroll_offset,
            self.view.viewport_rows,
            total,
        );
        proof {
            if selected_visible < total {
                crate::navigation::lemma_ensure_visible_shows_row(
                    selected_visible as int,
                    before.view.scroll_offset as int,
                    before.view.viewport_rows as int,
                    total as int,
                );
            }
        }
    }

    /// Sets how many table rows fit on screen (at least one) and limits the
    /// scroll offset to the last page.
    pub fn set_viewport_rows(&mut self, rows: usize)
        ensures
            final(self).view.viewport_rows == if rows < 1 {
                1
            } else {
                rows
            },
            final(self).view.scroll_offset == crate::navigation::clamped_offset(
                old(self).view.scroll_offset as int,
                total_rows_spec(*old(self)),
                final(self).view.viewport_rows as int,
            ),
            final(self).view.selected == old(self).view.selected,
            final(self).view == (AppViewState {
                viewport_rows: final(self).view.viewport_rows,
                scroll_offset: final(self).view.scroll_offset,
                ..old(self).view
            }),
            final(self).data == old(self).data,
            final(self).tree == old(self).tree,
    {
        self.view.viewport_rows = if rows < 1 {
            1
        } else {
            rows
        };
        self.clamp_scroll_offset();
    }

    /// Stores the process table area of the latest frame.
    pub fn set_process_table_area(&mut self, area: Rect)
        ensures
            final(self).view.process_table_area == Some(area),
            final(self).view.selected == old(self).view.selected,
            final(self).view.scroll_offset == old(self).view.scroll_offset,
            final(self).view == (AppViewState { process_table_area: Some(area), ..old(self).view }),
            final(self).data == old(self).data,
            final(self).tree == old(self).tree,
    {
        self.view.process_table_area = Some(area);
    }
}

/// The first listed process, of the positions `flat`, with process id
/// `pid`.
pub fn first_listed_with_pid(flat: &[usize], rows: &[ProcessRow], pid: i32) -> (r: Option<usize>)
    ensures
        match r {
            Some(index) => index < rows.len() && rows@[index as int].pid == pid && first_with_pid(
                flat@,
                rows@,
                pid,
                index,
            ),
            None => !exists|k: int|
                0 <= k < flat.len() && flat@[k] < rows.len() && rows@[flat@[k] as int].pid == pid,
        },
{
    let mut k: usize = 0;
    while k < flat.len()
        invariant
            k <= flat.len(),
            forall|m: int|
                0 <= m < k ==> !(flat@[m] < rows.len() && rows@[flat@[m] as int].pid == pid),
        decreases flat.len() - k,
    {
        let index = flat[k];
        if index < rows.len() && rows[index].pid == pid {
            assert(flat@[k as int] == index);
            assert(first_with_pid(flat@, rows@, pid, index));
            return Some(index);
        }
        k = k + 1;
    }
    None
}

/// Whether the parent links from `selected` end, and every ancestor on
/// the way is a row of the `n` rows.
pub open spec fn ancestors_known(parents: Seq<Option<usize>>, selected: int, n: int) -> bool {
    &&& chain_ends(parents, selected, parents.len() as nat)
    &&& forall|k: int|
        0 <= k < ancestor_chain(parents, selected, parents.len() as nat).len() ==> #[trigger] ancestor_chain(
            parents,
            selected,
            parents.len() as nat,
        )[k] < n
}

/// The ancestors' process ids of process `selected`, nearest first, when
/// its parent links end and every ancestor is a row; none when they loop
/// or lead outside the rows.
pub fn ancestor_pids_checked(selected: usize, parents: &[Option<usize>], processes: &[ProcessRow]) -> (r:
    Option<Vec<i32>>)
    ensures
        match r {
            Some(v) => chain_ends(parents@, selected as int, parents.len() as nat) && v@ == pids_at(
                processes@,
                ancestor_chain(parents@, selected as int, parents.len() as nat),
            ),
            None => !ancestors_known(parents@, selected as int, processes.len() as int),
        },
        r is Some <==> ancestors_known(parents@, selected as int, processes.len() as int),
{
    let ghost whole = ancestor_chain(parents@, selected as int, parents.len() as nat);
    let mut ancestors: Vec<i32> = Vec::new();
    let mut current = selected;
    let mut fuel = parents.len();
    loop
        invariant
            whole == ancestor_chain(parents@, selected as int, parents.len() as nat),
            chain_ends(parents@, selected as int, parents.len() as nat) <==> chain_ends(
                parents@,
                current as int,
                fuel as nat,
            ),
            ({
                let rest = ancestor_chain(parents@, current as int, fuel as nat);
                &&& whole == whole.take(ancestors@.len() as int) + rest
                &&& ancestors@ == pids_at(processes@, whole.take(ancestors@.len() as int))
                &&& ancestors@.len() + rest.len() == whole.len()
            }),
            forall|k: int| 0 <= k < ancestors@.len() ==> whole[k] < processes.len(),
        decreases fuel,
    {
        if current >= parents.len() {
            assert(whole.take(ancestors@.len() as int) =~= whole);
            return Some(ancestors);
        }
        match parents[current] {
            None => {
                assert(whole.take(ancestors@.len() as int) =~= whole);
                return Some(ancestors);
            },
            Some(p) => {
                if fuel == 0 || p >= processes.len() {
                    proof {
                        if fuel > 0 {
                            let n = ancestors@.len() as int;
                            let rest = ancestor_chain(parents@, current as int, fuel as nat);
                            assert(rest[0] == p);
                            assert(whole[n] == p);
                            assert(ancestor_chain(parents@, selected as int, parents.len() as nat)[n]
                                >= processes.len());
                        }
                    }
                    return None;
                }
                let ghost n = ancestors@.len() as int;
                let ghost rest = ancestor_chain(parents@, current as int, fuel as nat);
                assert(rest[0] == p);
                assert(whole[n] == p);
                ancestors.push(processes[p].pid);
                proof {
                    assert(whole.take(n + 1) =~= whole.take(n).push(p));
                    assert(ancestors@ =~= pids_at(processes@, whole.take(n + 1)));
                    assert(rest =~= seq![p] + ancestor_chain(parents@, p as int, (fuel - 1) as nat));
                    assert(whole =~= whole.take(n + 1) + ancestor_chain(
                        parents@,
                        p as int,
                        (fuel - 1) as nat,
                    ));
                }
                current = p;
                fuel = fuel - 1;
            },
        }
    }
}

impl<C: SystemCollector> AppState<C> {
    /// Recomputes which processes the filter keeps.
    pub fn rebuild_filtered_indexes(&mut self)
        ensures
            same_overlays(old(self).view, final(self).view),
            final(self).view.filtered_indexes@ == matching_spec(
                old(self).view.filter@,
                old(self).data.snapshot.processes@,
                old(self).data.snapshot.processes@.len() as int,
            ),
            final(self).data == old(self).data,
            final(self).tree == old(self).tree,
            final(self).view.selected == old(self).view.selected,
            final(self).view.scroll_offset == old(self).view.scroll_offset,
            same_but_selection(
                old(self).view,
                AppViewState { filtered_indexes: old(self).view.filtered_indexes, ..final(self).view },
            ),
    {
        let indexes = self.view.filter.matching_indexes(self.data.snapshot.processes.as_slice());
        self.view.filtered_indexes = indexes;
    }

    /// Rebuilds the tree from the snapshot, keeping the expanded processes
    /// that are still present.
    pub fn rebuild_tree_rows(&mut self)
        ensures
            same_overlays(old(self).view, final(self).view),
            exists|names: Seq<Seq<char>>|
                names.len() == old(self).data.snapshot.processes@.len() && is_tree_state(
                    old(self).data.snapshot.processes@,
                    old(self).view.sort_state,
                    names,
                    old(self).tree.expanded_pids@,
                    final(self).tree.expanded_pids@,
                    final(self).tree.parents@,
                    rows_view(final(self).tree.rows@),
                ),
            final(self).data == old(self).data,
            final(self).view == old(self).view,
            final(self).resources == old(self).resources,
            final(self).config_changed == old(self).config_changed,
    {
        let tree = build_process_tree_state(
            self.data.snapshot.processes.as_slice(),
            self.view.sort_state,
            &self.resources.owner_resolver,
            &self.tree.expanded_pids,
        );
        let ghost names = choose|names: Seq<Seq<char>>|
            names.len() == self.data.snapshot.processes@.len() && is_tree_state(
                self.data.snapshot.processes@,
                self.view.sort_state,
                names,
                self.tree.expanded_pids@,
                tree.expanded_pids@,
                tree.parents@,
                rows_view(tree.rows@),
            );
        self.tree = tree;
        assert(names.len() == old(self).data.snapshot.processes@.len() && is_tree_state(
            old(self).data.snapshot.processes@,
            old(self).view.sort_state,
            names,
            old(self).tree.expanded_pids@,
            self.tree.expanded_pids@,
            self.tree.parents@,
            rows_view(self.tree.rows@),
        ));
    }

    /// Sorts `processes` in the current table order.
    pub fn sort_snapshot_processes(&self, processes: &mut Vec<ProcessRow>)
        ensures
            exists|names: Seq<Seq<char>>|
                names.len() == old(processes)@.len() && is_sorted_table(
                    self.view.sort_state,
                    old(processes)@,
                    names,
                    final(processes)@,
                ),
    {
        sort_processes(self.view.sort_state, &self.resources.owner_resolver, processes);
    }

    /// Sorts the snapshot in table order.
    pub fn sort_current_processes(&mut self)
        ensures
            exists|names: Seq<Seq<char>>|
                names.len() == old(self).data.snapshot.processes@.len() && is_sorted_table(
                    old(self).view.sort_state,
                    old(self).data.snapshot.processes@,
                    names,
                    final(self).data.snapshot.processes@,
                ),
            final(self).data.snapshot.system == old(self).data.snapshot.system,
            final(self).view == old(self).view,
            final(self).tree == old(self).tree,
    {
        let ghost before = self.data.snapshot.processes@;
        sort_processes(
            self.view.sort_state,
            &self.resources.owner_resolver,
            &mut self.data.snapshot.processes,
        );
        let ghost names = choose|names: Seq<Seq<char>>|
            names.len() == before.len() && is_sorted_table(
                self.view.sort_state,
                before,
                names,
                self.data.snapshot.processes@,
            );
        assert(names.len() == before.len() && is_sorted_table(
            self.view.sort_state,
            before,
            names,
            self.data.snapshot.processes@,
        ));
    }

    /// Stores loaded detailed memory values in the rows of their processes.
    pub fn apply_memory_details(&mut self, details: HashMap<i32, DetailedMemorySample>)
        ensures
            final(self).data.snapshot.processes@.len() == old(self).data.snapshot.processes@.len(),
            forall|i: int|
                0 <= i < old(self).data.snapshot.processes@.len() ==> {
                    let before = #[trigger] old(self).data.snapshot.processes@[i];
                    let after = final(self).data.snapshot.processes@[i];
                    &&& after.pid == before.pid
                    &&& after.ppid == before.ppid
                    &&& after.name == before.name
                    &&& after.command == before.command
                    &&& after.rss_bytes == before.rss_bytes
                    &&& after.base_swap_bytes == before.base_swap_bytes
                    &&& after.detailed_swap_bytes == before.detailed_swap_bytes
                    &&& after.cpu_percent == before.cpu_percent
                    &&& after.owner_uid == before.owner_uid
                    &&& after.threads == before.threads
                    &&& if details@.contains_key(before.pid) {
                        after.uss_bytes == details@[before.pid].uss_bytes && after.pss_bytes
                            == details@[before.pid].pss_bytes
                    } else {
                        after.uss_bytes == before.uss_bytes && after.pss_bytes == before.pss_bytes
                    }
                },
            final(self).view == old(self).view,
            final(self).tree == old(self).tree,
            same_data_but_rows(old(self).data, final(self).data),
            row_pids(final(self).data.snapshot.processes@) == row_pids(old(self).data.snapshot.processes@),
            same_rows_but_details(old(self).data.snapshot.processes@, final(self).data.snapshot.processes@),
    {
        let n = self.data.snapshot.processes.len();
        let mut i: usize = 0;
        while i < n
            invariant
                i <= n,
                n == old(self).data.snapshot.processes@.len(),
                self.data.snapshot.processes@.len() == n,
                self.view == old(self).view,
                self.tree == old(self).tree,
                same_data_but_rows(old(self).data, self.data),
                forall|k: int|
                    i <= k < n ==> #[trigger] self.data.snapshot.processes@[k]
                        == old(self).data.snapshot.processes@[k],
                forall|k: int|
                    0 <= k < i ==> {
                        let before = #[trigger] old(self).data.snapshot.processes@[k];
                        let after = self.data.snapshot.processes@[k];
                        &&& after.pid == before.pid
                        &&& after.ppid == before.ppid
                        &&& after.name == before.name
                        &&& after.command == before.command
                        &&& after.rss_bytes == before.rss_bytes
                        &&& after.base_swap_bytes == before.base_swap_bytes
                        &&& after.detailed_swap_bytes == before.detailed_swap_bytes
                        &&& after.cpu_percent == before.cpu_percent
                        &&& after.owner_uid == before.owner_uid
                        &&& after.threads == before.threads
                        &&& if details@.contains_key(before.pid) {
                            after.uss_bytes == details@[before.pid].uss_bytes && after.pss_bytes
                                == details@[before.pid].pss_bytes
                        } else {
                            after.uss_bytes == before.uss_bytes && after.pss_bytes
                                == before.pss_bytes
                        }
                    },
            decreases n - i,
        {
            let pid = self.data.snapshot.processes[i].pid;
            match details.get(&pid) {
                Some(detail) => {
                    let d = *detail;
                    let row = &mut self.data.snapshot.processes[i];
                    row.uss_bytes = d.uss_bytes;
                    row.pss_bytes = d.pss_bytes;
                },
                None => {},
            }
            i = i + 1;
        }
    }

    /// Which detailed memory values the shown columns need.
    pub fn detail_request(&self) -> (r: VisibleDetailRequest)
        ensures
            r.uss == self.view.columns.visible()[7],
            r.pss == self.view.columns.visible()[8],
    {
        self.view.columns.detail_request()
    }

    /// The process ids of the rows the viewport shows, in order.
    pub fn visible_pids(&self) -> (r: Vec<i32>)
        ensures
            r@ == shown_pids(*self, first_shown_row(*self), last_shown_row(*self)),
            r@.len() <= self.view.viewport_rows,
    {
        let range = self.visible_row_range();
        let mut pids: Vec<i32> = Vec::new();
        let mut v = range.start;
        while v < range.end
            invariant
                range.start <= v <= range.end,
                range.start == first_shown_row(*self),
                range.end == last_shown_row(*self),
                range.end <= range.start + self.view.viewport_rows,
                pids@.len() <= v - range.start,
                pids@ == shown_pids(*self, range.start as int, v as int),
            decreases range.end - v,
        {
            match self.process_index_at_visible_row(v) {
                Some(index) => if index < self.data.snapshot.processes.len() {
                    pids.push(self.data.snapshot.processes[index].pid);
                },
                None => {},
            }
            v = v + 1;
        }
        pids
    }

    /// Loads the detailed memory values `request` asks for, for `pids`, and
    /// stores them in the rows.
    pub fn populate_memory_details(&mut self, pids: &[i32], request: VisibleDetailRequest)
        ensures
            final(self).view == old(self).view,
            final(self).tree == old(self).tree,
            final(self).data.snapshot.processes@.len() == old(self).data.snapshot.processes@.len(),
            same_data_but_rows(old(self).data, final(self).data),
            row_pids(final(self).data.snapshot.processes@) == row_pids(old(self).data.snapshot.processes@),
            same_rows_but_details(old(self).data.snapshot.processes@, final(self).data.snapshot.processes@),
            pids.len() == 0 || !(request.uss || request.pss) ==> final(self).data.snapshot.processes
                == old(self).data.snapshot.processes,
    {
        if pids.len() == 0 || !request.needs_any() {
            return;
        }
        let details = self.resources.collector.collect_visible_memory_details(pids, request);
        self.apply_memory_details(details);
    }

    /// Loads the detailed values the shown columns need for the rows the
    /// viewport shows.
    pub fn populate_visible_details(&mut self)
        ensures
            same_overlays(old(self).view, final(self).view),
            final(self).view == old(self).view,
            final(self).tree == old(self).tree,
            final(self).data.snapshot.processes@.len() == old(self).data.snapshot.processes@.len(),
            same_data_but_rows(old(self).data, final(self).data),
            row_pids(final(self).data.snapshot.processes@) == row_pids(old(self).data.snapshot.processes@),
            same_rows_but_details(old(self).data.snapshot.processes@, final(self).data.snapshot.processes@),
            shown_pids(*old(self), first_shown_row(*old(self)), last_shown_row(*old(self))).len() == 0
                || !(old(self).view.columns.visible()[7] || old(self).view.columns.visible()[8])
                ==> final(self).data.snapshot.processes == old(self).data.snapshot.processes,
    {
        let pids = self.visible_pids();
        let request = self.detail_request();
        self.populate_memory_details(pids.as_slice(), request);
    }

    /// Loads the detailed values the filter compares, for every process.
    pub fn populate_filter_details(&mut self)
        ensures
            final(self).view == old(self).view,
            final(self).tree == old(self).tree,
            final(self).data.snapshot.processes@.len() == old(self).data.snapshot.processes@.len(),
            same_data_but_rows(old(self).data, final(self).data),
            row_pids(final(self).data.snapshot.processes@) == row_pids(old(self).data.snapshot.processes@),
            same_rows_but_details(old(self).data.snapshot.processes@, final(self).data.snapshot.processes@),
            !(uses_metric(old(self).view.filter@, MetricFilterField::Uss) || uses_metric(
                old(self).view.filter@,
                MetricFilterField::Pss,
            )) || old(self).data.snapshot.processes@.len() == 0
                ==> final(self).data.snapshot.processes == old(self).data.snapshot.processes,
    {
        let request = self.view.filter.detail_request();
        if !request.needs_any() {
            return;
        }
        let mut pids: Vec<i32> = Vec::new();
        let mut i: usize = 0;
        while i < self.data.snapshot.processes.len()
            invariant
                i <= self.data.snapshot.processes.len(),
                pids@.len() == i,
            decreases self.data.snapshot.processes.len() - i,
        {
            pids.push(self.data.snapshot.processes[i].pid);
            i = i + 1;
        }
        self.populate_memory_details(pids.as_slice(), request);
    }

    /// Expands the ancestors of the selected process in the tree view so
    /// that it shows; the tree is rebuilt when anything was expanded.
    pub fn ensure_tree_selection_visible(&mut self)
        ensures
            final(self).resources == old(self).resources,
            final(self).config_changed == old(self).config_changed,
            same_overlays(old(self).view, final(self).view),
            final(self).view == old(self).view,
            final(self).data == old(self).data,
            old(self).view.view_mode != ViewMode::Tree ==> final(self).tree == old(self).tree,
            selection_shown(*old(self), final(self).tree),
            if selection_expands(*old(self)) {
                tree_rebuilt(
                    *old(self),
                    old(self).tree.expanded_pids@.union(selection_ancestor_pids(*old(self))),
                    final(self).tree,
                )
            } else {
                final(self).tree.expanded_pids@ == old(self).tree.expanded_pids@
                    && final(self).tree.rows@ == old(self).tree.rows@ && final(self).tree.parents@
                    == old(self).tree.parents@
            },
    {
        if self.view.view_mode != ViewMode::Tree
            || self.view.selected >= self.data.snapshot.processes.len() {
            return;
        }
        let ancestors = match ancestor_pids_checked(
            self.view.selected,
            self.tree.parents.as_slice(),
            self.data.snapshot.processes.as_slice(),
        ) {
            Some(a) => a,
            None => {
                return;
            },
        };
        let ghost before = self.tree.expanded_pids@;
        let mut changed = false;
        let mut k: usize = 0;
        while k < ancestors.len()
            invariant
                k <= ancestors.len(),
                self.view == old(self).view,
                self.data == old(self).data,
                self.tree.rows == old(self).tree.rows,
                self.tree.parents == old(self).tree.parents,
                self.resources == old(self).resources,
                self.config_changed == old(self).config_changed,
                before == old(self).tree.expanded_pids@,
                self.tree.expanded_pids@ == before.union(ancestors@.take(k as int).to_set()),
                !changed ==> ancestors@.take(k as int).to_set().subset_of(before),
                changed ==> !ancestors@.take(k as int).to_set().subset_of(before),
            decreases ancestors.len() - k,
        {
            let pid = ancestors[k];
            proof {
                assert(ancestors@.take(k + 1) =~= ancestors@.take(k as int) + seq![pid]);
                Seq::lemma_to_set_insert_commutes(ancestors@.take(k as int), pid);
            }
            let ghost prior = self.tree.expanded_pids@;
            if self.tree.expanded_pids.insert(pid) {
                assert(!prior.contains(pid));
                assert(ancestors@.take(k + 1).to_set().contains(pid));
                changed = true;
            }
            proof {
                assert(self.tree.expanded_pids@ =~= before.union(ancestors@.take(k + 1).to_set()));
            }
            k = k + 1;
        }
        proof {
            assert(ancestors@.take(ancestors@.len() as int) =~= ancestors@);
            if !changed {
                assert(self.tree.expanded_pids@ =~= before);
            }
            assert(ancestors@.to_set() == selection_ancestor_pids(*old(self)));
            assert(self.tree.expanded_pids@ == old(self).tree.expanded_pids@.union(
                selection_ancestor_pids(*old(self)),
            ));
        }
        proof {
            assert(ancestors_known(
                old(self).tree.parents@,
                old(self).view.selected as int,
                old(self).data.snapshot.processes@.len() as int,
            ));
            assert(changed == selection_expands(*old(self)));
        }
        if changed {
            let ghost expanded = self.tree.expanded_pids@;
            self.rebuild_tree_rows();
            assert(tree_rebuilt(*old(self), expanded, self.tree));
        }
    }

    /// Selects again the process that was selected: the first listed one
    /// with `selected_pid`, else the first listed one; in the tree view its
    /// ancestors are expanded. Then the selected row is scrolled into view,
    /// or only the scroll offset is limited.
    pub fn restore_selection(&mut self, selected_pid: Option<i32>, ensure_visible: bool)
        ensures
            same_overlays(old(self).view, final(self).view),
            final(self).data == old(self).data,
            same_but_selection(old(self).view, final(self).view),
            flat_indexes_spec(*old(self)).len() == 0 ==> final(self).view.selected == 0
                && final(self).view.scroll_offset == 0,
            old(self).view.view_mode == ViewMode::Flat || flat_indexes_spec(*old(self)).len() == 0
                ==> final(self).tree == old(self).tree,
            old(self).view.view_mode == ViewMode::Flat && flat_indexes_spec(*old(self)).len() > 0
                ==> {
                let flat = flat_indexes_spec(*old(self));
                let rows = old(self).data.snapshot.processes@;
                match selected_pid {
                    Some(pid) => if exists|k: int|
                        0 <= k < flat.len() && flat[k] < rows.len() && rows[flat[k] as int].pid
                            == pid {
                        final(self).view.selected < rows.len()
                            && rows[final(self).view.selected as int].pid == pid
                    } else {
                        final(self).view.selected == flat[0]
                    },
                    None => final(self).view.selected == flat[0],
                }
            },
            old(self).view.view_mode == ViewMode::Flat && flat_indexes_spec(*old(self)).len() > 0
                ==> restored_choice(*old(self), selected_pid, final(self).view.selected),
            old(self).view.view_mode == ViewMode::Tree && flat_indexes_spec(*old(self)).len() > 0
                ==> exists|chosen: usize, mid: ProcessTreeState|
                #![trigger restored_choice(*old(self), selected_pid, chosen), selection_shown(with_selected(*old(self), chosen), mid)]
                restored_choice(*old(self), selected_pid, chosen) && selection_shown(
                    with_selected(*old(self), chosen),
                    mid,
                ) && final(self).tree == mid && final(self).view.selected == if exists|v: int|
                    selected_row_spec(with_tree(with_selected(*old(self), chosen), mid), v) {
                    chosen as int
                } else if mid.rows@.len() > 0 {
                    mid.rows@[0].process_index as int
                } else {
                    chosen as int
                },
    {
        let flat = self.current_flat_process_indexes();
        if flat.len() == 0 {
            self.view.selected = 0;
            self.view.scroll_offset = 0;
            return;
        }
        let n = self.data.snapshot.processes.len();
        let chosen = match selected_pid {
            Some(pid) => match first_listed_with_pid(flat.as_slice(), self.data.snapshot.processes.as_slice(), pid) {
                Some(index) => index,
                None => flat[0],
            },
            None => flat[0],
        };
        self.view.selected = chosen;
        assert(restored_choice(*old(self), selected_pid, chosen));
        assert(*self == with_selected(*old(self), chosen));
        let ghost mut mid = self.tree;
        if self.view.view_mode == ViewMode::Tree {
            self.ensure_tree_selection_visible();
            proof {
                mid = self.tree;
            }
            let ghost shown = with_tree(with_selected(*old(self), chosen), mid);
            assert(forall|v: int|
                #![trigger selected_row_spec(*self, v)]
                #![trigger selected_row_spec(shown, v)]
                selected_row_spec(*self, v) == selected_row_spec(shown, v));
            match self.selected_visible_index() {
                Some(v) => {
                    assert(selected_row_spec(shown, v as int));
                    assert(exists|w: int| selected_row_spec(shown, w));
                    assert(self.view.selected == chosen);
                },
                None => {
                    assert(!exists|w: int| selected_row_spec(shown, w));
                    if self.tree.rows.len() > 0 {
                        self.view.selected = self.tree.rows[0].process_index;
                    }
                    assert(self.view.selected == if mid.rows@.len() > 0 {
                        mid.rows@[0].process_index as int
                    } else {
                        chosen as int
                    });
                },
            }
        }
        let ghost after = *self;
        if ensure_visible {
            self.ensure_visible();
        } else {
            self.clamp_scroll_offset();
        }
        assert(self.tree == after.tree);
        assert(self.view.selected == after.view.selected);
        assert(old(self).view.view_mode == ViewMode::Tree ==> restored_choice(
            *old(self),
            selected_pid,
            chosen,
        ) && selection_shown(with_selected(*old(self), chosen), mid) && self.tree == mid
            && self.view.selected == if exists|v: int|
            selected_row_spec(with_tree(with_selected(*old(self), chosen), mid), v) {
            chosen as int
        } else if mid.rows@.len() > 0 {
            mid.rows@[0].process_index as int
        } else {
            chosen as int
        });
    }
}

impl<C: SystemCollector> AppState<C> {
    /// Recomputes the listed processes and the tree from the rows and
    /// selects `selected_pid` again, scrolling to it when `scroll` holds,
    /// else only limiting the scroll offset.
    pub fn relist(&mut self, selected_pid: Option<i32>, scroll: bool)
        ensures
            listing_rebuilt(
                old(self).tree.expanded_pids@,
                old(self).data.snapshot.processes@,
                selected_pid,
                *final(self),
            ),
            final(self).data == old(self).data,
            same_but_selection(
                old(self).view,
                AppViewState { filtered_indexes: old(self).view.filtered_indexes, ..final(self).view },
            ),
            same_overlays(old(self).view, final(self).view),
    {
        let ghost rows = self.data.snapshot.processes@;
        let ghost expanded = self.tree.expanded_pids@;
        self.rebuild_filtered_indexes();
        self.rebuild_tree_rows();
        let ghost s1 = *self;
        let ghost t0 = self.tree;
        assert(tree_of(rows, s1.view.sort_state, expanded, t0));
        self.restore_selection(selected_pid, scroll);
        proof {
            assert(flat_indexes_spec(s1) == flat_indexes_spec(*self));
            if self.view.view_mode == ViewMode::Tree && flat_indexes_spec(*self).len() > 0 {
                let (chosen, mid) = choose|chosen: usize, mid: ProcessTreeState|
                    restored_choice(s1, selected_pid, chosen) && selection_shown(
                        with_selected(s1, chosen),
                        mid,
                    ) && self.tree == mid && self.view.selected == if exists|v: int|
                        selected_row_spec(with_tree(with_selected(s1, chosen), mid), v) {
                        chosen as int
                    } else if mid.rows@.len() > 0 {
                        mid.rows@[0].process_index as int
                    } else {
                        chosen as int
                    };
                assert(restored_choice(*self, selected_pid, chosen));
                assert(selection_ancestor_pids(with_selected(s1, chosen)) == pids_at(
                    rows,
                    ancestor_chain(t0.parents@, chosen as int, t0.parents@.len() as nat),
                ).to_set());
                assert(shown_in(rows, s1.view.sort_state, t0, chosen, self.tree));
                assert(forall|v: int|
                    #![trigger selected_row_spec(with_selected(*self, chosen), v)]
                    selected_row_spec(with_selected(*self, chosen), v) == selected_row_spec(
                        with_tree(with_selected(s1, chosen), mid),
                        v,
                    ));
                assert(self.view.selected == chosen || ((forall|v: int|
                    !selected_row_spec(with_selected(*self, chosen), v)) && self.tree.rows@.len() > 0
                    && self.view.selected == self.tree.rows@[0].process_index));
            } else {
                assert(self.tree == t0);
            }
            assert(same_rows_but_details(rows, self.data.snapshot.processes@));
            assert(self.view.filtered_indexes@ == matching_spec(self.view.filter@, rows, rows.len() as int));
        }
    }
}

/// The text of a filter modal row.
pub open spec fn modal_text_spec(m: FilterModalState, row: FilterRow) -> Seq<char> {
    match row {
        FilterRow::Pid => m.pid@,
        FilterRow::Ppid => m.ppid@,
        FilterRow::Name => m.name@,
        FilterRow::Command => m.command@,
        FilterRow::Rss => m.rss_value@,
        FilterRow::Swap => m.swap_value@,
        FilterRow::Cpu => m.cpu_value@,
        FilterRow::Uss => m.uss_value@,
        FilterRow::Pss => m.pss_value@,
    }
}

/// The row of the filter modal that is selected (the first one when the
/// selection is out of range).
pub open spec fn selected_filter_row(m: FilterModalState) -> FilterRow {
    if m.selected < 9 {
        filter_rows()[m.selected as int]
    } else {
        FilterRow::Pid
    }
}

/// Whether `b` is `a` with only the text of `row` replaced by `text`.
pub open spec fn modal_with_text(a: FilterModalState, b: FilterModalState, row: FilterRow, text: Seq<
    char,
>) -> bool {
    &&& b.open == a.open
    &&& b.selected == a.selected
    &&& b.editing == a.editing
    &&& b.rss_op == a.rss_op
    &&& b.swap_op == a.swap_op
    &&& b.cpu_op == a.cpu_op
    &&& b.uss_op == a.uss_op
    &&& b.pss_op == a.pss_op
    &&& forall|r: FilterRow|
        #[trigger] modal_text_spec(b, r) == if r == row {
            text
        } else {
            modal_text_spec(a, r)
        }
}

/// The operator of a metric row.
pub open spec fn modal_operator_spec(m: FilterModalState, row: FilterRow) -> MetricFilterOperator {
    match row {
        FilterRow::Rss => m.rss_op,
        FilterRow::Swap => m.swap_op,
        FilterRow::Cpu => m.cpu_op,
        FilterRow::Uss => m.uss_op,
        _ => m.pss_op,
    }
}

/// The text of a filter modal row, copied.
pub fn modal_text(modal: &FilterModalState, row: FilterRow) -> (r: String)
    ensures
        r@ == modal_text_spec(*modal, row),
{
    let t = match row {
        FilterRow::Pid => modal.pid.as_str(),
        FilterRow::Ppid => modal.ppid.as_str(),
        FilterRow::Name => modal.name.as_str(),
        FilterRow::Command => modal.command.as_str(),
        FilterRow::Rss => modal.rss_value.as_str(),
        FilterRow::Swap => modal.swap_value.as_str(),
        FilterRow::Cpu => modal.cpu_value.as_str(),
        FilterRow::Uss => modal.uss_value.as_str(),
        FilterRow::Pss => modal.pss_value.as_str(),
    };
    crate::columns::owned_string(t)
}

/// Replaces the text of a filter modal row.
pub fn set_modal_text(modal: &mut FilterModalState, row: FilterRow, text: String)
    ensures
        modal_with_text(*old(modal), *final(modal), row, text@),
        final(modal).error == old(modal).error,
{
    match row {
        FilterRow::Pid => modal.pid = text,
        FilterRow::Ppid => modal.ppid = text,
        FilterRow::Name => modal.name = text,
        FilterRow::Command => modal.command = text,
        FilterRow::Rss => modal.rss_value = text,
        FilterRow::Swap => modal.swap_value = text,
        FilterRow::Cpu => modal.cpu_value = text,
        FilterRow::Uss => modal.uss_value = text,
        FilterRow::Pss => modal.pss_value = text,
    }
}

impl<C: SystemCollector> AppState<C> {
    /// Pauses or resumes refreshing.
    pub fn toggle_pause(&mut self)
        ensures
            view_command_effect(AppCommand::TogglePause, old(self).view, final(self).view),
            final(self).view.paused == !old(self).view.paused,
            final(self).data == old(self).data,
            final(self).tree == old(self).tree,
    {
        self.view.paused = !self.view.paused;
    }

    /// Opens or closes the column picker; opening it closes the sort picker
    /// and the filter modal. The highlighted row stays within the columns.
    pub fn toggle_column_picker(&mut self)
        ensures
            view_command_effect(AppCommand::ToggleColumnPicker, old(self).view, final(self).view),
            final(self).tree == old(self).tree,
            final(self).view.column_picker_open == !old(self).view.column_picker_open,
            final(self).view.column_picker_open ==> !final(self).view.sort_picker_open
                && !final(self).view.filter_modal.open && !final(self).view.filter_modal.editing,
            !final(self).view.column_picker_open ==> final(self).view.sort_picker_open == old(self).view.sort_picker_open && final(self).view.filter_modal.open == old(self).view.filter_modal.open,
            final(self).view.column_picker_index == if old(self).view.column_picker_index < 10 {
                old(self).view.column_picker_index
            } else {
                10
            },
            final(self).data == old(self).data,
    {
        self.view.column_picker_open = !self.view.column_picker_open;
        if self.view.column_picker_open {
            self.view.sort_picker_open = false;
            self.view.filter_modal.open = false;
            self.view.filter_modal.editing = false;
        }
        if self.view.column_picker_index > 10 {
            self.view.column_picker_index = 10;
        }
    }

    /// Opens or closes the sort picker; opening it closes the column picker
    /// and the filter modal and highlights the current sort key.
    pub fn toggle_sort_picker(&mut self)
        ensures
            view_command_effect(AppCommand::ToggleSortPicker, old(self).view, final(self).view),
            final(self).tree == old(self).tree,
            final(self).view.sort_picker_open == !old(self).view.sort_picker_open,
            final(self).view.sort_picker_open ==> !final(self).view.column_picker_open
                && !final(self).view.filter_modal.open && !final(self).view.filter_modal.editing
                && crate::snapshot::sort_key_seq()[final(self).view.sort_picker_index as int]
                == old(self).view.sort_state.key && final(self).view.sort_picker_index < 8,
            !final(self).view.sort_picker_open ==> final(self).view.column_picker_open == old(self).view.column_picker_open && final(self).view.sort_picker_index == old(self).view.sort_picker_index,
            final(self).data == old(self).data,
            final(self).view.sort_state == old(self).view.sort_state,
    {
        self.view.sort_picker_open = !self.view.sort_picker_open;
        if self.view.sort_picker_open {
            self.view.column_picker_open = false;
            self.view.filter_modal.open = false;
            self.view.filter_modal.editing = false;
            self.view.sort_picker_index = sort_key_index(self.view.sort_state.key);
        }
    }

    /// Closes every overlay.
    pub fn close_overlay(&mut self)
        ensures
            view_command_effect(AppCommand::CloseOverlay, old(self).view, final(self).view),
            final(self).tree == old(self).tree,
            !final(self).view.column_picker_open,
            !final(self).view.sort_picker_open,
            !final(self).view.filter_modal.open,
            !final(self).view.filter_modal.editing,
            !final(self).view.process_monitor_open,
            final(self).data == old(self).data,
            final(self).view.selected == old(self).view.selected,
    {
        self.view.column_picker_open = false;
        self.view.sort_picker_open = false;
        self.view.filter_modal.open = false;
        self.view.filter_modal.editing = false;
        self.view.process_monitor_open = false;
    }

    /// Opens or closes the filter modal, never in editing; opening it closes
    /// the pickers.
    pub fn toggle_filter_modal(&mut self)
        ensures
            view_command_effect(AppCommand::ToggleFilterModal, old(self).view, final(self).view),
            final(self).tree == old(self).tree,
            final(self).view.filter_modal.open == !old(self).view.filter_modal.open,
            !final(self).view.filter_modal.editing,
            final(self).view.filter_modal.open ==> !final(self).view.column_picker_open
                && !final(self).view.sort_picker_open,
            final(self).data == old(self).data,
    {
        let now_open = !self.view.filter_modal.open;
        self.view.filter_modal.open = now_open;
        self.view.filter_modal.editing = false;
        if now_open {
            self.view.column_picker_open = false;
            self.view.sort_picker_open = false;
        }
    }

    /// Moves the highlighted filter row by `delta` when the modal is open
    /// and not editing.
    pub fn move_filter_selection(&mut self, delta: isize)
        ensures
            view_command_effect(AppCommand::MoveFilterSelection(delta), old(self).view, final(self).view),
            final(self).tree == old(self).tree,
            final(self).view.filter_modal.selected == if old(self).view.filter_modal.open
                && !old(self).view.filter_modal.editing {
                moved_index_spec(old(self).view.filter_modal.selected, delta, 8)
            } else {
                old(self).view.filter_modal.selected
            },
            final(self).data == old(self).data,
            final(self).view.filter_modal.open == old(self).view.filter_modal.open,
            final(self).view.filter_modal.editing == old(self).view.filter_modal.editing,
    {
        if !self.view.filter_modal.open || self.view.filter_modal.editing {
            return;
        }
        self.view.filter_modal.selected = moved_index(self.view.filter_modal.selected, delta, 8);
    }

    /// Starts or stops editing the highlighted filter row when the modal is
    /// open.
    pub fn toggle_filter_editing(&mut self)
        ensures
            view_command_effect(AppCommand::ToggleFilterEditing, old(self).view, final(self).view),
            final(self).tree == old(self).tree,
            final(self).view.filter_modal.editing == if old(self).view.filter_modal.open {
                !old(self).view.filter_modal.editing
            } else {
                old(self).view.filter_modal.editing
            },
            final(self).view.filter_modal.open == old(self).view.filter_modal.open,
            final(self).data == old(self).data,
    {
        if !self.view.filter_modal.open {
            return;
        }
        self.view.filter_modal.editing = !self.view.filter_modal.editing;
    }

    /// The highlighted filter row.
    pub fn filter_selected_row(&self) -> (r: FilterRow)
        ensures
            r == selected_filter_row(self.view.filter_modal),
    {
        match FilterRow::from_index(self.view.filter_modal.selected) {
            Some(row) => row,
            None => FilterRow::Pid,
        }
    }

    /// Moves the highlighted column picker row by `delta` when the picker is
    /// open, staying within the columns.
    pub fn move_column_picker(&mut self, delta: isize)
        ensures
            view_command_effect(AppCommand::MoveColumnPicker(delta), old(self).view, final(self).view),
            final(self).tree == old(self).tree,
            final(self).view.column_picker_index == if old(self).view.column_picker_open {
                moved_index_spec(old(self).view.column_picker_index, delta, 10)
            } else {
                old(self).view.column_picker_index
            },
            final(self).data == old(self).data,
            final(self).view.column_picker_open == old(self).view.column_picker_open,
    {
        if !self.view.column_picker_open {
            return;
        }
        self.view.column_picker_index = moved_index(self.view.column_picker_index, delta, 10);
    }

    /// Moves the highlighted sort picker row by `delta` when the picker is
    /// open, staying within the sort keys.
    pub fn move_sort_picker(&mut self, delta: isize)
        ensures
            view_command_effect(AppCommand::MoveSortPicker(delta), old(self).view, final(self).view),
            final(self).tree == old(self).tree,
            final(self).view.sort_picker_index == if old(self).view.sort_picker_open {
                moved_index_spec(old(self).view.sort_picker_index, delta, 7)
            } else {
                old(self).view.sort_picker_index
            },
            final(self).data == old(self).data,
            final(self).view.sort_picker_open == old(self).view.sort_picker_open,
    {
        if !self.view.sort_picker_open {
            return;
        }
        self.view.sort_picker_index = moved_index(self.view.sort_picker_index, delta, 7);
    }

    /// The sort key highlighted in the sort picker.
    pub fn selected_sort_key(&self) -> (r: Option<SortKey>)
        ensures
            r == (if self.view.sort_picker_index < 8 {
                Some(crate::snapshot::sort_key_seq()[self.view.sort_picker_index as int])
            } else {
                None
            }),
    {
        SortKey::nth(self.view.sort_picker_index)
    }

    /// Closes the process monitor overlay; the monitor keeps its samples.
    pub fn close_process_monitor_overlay(&mut self)
        ensures
            view_command_effect(AppCommand::CloseProcessMonitorOverlay, old(self).view, final(self).view),
            final(self).tree == old(self).tree,
            !final(self).view.process_monitor_open,
            final(self).data == old(self).data,
    {
        self.view.process_monitor_open = false;
    }
}

impl<C: SystemCollector> AppState<C> {
    /// Rebuilds the filter from the modal, loads the values it compares,
    /// recomputes the listed processes and the tree, selects the previous
    /// process again and marks the preferences changed. `parse_value` reads
    /// metric texts.
    #[verifier::rlimit(60)]
    pub fn apply_filter_modal<F: Fn(MetricFilterField, &str) -> Option<MetricFilterValue>>(
        &mut self,
        parse_value: &F,
    )
        requires
            forall|field: MetricFilterField, text: &str| #[trigger] parse_value.requires((field, text)),
        ensures
            same_overlays(old(self).view, final(self).view),
            exists|parsed: Seq<Option<MetricFilterValue>>|
                parsed.len() == 5 && final(self).view.filter@ == modal_predicates(
                    old(self).view.filter_modal,
                    parsed,
                ) && crate::filter::message_view(final(self).view.filter_modal.error) == modal_error(
                    old(self).view.filter_modal,
                    parsed,
                ),
            modal_with_text(
                old(self).view.filter_modal,
                final(self).view.filter_modal,
                FilterRow::Pid,
                old(self).view.filter_modal.pid@,
            ),
            relisted(*old(self), *final(self)),
            filter_applied(*final(self)),
            final(self).view.view_mode == old(self).view.view_mode,
            final(self).view.sort_state == old(self).view.sort_state,
            final(self).config_changed,
    {
        let selected_pid = self.selected_pid();
        let ghost rows0 = self.data.snapshot.processes@;
        let (filter, error) = try_build_filter_from_modal(&self.view.filter_modal, parse_value);
        let ghost parsed = choose|parsed: Seq<Option<MetricFilterValue>>|
            parsed.len() == 5 && filter@ == modal_predicates(self.view.filter_modal, parsed)
                && crate::filter::message_view(error) == modal_error(self.view.filter_modal, parsed);
        self.view.filter = filter;
        self.view.filter_modal.error = error;
        self.populate_filter_details();
        let ghost mid = self.data.snapshot.processes@;
        let ghost expanded = self.tree.expanded_pids@;
        self.relist(selected_pid, true);
        let ghost listed = *self;
        self.populate_visible_details();
        self.config_changed = true;
        proof {
            lemma_listing_details(expanded, mid, selected_pid, listed, *self);
            assert(same_rows_but_details(rows0, mid));
            assert(listing_rebuilt(old(self).tree.expanded_pids@, mid, selected_pid_spec(*old(self)), *self));
        }
        assert(parsed.len() == 5 && self.view.filter@ == modal_predicates(
            old(self).view.filter_modal,
            parsed,
        ));
        assert(modal_predicates(self.view.filter_modal, parsed) == modal_predicates(
            old(self).view.filter_modal,
            parsed,
        ));
        assert(modal_error(self.view.filter_modal, parsed) == modal_error(
            old(self).view.filter_modal,
            parsed,
        ));
    }

    /// Types `ch` into the filter row being edited and applies the filter.
    pub fn filter_push_char<F: Fn(MetricFilterField, &str) -> Option<MetricFilterValue>>(
        &mut self,
        ch: char,
        parse_value: &F,
    )
        requires
            forall|field: MetricFilterField, text: &str| #[trigger] parse_value.requires((field, text)),
        ensures
            same_overlays(old(self).view, final(self).view),
            !(old(self).view.filter_modal.open && old(self).view.filter_modal.editing) ==> final(self).view.filter_modal == old(self).view.filter_modal && final(self).data == old(self).data,
            old(self).view.filter_modal.open && old(self).view.filter_modal.editing ==> {
                let row = selected_filter_row(old(self).view.filter_modal);
                modal_text_spec(final(self).view.filter_modal, row) == modal_text_spec(
                    old(self).view.filter_modal,
                    row,
                ).push(ch)
            },
            old(self).view.filter_modal.open && old(self).view.filter_modal.editing ==> filter_applied(
                *final(self),
            ) && relisted(*old(self), *final(self)),
    {
        if !self.view.filter_modal.open || !self.view.filter_modal.editing {
            return;
        }
        let row = self.filter_selected_row();
        let mut text = modal_text(&self.view.filter_modal, row);
        push_char(&mut text, ch);
        set_modal_text(&mut self.view.filter_modal, row, text);
        let ghost mid = self.view.filter_modal;
        let ghost before = *self;
        self.apply_filter_modal(parse_value);
        proof {
            lemma_relisted_same_start(before, *old(self), *self);
        }
        assert(modal_text_spec(self.view.filter_modal, row) == modal_text_spec(mid, row));
    }

    /// Deletes the last character of the filter row being edited and
    /// applies the filter.
    pub fn filter_pop_char<F: Fn(MetricFilterField, &str) -> Option<MetricFilterValue>>(
        &mut self,
        parse_value: &F,
    )
        requires
            forall|field: MetricFilterField, text: &str| #[trigger] parse_value.requires((field, text)),
        ensures
            same_overlays(old(self).view, final(self).view),
            !(old(self).view.filter_modal.open && old(self).view.filter_modal.editing) ==> final(self).view.filter_modal == old(self).view.filter_modal && final(self).data == old(self).data,
            old(self).view.filter_modal.open && old(self).view.filter_modal.editing ==> {
                let row = selected_filter_row(old(self).view.filter_modal);
                let t = modal_text_spec(old(self).view.filter_modal, row);
                modal_text_spec(final(self).view.filter_modal, row) == if t.len() > 0 {
                    t.drop_last()
                } else {
                    t
                }
            },
            old(self).view.filter_modal.open && old(self).view.filter_modal.editing ==> filter_applied(
                *final(self),
            ) && relisted(*old(self), *final(self)),
    {
        if !self.view.filter_modal.open || !self.view.filter_modal.editing {
            return;
        }
        let row = self.filter_selected_row();
        let text = modal_text(&self.view.filter_modal, row);
        let mut cs = chars_of(text.as_str());
        if cs.len() > 0 {
            cs.pop();
        }
        let shorter = string_from_chars(cs.as_slice());
        set_modal_text(&mut self.view.filter_modal, row, shorter);
        let ghost mid = self.view.filter_modal;
        let ghost before = *self;
        self.apply_filter_modal(parse_value);
        proof {
            lemma_relisted_same_start(before, *old(self), *self);
        }
        assert(modal_text_spec(self.view.filter_modal, row) == modal_text_spec(mid, row));
    }

    /// Empties the filter row being edited and applies the filter.
    pub fn filter_clear<F: Fn(MetricFilterField, &str) -> Option<MetricFilterValue>>(
        &mut self,
        parse_value: &F,
    )
        requires
            forall|field: MetricFilterField, text: &str| #[trigger] parse_value.requires((field, text)),
        ensures
            same_overlays(old(self).view, final(self).view),
            !(old(self).view.filter_modal.open && old(self).view.filter_modal.editing) ==> final(self).view.filter_modal == old(self).view.filter_modal && final(self).data == old(self).data,
            old(self).view.filter_modal.open && old(self).view.filter_modal.editing ==> modal_text_spec(
                final(self).view.filter_modal,
                selected_filter_row(old(self).view.filter_modal),
            ).len() == 0,
            old(self).view.filter_modal.open && old(self).view.filter_modal.editing ==> filter_applied(
                *final(self),
            ) && relisted(*old(self), *final(self)),
    {
        if !self.view.filter_modal.open || !self.view.filter_modal.editing {
            return;
        }
        let row = self.filter_selected_row();
        set_modal_text(&mut self.view.filter_modal, row, String::new());
        let ghost mid = self.view.filter_modal;
        let ghost before = *self;
        self.apply_filter_modal(parse_value);
        proof {
            lemma_relisted_same_start(before, *old(self), *self);
        }
        assert(modal_text_spec(self.view.filter_modal, row) == modal_text_spec(mid, row));
    }

    /// Moves the operator of the highlighted metric row `delta` steps along
    /// the cycle and applies the filter, when the modal is open and not
    /// editing.
    pub fn filter_cycle_operator<F: Fn(MetricFilterField, &str) -> Option<MetricFilterValue>>(
        &mut self,
        delta: isize,
        parse_value: &F,
    )
        requires
            forall|field: MetricFilterField, text: &str| #[trigger] parse_value.requires((field, text)),
        ensures
            same_overlays(old(self).view, final(self).view),
            ({
                let row = selected_filter_row(old(self).view.filter_modal);
                let applies = old(self).view.filter_modal.open && !old(self).view.filter_modal.editing && (row is Rss || row is Swap || row is Cpu
                    || row is Uss || row is Pss);
                &&& !applies ==> final(self).view.filter_modal == old(self).view.filter_modal
                    && final(self).data == old(self).data
                &&& applies ==> modal_operator_spec(final(self).view.filter_modal, row) == cycled(
                    modal_operator_spec(old(self).view.filter_modal, row),
                    delta as int,
                ) && filter_applied(*final(self)) && relisted(*old(self), *final(self))
            }),
    {
        if !self.view.filter_modal.open || self.view.filter_modal.editing {
            return;
        }
        let row = self.filter_selected_row();
        if !row.is_metric() {
            return;
        }
        match row {
            FilterRow::Rss => self.view.filter_modal.rss_op = self.view.filter_modal.rss_op.cycle(delta),
            FilterRow::Swap => self.view.filter_modal.swap_op = self.view.filter_modal.swap_op.cycle(delta),
            FilterRow::Cpu => self.view.filter_modal.cpu_op = self.view.filter_modal.cpu_op.cycle(delta),
            FilterRow::Uss => self.view.filter_modal.uss_op = self.view.filter_modal.uss_op.cycle(delta),
            _ => self.view.filter_modal.pss_op = self.view.filter_modal.pss_op.cycle(delta),
        }
        let ghost mid = self.view.filter_modal;
        let ghost before = *self;
        self.apply_filter_modal(parse_value);
        proof {
            lemma_relisted_same_start(before, *old(self), *self);
        }
        assert(modal_operator_spec(self.view.filter_modal, row) == modal_operator_spec(mid, row));
    }

    /// Chooses `sort_key` (the same key again flips the direction), sorts,
    /// recomputes the listed processes and the tree, selects the previous
    /// process again and marks the preferences changed.
    pub fn resort(&mut self, sort_key: SortKey)
        ensures
            same_overlays(old(self).view, final(self).view),
            final(self).view.sort_state.key == sort_key,
            final(self).view.sort_state.direction == if old(self).view.sort_state.key == sort_key {
                crate::snapshot::flipped(old(self).view.sort_state.direction)
            } else {
                crate::snapshot::default_direction_spec(sort_key)
            },
            final(self).view.view_mode == old(self).view.view_mode,
            final(self).config_changed,
            sorted_rows(
                final(self).view.sort_state,
                old(self).data.snapshot.processes@,
                final(self).data.snapshot.processes@,
            ),
            resorted(*old(self), *final(self)),
    {
        self.view.sort_state.toggle_key(sort_key);
        let selected_pid = self.selected_pid();
        let ghost unsorted = self.data.snapshot.processes@;
        self.sort_current_processes();
        let ghost sorted = self.data.snapshot.processes@;
        let ghost expanded = self.tree.expanded_pids@;
        self.relist(selected_pid, true);
        let ghost listed = *self;
        self.populate_visible_details();
        self.config_changed = true;
        proof {
            lemma_listing_details(expanded, sorted, selected_pid, listed, *self);
            lemma_same_rows_but_details_trans(sorted, listed.data.snapshot.processes@, self.data.snapshot.processes@);
            lemma_same_rows_pids(sorted, self.data.snapshot.processes@);
            let names = choose|names: Seq<Seq<char>>|
                names.len() == unsorted.len() && is_sorted_table(self.view.sort_state, unsorted, names, sorted);
            assert(listing_rebuilt(old(self).tree.expanded_pids@, sorted, selected_pid_spec(*old(self)), *self));
            assert(is_sorted_table(self.view.sort_state, old(self).data.snapshot.processes@, names, sorted));
        }
    }

    /// Applies the sort key highlighted in the sort picker.
    pub fn apply_selected_sort(&mut self)
        ensures
            same_overlays(old(self).view, final(self).view),
            old(self).view.sort_picker_index < 8 ==> final(self).view.sort_state == picked_sort(
                old(self).view.sort_state,
                crate::snapshot::sort_key_seq()[old(self).view.sort_picker_index as int],
            ) && sorted_rows(
                final(self).view.sort_state,
                old(self).data.snapshot.processes@,
                final(self).data.snapshot.processes@,
            ) && resorted(*old(self), *final(self)),
            old(self).view.sort_picker_index >= 8 ==> final(self).view.sort_state == old(self).view.sort_state,
    {
        match self.selected_sort_key() {
            Some(key) => self.resort(key),
            None => {},
        }
    }

    /// Falls back to sorting by RSS, descending, when the column of the sort
    /// key is hidden.
    pub fn ensure_sort_key_visible(&mut self)
        ensures
            same_overlays(old(self).view, final(self).view),
            ({
                let c = crate::columns::column_of_sort_key(old(self).view.sort_state.key);
                if old(self).view.columns.visible()[crate::columns::column_index(c)] {
                    final(self).view == old(self).view && final(self).data == old(self).data
                        && final(self).tree == old(self).tree
                } else {
                    final(self).view.sort_state == (SortState {
                        key: SortKey::Rss,
                        direction: SortDirection::Descending,
                    }) && sorted_rows(
                        final(self).view.sort_state,
                        old(self).data.snapshot.processes@,
                        final(self).data.snapshot.processes@,
                    ) && resorted(*old(self), *final(self))
                }
            }),
            final(self).view.columns == old(self).view.columns,
    {
        let column = match ProcessColumn::from_sort_key(self.view.sort_state.key) {
            Some(c) => c,
            None => {
                return;
            },
        };
        if self.view.columns.is_visible(column) {
            return;
        }
        let selected_pid = self.selected_pid();
        self.view.sort_state = SortState::new(SortKey::Rss, SortDirection::Descending);
        let ghost unsorted = self.data.snapshot.processes@;
        self.sort_current_processes();
        let ghost sorted = self.data.snapshot.processes@;
        self.relist(selected_pid, true);
        proof {
            lemma_same_rows_pids(sorted, self.data.snapshot.processes@);
            let names = choose|names: Seq<Seq<char>>|
                names.len() == unsorted.len() && is_sorted_table(self.view.sort_state, unsorted, names, sorted);
            assert(listing_rebuilt(old(self).tree.expanded_pids@, sorted, selected_pid_spec(*old(self)), *self));
            assert(is_sorted_table(self.view.sort_state, old(self).data.snapshot.processes@, names, sorted));
        }
    }

    /// Shows or hides the column highlighted in the column picker, when it
    /// is open; a hidden sort column falls back to sorting by RSS.
    pub fn toggle_selected_column(&mut self)
        ensures
            same_overlays(old(self).view, final(self).view),
            !old(self).view.column_picker_open ==> final(self).view.columns == old(self).view.columns,
            old(self).view.column_picker_open && old(self).view.columns.wf()
                && old(self).view.column_picker_index < 11 ==> {
                let c = old(self).view.columns.order()[old(self).view.column_picker_index as int];
                let i = crate::columns::column_index(c);
                let changed = c != ProcessColumn::Name && !(crate::columns::count_true(
                    old(self).view.columns.visible(),
                ) == 1 && old(self).view.columns.visible()[i]);
                &&& final(self).view.columns.wf()
                &&& final(self).view.columns.order() == old(self).view.columns.order()
                &&& final(self).view.columns.visible() == if changed {
                    old(self).view.columns.visible().update(i, !old(self).view.columns.visible()[i])
                } else {
                    old(self).view.columns.visible()
                }
                &&& column_toggle_sort(*old(self), *final(self), changed)
            },
    {
        if !self.view.column_picker_open || !self.view.columns.is_well_formed() {
            return;
        }
        let column = match self.view.columns.column_at(self.view.column_picker_index) {
            Some(c) => c,
            None => {
                return;
            },
        };
        if self.view.columns.toggle(column) {
            self.ensure_sort_key_visible();
            self.populate_visible_details();
            self.config_changed = true;
        }
    }

    /// Moves the column highlighted in the column picker `delta` places,
    /// when the picker is open; the highlight follows the column.
    pub fn reorder_selected_column(&mut self, delta: isize)
        ensures
            same_overlays(old(self).view, final(self).view),
            !old(self).view.column_picker_open ==> final(self).view.columns == old(self).view.columns,
            old(self).view.column_picker_open && old(self).view.columns.wf() ==> {
                let t = crate::columns::moved_target(
                    old(self).view.column_picker_index as int,
                    delta as int,
                    11,
                );
                &&& final(self).view.columns.wf()
                &&& final(self).view.columns.visible() == old(self).view.columns.visible()
                &&& match t {
                    Some(target) => final(self).view.column_picker_index == target
                        && final(self).view.columns.order() == old(self).view.columns.order().update(
                        old(self).view.column_picker_index as int,
                        old(self).view.columns.order()[target as int],
                    ).update(
                        target as int,
                        old(self).view.columns.order()[old(self).view.column_picker_index as int],
                    ),
                    None => final(self).view.columns.order() == old(self).view.columns.order()
                        && final(self).view.column_picker_index == old(self).view.column_picker_index,
                }
            },
    {
        if !self.view.column_picker_open || !self.view.columns.is_well_formed() {
            return;
        }
        match self.view.columns.move_in_order(self.view.column_picker_index, delta) {
            Some(next) => {
                self.view.column_picker_index = next;
                self.config_changed = true;
            },
            None => {},
        }
    }

    /// Switches between the flat and the tree view, keeping the selection
    /// shown, and marks the preferences changed.
    pub fn toggle_view_mode(&mut self)
        ensures
            same_overlays(old(self).view, final(self).view),
            final(self).view.view_mode != old(self).view.view_mode,
            final(self).view.selected == old(self).view.selected,
            old(self).view.view_mode == ViewMode::Flat ==> selection_shown(*old(self), final(self).tree),
            old(self).view.view_mode == ViewMode::Tree ==> final(self).tree == old(self).tree,
            same_data_but_rows(old(self).data, final(self).data),
            same_rows_but_details(old(self).data.snapshot.processes@, final(self).data.snapshot.processes@),
            final(self).config_changed,
            final(self).view == (AppViewState {
                view_mode: final(self).view.view_mode,
                scroll_offset: final(self).view.scroll_offset,
                ..old(self).view
            }),
            scrolled_into_view(
                AppState {
                    view: AppViewState { view_mode: final(self).view.view_mode, ..old(self).view },
                    tree: final(self).tree,
                    ..*old(self)
                },
                final(self).view.scroll_offset,
            ),
    {
        self.view.view_mode = self.view.view_mode.toggle();
        if self.view.view_mode == ViewMode::Tree {
            let ghost before = *self;
            self.ensure_tree_selection_visible();
            assert(selection_ancestor_pids(before) == selection_ancestor_pids(*old(self)));
            assert(selection_shown(*old(self), self.tree));
        }
        let ghost shown = *self;
        self.ensure_visible();
        self.populate_visible_details();
        self.config_changed = true;
        assert(shown == AppState {
            view: AppViewState { view_mode: self.view.view_mode, ..old(self).view },
            tree: self.tree,
            ..*old(self)
        });
    }

    /// Moves the selection `delta` rows in the current view, limited to the
    /// listed rows, and scrolls it into view.
    pub fn move_selection(&mut self, delta: isize)
        ensures
            same_overlays(old(self).view, final(self).view),
            final(self).view.view_mode == old(self).view.view_mode,
            total_rows_spec(*old(self)) == 0 ==> final(self).view.selected == old(self).view.selected,
            old(self).view.view_mode == ViewMode::Flat ==> forall|c: int|
                #![trigger selected_row_spec(*old(self), c)]
                selected_row_spec(*old(self), c) && c + delta <= isize::MAX && c + delta
                    >= isize::MIN && total_rows_spec(*old(self)) <= isize::MAX ==> {
                    let t = total_rows_spec(*old(self));
                    let next = if c + delta < 0 {
                        0
                    } else if c + delta > t - 1 {
                        t - 1
                    } else {
                        c + delta
                    };
                    final(self).view.selected == flat_indexes_spec(*old(self))[next]
                },
            old(self).view.view_mode == ViewMode::Tree && total_rows_spec(*old(self)) > 0 ==> exists|
                mid: ProcessTreeState,
            |
                selection_shown(*old(self), mid) && #[trigger] tree_move_effect(
                    with_tree(*old(self), mid),
                    *final(self),
                    delta,
                ),
    {
        let total = self.total_visible_rows();
        if total == 0 {
            return;
        }
        let ghost mut m = *self;
        if self.view.view_mode == ViewMode::Tree {
            self.ensure_tree_selection_visible();
            proof {
                m = with_tree(*old(self), self.tree);
                assert(forall|v: int| selected_row_spec(*self, v) == selected_row_spec(m, v));
            }
        }
        let total = self.total_visible_rows();
        let current = self.selected_visible_index();
        let c = match current {
            Some(c) => c,
            None => {
                assert(self.view.view_mode == ViewMode::Tree ==> tree_move_effect(m, *self, delta));
                return;
            },
        };
        assert(forall|v: int| selected_row_spec(*self, v) ==> v == c);
        assert(self.view.view_mode == ViewMode::Tree ==> selected_row_spec(m, c as int));
        if total > isize::MAX as usize || c > isize::MAX as usize {
            assert(self.view.view_mode == ViewMode::Tree ==> tree_move_effect(m, *self, delta));
            return;
        }
        if delta > 0 && c as isize > isize::MAX - delta {
            assert(self.view.view_mode == ViewMode::Tree ==> tree_move_effect(m, *self, delta));
            return;
        }
        let next = match move_visible_index(current, delta, total) {
            Some(next) => next,
            None => {
                return;
            },
        };
        let target = match self.view.view_mode {
            ViewMode::Flat => match self.flat_process_index_at(next) {
                Some(index) => index,
                None => {
                    return;
                },
            },
            ViewMode::Tree => if next < self.tree.rows.len() {
                self.tree.rows[next].process_index
            } else {
                return;
            },
        };
        self.view.selected = target;
        let ghost after = *self;
        self.ensure_visible();
        self.populate_visible_details();
        assert(self.view.selected == after.view.selected);
        assert(self.view.view_mode == ViewMode::Tree ==> tree_move_effect(m, *self, delta));
    }

    /// Selects the first or the last listed process.
    pub fn jump_to_boundary(&mut self, to_start: bool)
        ensures
            same_overlays(old(self).view, final(self).view),
            final(self).view.view_mode == old(self).view.view_mode,
            old(self).view.view_mode == ViewMode::Flat ==> {
                let flat = flat_indexes_spec(*old(self));
                final(self).view.selected == if flat.len() == 0 {
                    0
                } else if to_start {
                    flat[0] as int
                } else {
                    flat[flat.len() - 1] as int
                }
            },
            old(self).view.view_mode == ViewMode::Tree ==> {
                let rows = old(self).tree.rows@;
                final(self).view.selected == if rows.len() == 0 {
                    0
                } else if to_start {
                    rows[0].process_index as int
                } else {
                    rows[rows.len() - 1].process_index as int
                }
            },
    {
        let target = match self.view.view_mode {
            ViewMode::Flat => {
                let flat = self.current_flat_process_indexes();
                if flat.len() == 0 {
                    0
                } else if to_start {
                    flat[0]
                } else {
                    flat[flat.len() - 1]
                }
            },
            ViewMode::Tree => boundary_selection(
                ViewMode::Tree,
                self.data.snapshot.processes.len(),
                self.tree.rows.as_slice(),
                to_start,
            ),
        };
        self.view.selected = target;
        self.ensure_visible();
        self.populate_visible_details();
    }
}

impl<C: SystemCollector> AppState<C> {
    /// Collapses the selected process in the tree view, or selects its
    /// parent when it is collapsed or has no children.
    pub fn handle_tree_left(&mut self)
        ensures
            same_overlays(old(self).view, final(self).view),
            old(self).view.view_mode != ViewMode::Tree ==> final(self).view == old(self).view
                && final(self).tree == old(self).tree,
            final(self).view.view_mode == old(self).view.view_mode,
            old(self).view.view_mode == ViewMode::Tree ==> exists|mid: ProcessTreeState|
                selection_shown(*old(self), mid) && #[trigger] tree_left_effect(
                    with_tree(*old(self), mid),
                    *final(self),
                ),
    {
        if self.view.view_mode != ViewMode::Tree {
            return;
        }
        self.ensure_tree_selection_visible();
        let ghost mid = self.tree;
        let ghost m = with_tree(*old(self), mid);
        assert(forall|v: int| selected_row_spec(*self, v) == selected_row_spec(m, v));
        let current = match self.selected_visible_index() {
            Some(c) => c,
            None => {
                assert(tree_left_effect(m, *self));
                return;
            },
        };
        let process_index = self.tree.rows[current].process_index;
        if process_index >= self.data.snapshot.processes.len() {
            assert(forall|v: int| selected_row_spec(m, v) ==> v == current);
            assert(tree_left_effect(m, *self));
            return;
        }
        let pid = self.data.snapshot.processes[process_index].pid;
        let has_children = self.tree.rows[current].has_children;
        let expanded = self.tree.rows[current].expanded;
        let parent_index = self.tree.rows[current].parent_index;
        assert(selected_row_spec(m, current as int));
        assert(forall|v: int| selected_row_spec(m, v) ==> v == current);
        if has_children && expanded {
            self.tree.expanded_pids.remove(&pid);
            assert(self.tree.expanded_pids@ == m.tree.expanded_pids@.remove(pid));
            self.rebuild_tree_rows();
        } else {
            match parent_index {
                Some(p) => {
                    self.view.selected = p;
                },
                None => {},
            }
        }
        let ghost after = *self;
        self.ensure_visible();
        self.populate_visible_details();
        assert(self.tree == after.tree);
        assert(self.view.selected == after.view.selected);
        assert(tree_left_effect(m, *self));
    }

    /// Expands the selected process in the tree view, or moves to its first
    /// child when it is expanded already.
    pub fn handle_tree_right(&mut self)
        ensures
            same_overlays(old(self).view, final(self).view),
            old(self).view.view_mode != ViewMode::Tree ==> final(self).view == old(self).view
                && final(self).tree == old(self).tree,
            final(self).view.view_mode == old(self).view.view_mode,
            old(self).view.view_mode == ViewMode::Tree ==> exists|mid: ProcessTreeState|
                selection_shown(*old(self), mid) && #[trigger] tree_right_effect(
                    with_tree(*old(self), mid),
                    *final(self),
                ),
    {
        if self.view.view_mode != ViewMode::Tree {
            return;
        }
        self.ensure_tree_selection_visible();
        let ghost mid = self.tree;
        let ghost m = with_tree(*old(self), mid);
        assert(forall|v: int| selected_row_spec(*self, v) == selected_row_spec(m, v));
        let current = match self.selected_visible_index() {
            Some(c) => c,
            None => {
                assert(tree_right_effect(m, *self));
                return;
            },
        };
        assert(selected_row_spec(m, current as int));
        assert(current < self.tree.rows.len());
        let process_index = self.tree.rows[current].process_index;
        if process_index >= self.data.snapshot.processes.len() {
            assert(forall|v: int| selected_row_spec(m, v) ==> v == current);
            assert(tree_right_effect(m, *self));
            return;
        }
        let pid = self.data.snapshot.processes[process_index].pid;
        let has_children = self.tree.rows[current].has_children;
        let expanded = self.tree.rows[current].expanded;
        assert(selected_row_spec(m, current as int));
        assert(forall|v: int| selected_row_spec(m, v) ==> v == current);
        if has_children && !expanded {
            self.tree.expanded_pids.insert(pid);
            assert(self.tree.expanded_pids@ == m.tree.expanded_pids@.insert(pid));
            self.rebuild_tree_rows();
        } else if has_children && expanded {
            if current + 1 < self.tree.rows.len() {
                let next_parent = self.tree.rows[current + 1].parent_index;
                let next_process = self.tree.rows[current + 1].process_index;
                if next_parent == Some(process_index) {
                    self.view.selected = next_process;
                }
            }
        }
        let ghost after = *self;
        self.ensure_visible();
        self.populate_visible_details();
        assert(self.tree == after.tree);
        assert(self.view.selected == after.view.selected);
        assert(tree_right_effect(m, *self));
    }

    /// Expands or collapses process `process_index` in the tree view.
    pub fn toggle_expansion(&mut self, process_index: usize)
        ensures
            same_overlays(old(self).view, final(self).view),
            final(self).view.view_mode == old(self).view.view_mode,
            final(self).view.selected == old(self).view.selected,
            process_index >= old(self).data.snapshot.processes@.len() ==> final(self).view == old(
                self).view && final(self).tree == old(self).tree && final(self).data == old(
                self).data,
            process_index < old(self).data.snapshot.processes@.len() ==> exists|t: ProcessTreeState|
                #![trigger tree_rebuilt(*old(self), crate::tree::toggled_pids(old(self).tree.expanded_pids@, old(self).data.snapshot.processes@[process_index as int].pid), t)]
                tree_rebuilt(
                    *old(self),
                    crate::tree::toggled_pids(
                        old(self).tree.expanded_pids@,
                        old(self).data.snapshot.processes@[process_index as int].pid,
                    ),
                    t,
                ) && selection_shown(with_tree(*old(self), t), final(self).tree),
            process_index < old(self).data.snapshot.processes@.len() ==> final(self).view == (
            AppViewState { scroll_offset: final(self).view.scroll_offset, ..old(self).view })
                && scrolled_into_view(with_tree(*old(self), final(self).tree), final(self).view.scroll_offset),
    {
        if process_index >= self.data.snapshot.processes.len() {
            return;
        }
        let pid = self.data.snapshot.processes[process_index].pid;
        crate::tree::toggle_pid_expansion(&mut self.tree.expanded_pids, pid);
        self.rebuild_tree_rows();
        let ghost t = self.tree;
        assert(tree_rebuilt(*old(self), crate::tree::toggled_pids(old(self).tree.expanded_pids@, pid), t));
        assert(*self == with_tree(*old(self), t));
        self.ensure_tree_selection_visible();
        let ghost after = *self;
        assert(after == with_tree(*old(self), after.tree));
        self.ensure_visible();
        self.populate_visible_details();
        assert(self.tree == after.tree);
    }

    /// Where the name column lies in the table: its first cell column and
    /// its width. The name column is placed after the border and the
    /// columns before it in the default order (process id, parent id,
    /// owner, threads), each with its spacing.
    pub fn name_column_bounds(&self) -> (r: Option<(u16, u16)>)
        ensures
            match self.view.process_table_area {
                Some(area) => r matches Some((start, width)) && start == name_column_start(area.x)
                    && width == crate::columns::column_width_spec(
                    ProcessColumn::Name,
                    self.view.view_mode,
                ),
                None => r is None,
            },
    {
        let area = match self.view.process_table_area {
            Some(a) => a,
            None => {
                return None;
            },
        };
        let mut start = area.x.saturating_add(1);
        let mut k: usize = 0;
        while k < 4
            invariant
                k <= 4,
                start == saturated_u16(area.x + 1 + leading_widths(k as int)),
            decreases 4 - k,
        {
            let column = ProcessColumn::from_index(k);
            let width = column.width(self.view.view_mode);
            proof {
                assert(k == 0 || k == 1 || k == 2 || k == 3);
                assert(width == crate::columns::column_width_spec(column, ViewMode::Flat));
                assert(leading_widths(k + 1) == leading_widths(k as int) + width + 1);
            }
            start = start.saturating_add(width).saturating_add(1);
            k = k + 1;
        }
        Some((start, ProcessColumn::Name.width(self.view.view_mode)))
    }

    /// Whether a click at `column` hits the expand toggle of `row` in the
    /// tree view.
    pub fn is_tree_toggle_click(&self, column: u16, row: &TreeRow) -> (r: bool)
        ensures
            r == toggle_click_spec(*self, column, row@),
    {
        if self.view.view_mode != ViewMode::Tree || !row.has_children {
            return false;
        }
        let (name_start, name_width) = match self.name_column_bounds() {
            Some(b) => b,
            None => {
                return false;
            },
        };
        let (toggle_offset, toggle_width) = match row.name_toggle_range() {
            Some(t) => t,
            None => {
                return false;
            },
        };
        let name_end = name_start.saturating_add(name_width.saturating_sub(1));
        if column < name_start || column > name_end {
            return false;
        }
        let toggle_start = name_start.saturating_add(toggle_offset);
        let toggle_end = toggle_start.saturating_add(toggle_width.saturating_sub(1));
        toggle_start <= column && column <= toggle_end
    }

    /// Selects the row under a click; a click on the toggle of a tree row
    /// expands or collapses it.
    pub fn select_process_at(&mut self, column: u16, row: u16)
        ensures
            click_effect(*old(self), *final(self), column, row),
    {
        let area = match self.view.process_table_area {
            Some(a) => a,
            None => {
                return;
            },
        };
        let data_row = match table_hit_test(area, column, row) {
            Some(d) => d,
            None => {
                return;
            },
        };
        let visible_index = self.view.scroll_offset.saturating_add(data_row);
        let process_index = match self.process_index_at_visible_row(visible_index) {
            Some(i) => i,
            None => {
                return;
            },
        };
        let toggles = match self.tree_row_at_visible_row(visible_index) {
            Some(tree_row) => self.is_tree_toggle_click(column, tree_row),
            None => false,
        };
        assert(toggles == click_toggles(*old(self), column, visible_index as int));
        if toggles {
            self.view.selected = process_index;
            assert(*self == with_selected(*old(self), process_index));
            assert(process_at_row(*old(self), visible_index as int) == Some(process_index));
            self.toggle_expansion(process_index);
            assert(self.view.selected == process_index);
            proof {
            if process_index < old(self).data.snapshot.processes@.len() {
                assert(exists|t: ProcessTreeState|
                    tree_rebuilt(
                        with_selected(*old(self), process_index),
                        crate::tree::toggled_pids(
                            old(self).tree.expanded_pids@,
                            old(self).data.snapshot.processes@[process_index as int].pid,
                        ),
                        t,
                    ) && selection_shown(with_tree(with_selected(*old(self), process_index), t), self.tree));
            } else {
                assert(self.tree == old(self).tree);
            }
            }
            return;
        }
        self.view.selected = process_index;
        self.ensure_visible();
        self.populate_visible_details();
    }

    /// Scrolls the table `delta` rows for a wheel event inside it, limited
    /// to the last page; the selection stays.
    pub fn scroll_with_wheel(&mut self, column: u16, row: u16, delta: isize)
        ensures
            wheel_effect(*old(self), *final(self), column, row, delta),
    {
        let area = match self.view.process_table_area {
            Some(a) => a,
            None => {
                return;
            },
        };
        if !is_inside_table(area, column, row) || self.total_visible_rows() == 0 {
            return;
        }
        self.view.scroll_offset = crate::num::offset_saturating(self.view.scroll_offset, delta);
        self.clamp_scroll_offset();
        self.populate_visible_details();
    }

    /// Applies one mouse event: a left click selects, the wheel scrolls.
    pub fn handle_mouse(&mut self, mouse: MouseEvent)
        ensures
            match mouse.kind {
                MouseEventKind::LeftDown => click_effect(*old(self), *final(self), mouse.column, mouse.row),
                MouseEventKind::ScrollUp => wheel_effect(
                    *old(self),
                    *final(self),
                    mouse.column,
                    mouse.row,
                    -1isize,
                ),
                MouseEventKind::ScrollDown => wheel_effect(
                    *old(self),
                    *final(self),
                    mouse.column,
                    mouse.row,
                    1isize,
                ),
                MouseEventKind::Other => *final(self) == *old(self),
            },
            final(self).view.view_mode == old(self).view.view_mode,
    {
        match mouse.kind {
            MouseEventKind::LeftDown => self.select_process_at(mouse.column, mouse.row),
            MouseEventKind::ScrollUp => self.scroll_with_wheel(mouse.column, mouse.row, -1),
            MouseEventKind::ScrollDown => self.scroll_with_wheel(mouse.column, mouse.row, 1),
            MouseEventKind::Other => {},
        }
    }
}

/// Whether `index` is the first of the listed positions `flat` whose row
/// has process id `pid`.
pub open spec fn first_with_pid(flat: Seq<usize>, rows: Seq<ProcessRow>, pid: i32, index: usize) -> bool {
    exists|k: int|
        0 <= k < flat.len() && flat[k] == index && forall|m: int|
            0 <= m < k ==> !(flat[m] < rows.len() && rows[flat[m] as int].pid == pid)
}

/// The process the selection returns to: the first listed one with
/// `selected_pid`, else the first listed one.
pub open spec fn restored_choice<C: SystemCollector>(a: AppState<C>, selected_pid: Option<i32>, chosen: usize) -> bool {
    let flat = flat_indexes_spec(a);
    let rows = a.data.snapshot.processes@;
    match selected_pid {
        Some(pid) => if exists|k: int|
            0 <= k < flat.len() && flat[k] < rows.len() && rows[flat[k] as int].pid == pid {
            chosen < rows.len() && rows[chosen as int].pid == pid && first_with_pid(
                flat,
                rows,
                pid,
                chosen,
            )
        } else {
            chosen == flat[0]
        },
        None => chosen == flat[0],
    }
}

/// Whether monitor `m` was started from the first of `rows` with its
/// process id: its name, command and one sample are that row's.
pub open spec fn monitor_started_from(m: ProcessMonitorState, rows: Seq<ProcessRow>) -> bool {
    exists|k: int|
        #![trigger rows[k]]
        0 <= k < rows.len() && rows[k].pid == m.pid && (forall|j: int|
            0 <= j < k ==> rows[j].pid != m.pid) && m.name@ == rows[k].name@ && m.command@
            == rows[k].command@ && m.latest == sample_of(rows[k]) && m.history@
            == crate::history::pushed(Seq::empty(), HISTORY_CAPACITY as nat, sample_of(rows[k]))
}

/// The sort order after picking `key`: the same key again flips the
/// direction, another key starts in its default direction.
pub open spec fn picked_sort(state: SortState, key: SortKey) -> SortState {
    SortState {
        key,
        direction: if state.key == key {
            crate::snapshot::flipped(state.direction)
        } else {
            crate::snapshot::default_direction_spec(key)
        },
    }
}

/// The sort after the column layout of `b` was changed (`changed`): when
/// the column of the sort key is hidden now, the table falls back to RSS,
/// descending, and is sorted again; otherwise the sort stays.
pub open spec fn column_toggle_sort<C: SystemCollector>(a: AppState<C>, b: AppState<C>, changed: bool) -> bool {
    let c = crate::columns::column_of_sort_key(a.view.sort_state.key);
    if changed && !b.view.columns.visible()[crate::columns::column_index(c)] {
        b.view.sort_state == (SortState { key: SortKey::Rss, direction: SortDirection::Descending })
            && sorted_rows(b.view.sort_state, a.data.snapshot.processes@, b.data.snapshot.processes@)
    } else {
        b.view.sort_state == a.view.sort_state
    }
}

/// Whether `b` is `a` after its rows were sorted again: the listed
/// processes are recomputed from the sorted rows (whose detailed values may
/// since have been loaded), in the flat view the previously selected
/// process is selected again, and the rest of the view stays but for the
/// sort order, the selection and the scroll offset.
pub open spec fn resorted<C: SystemCollector>(a: AppState<C>, b: AppState<C>) -> bool {
    &&& exists|rows: Seq<ProcessRow>, names: Seq<Seq<char>>|
        #![trigger listing_rebuilt(a.tree.expanded_pids@, rows, selected_pid_spec(a), b), is_sorted_table(b.view.sort_state, a.data.snapshot.processes@, names, rows)]
        names.len() == a.data.snapshot.processes@.len() && is_sorted_table(
            b.view.sort_state,
            a.data.snapshot.processes@,
            names,
            rows,
        ) && listing_rebuilt(a.tree.expanded_pids@, rows, selected_pid_spec(a), b)
    &&& same_but_selection(
        AppViewState {
            sort_state: b.view.sort_state,
            filtered_indexes: b.view.filtered_indexes,
            ..a.view
        },
        b.view,
    )
}

/// Whether the filter is the one the modal's rows give, with the modal's
/// error message the first one those rows give.
pub open spec fn filter_applied<C: SystemCollector>(app: AppState<C>) -> bool {
    exists|parsed: Seq<Option<MetricFilterValue>>|
        parsed.len() == 5 && app.view.filter@ == modal_predicates(app.view.filter_modal, parsed)
            && crate::filter::message_view(app.view.filter_modal.error) == modal_error(
            app.view.filter_modal,
            parsed,
        )
}

/// The process id of the selected row, if there is one.
pub open spec fn selected_pid_spec<C: SystemCollector>(app: AppState<C>) -> Option<i32> {
    if app.view.selected < app.data.snapshot.processes@.len() {
        Some(app.data.snapshot.processes@[app.view.selected as int].pid)
    } else {
        None
    }
}

/// The choice the selection returns to is the same in two states that
/// differ only in the detailed memory values of their rows.
proof fn lemma_restored_choice_details<C: SystemCollector>(
    a: AppState<C>,
    b: AppState<C>,
    selected_pid: Option<i32>,
    chosen: usize,
)
    requires
        a.view.filter == b.view.filter,
        a.view.filtered_indexes == b.view.filtered_indexes,
        same_rows_but_details(a.data.snapshot.processes@, b.data.snapshot.processes@),
        restored_choice(a, selected_pid, chosen),
    ensures
        restored_choice(b, selected_pid, chosen),
{
    let ra = a.data.snapshot.processes@;
    let rb = b.data.snapshot.processes@;
    assert(forall|i: int| 0 <= i < ra.len() ==> #[trigger] rb[i].pid == ra[i].pid);
    assert(flat_indexes_spec(a) == flat_indexes_spec(b));
}

/// State `a` with `selected` selected.
pub open spec fn with_selected<C: SystemCollector>(a: AppState<C>, selected: usize) -> AppState<C> {
    AppState { view: AppViewState { selected, ..a.view }, ..a }
}

/// The first row with process id `pid`, copied.
pub fn find_row(rows: &[ProcessRow], pid: i32) -> (r: Option<ProcessRow>)
    ensures
        match r {
            Some(row) => row.pid == pid && exists|k: int|
                0 <= k < rows.len() && same_row(row, rows@[k]) && forall|m: int|
                    0 <= m < k ==> rows@[m].pid != pid,
            None => forall|k: int| 0 <= k < rows.len() ==> rows@[k].pid != pid,
        },
{
    let mut k: usize = 0;
    while k < rows.len()
        invariant
            k <= rows.len(),
            forall|m: int| 0 <= m < k ==> rows@[m].pid != pid,
        decreases rows.len() - k,
    {
        if rows[k].pid == pid {
            let row = rows[k].copy();
            assert(same_row(row, rows@[k as int]));
            return Some(row);
        }
        k = k + 1;
    }
    None
}

/// What a command does to the view, for the commands that only move a
/// highlight, open or close an overlay, or toggle a flag.
pub open spec fn view_command_effect(cmd: AppCommand, a: AppViewState, b: AppViewState) -> bool {
    match cmd {
        AppCommand::ToggleColumnPicker => {
            let open = !a.column_picker_open;
            b == AppViewState {
                column_picker_open: open,
                sort_picker_open: if open { false } else { a.sort_picker_open },
                filter_modal: FilterModalState {
                    open: if open { false } else { a.filter_modal.open },
                    editing: if open { false } else { a.filter_modal.editing },
                    ..a.filter_modal
                },
                column_picker_index: if a.column_picker_index <= 10 {
                    a.column_picker_index
                } else {
                    10
                },
                ..a
            }
        },
        AppCommand::ToggleSortPicker => {
            let open = !a.sort_picker_open;
            &&& b == AppViewState {
                sort_picker_open: open,
                column_picker_open: if open { false } else { a.column_picker_open },
                filter_modal: FilterModalState {
                    open: if open { false } else { a.filter_modal.open },
                    editing: if open { false } else { a.filter_modal.editing },
                    ..a.filter_modal
                },
                sort_picker_index: if open { b.sort_picker_index } else { a.sort_picker_index },
                ..a
            }
            &&& open ==> b.sort_picker_index < 8 && crate::snapshot::sort_key_seq()[b.sort_picker_index as int]
                == a.sort_state.key
        },
        AppCommand::ToggleFilterModal => {
            let open = !a.filter_modal.open;
            b == AppViewState {
                filter_modal: FilterModalState { open, editing: false, ..a.filter_modal },
                column_picker_open: if open { false } else { a.column_picker_open },
                sort_picker_open: if open { false } else { a.sort_picker_open },
                ..a
            }
        },
        AppCommand::CloseOverlay => b == AppViewState {
            column_picker_open: false,
            sort_picker_open: false,
            filter_modal: FilterModalState { open: false, editing: false, ..a.filter_modal },
            process_monitor_open: false,
            ..a
        },
        AppCommand::TogglePause => b == AppViewState { paused: !a.paused, ..a },
        AppCommand::MoveFilterSelection(d) => b == AppViewState {
            filter_modal: FilterModalState {
                selected: if a.filter_modal.open && !a.filter_modal.editing {
                    moved_index_spec(a.filter_modal.selected, d, 8) as usize
                } else {
                    a.filter_modal.selected
                },
                ..a.filter_modal
            },
            ..a
        },
        AppCommand::ToggleFilterEditing => b == AppViewState {
            filter_modal: FilterModalState {
                editing: if a.filter_modal.open {
                    !a.filter_modal.editing
                } else {
                    a.filter_modal.editing
                },
                ..a.filter_modal
            },
            ..a
        },
        AppCommand::MoveColumnPicker(d) => b == AppViewState {
            column_picker_index: if a.column_picker_open {
                moved_index_spec(a.column_picker_index, d, 10) as usize
            } else {
                a.column_picker_index
            },
            ..a
        },
        AppCommand::MoveSortPicker(d) => b == AppViewState {
            sort_picker_index: if a.sort_picker_open {
                moved_index_spec(a.sort_picker_index, d, 7) as usize
            } else {
                a.sort_picker_index
            },
            ..a
        },
        AppCommand::CloseProcessMonitorOverlay => b == AppViewState { process_monitor_open: false, ..a },
        AppCommand::ToggleViewMode => b.view_mode == crate::view::other_view(a.view_mode)
            && b.selected == a.selected && same_overlays(a, b),
        AppCommand::ApplySelectedSort => (if a.sort_picker_index < 8 {
            b.sort_state == picked_sort(
                a.sort_state,
                crate::snapshot::sort_key_seq()[a.sort_picker_index as int],
            )
        } else {
            b.sort_state == a.sort_state
        }) && same_overlays(a, b),
        AppCommand::StartProcessMonitor => true,
        AppCommand::Noop => b == a,
        AppCommand::Quit => b == a,
        _ => same_overlays(a, b),
    }
}

/// Whether the overlays (pickers, filter modal and its editing, process
/// monitor) are open alike in both views.
pub open spec fn same_overlays(a: AppViewState, b: AppViewState) -> bool {
    &&& b.column_picker_open == a.column_picker_open
    &&& b.sort_picker_open == a.sort_picker_open
    &&& b.filter_modal.open == a.filter_modal.open
    &&& b.filter_modal.editing == a.filter_modal.editing
    &&& b.process_monitor_open == a.process_monitor_open
}

/// Whether at most one overlay is open, and the filter modal is edited
/// only while it is open.
pub open spec fn overlays_exclusive(v: AppViewState) -> bool {
    &&& (if v.column_picker_open { 1int } else { 0 }) + (if v.sort_picker_open { 1int } else { 0 })
        + (if v.filter_modal.open { 1int } else { 0 }) + (if v.process_monitor_open { 1int } else { 0 }) <= 1
    &&& v.filter_modal.editing ==> v.filter_modal.open
}

/// The selection after moving `delta` rows from the listed row `c` in the
/// flat view: the listed row `c + delta`, kept within the list.
pub open spec fn moved_selection<C: SystemCollector>(a: AppState<C>, c: int, delta: isize) -> int {
    let t = total_rows_spec(a);
    let next = if c + delta < 0 {
        0
    } else if c + delta > t - 1 {
        t - 1
    } else {
        c + delta
    };
    flat_indexes_spec(a)[next] as int
}

/// The selection after jumping to the first (`to_start`) or the last
/// listed row.
pub open spec fn boundary_selected<C: SystemCollector>(a: AppState<C>, to_start: bool) -> int {
    match a.view.view_mode {
        ViewMode::Flat => {
            let flat = flat_indexes_spec(a);
            if flat.len() == 0 {
                0
            } else if to_start {
                flat[0] as int
            } else {
                flat[flat.len() - 1] as int
            }
        },
        ViewMode::Tree => {
            let rows = a.tree.rows@;
            if rows.len() == 0 {
                0
            } else if to_start {
                rows[0].process_index as int
            } else {
                rows[rows.len() - 1].process_index as int
            }
        },
    }
}

/// What a command does to the state: the effect on the view above, and for
/// the commands that move the selection, edit the filter, change the
/// columns or start the process monitor, what they change.
pub open spec fn command_effect<C: SystemCollector>(cmd: AppCommand, a: AppState<C>, b: AppState<C>) -> bool {
    &&& view_command_effect(cmd, a.view, b.view)
    &&& match cmd {
        AppCommand::MoveSelection(delta) => {
            &&& b.view.view_mode == a.view.view_mode
            &&& total_rows_spec(a) == 0 ==> b.view.selected == a.view.selected
            &&& a.view.view_mode == ViewMode::Flat ==> forall|c: int|
                #![trigger selected_row_spec(a, c)]
                selected_row_spec(a, c) && c + delta <= isize::MAX && c + delta >= isize::MIN
                    && total_rows_spec(a) <= isize::MAX ==> b.view.selected == moved_selection(
                    a,
                    c,
                    delta,
                )
            &&& a.view.view_mode == ViewMode::Tree && total_rows_spec(a) > 0 ==> exists|
                mid: ProcessTreeState,
            |
                selection_shown(a, mid) && #[trigger] tree_move_effect(with_tree(a, mid), b, delta)
        },
        AppCommand::JumpToBoundary { to_start } => b.view.view_mode == a.view.view_mode
            && b.view.selected == boundary_selected(a, to_start),
        AppCommand::TreeLeft => {
            &&& b.view.view_mode == a.view.view_mode
            &&& a.view.view_mode != ViewMode::Tree ==> b.view == a.view && b.tree == a.tree
            &&& a.view.view_mode == ViewMode::Tree ==> exists|mid: ProcessTreeState|
                selection_shown(a, mid) && #[trigger] tree_left_effect(with_tree(a, mid), b)
        },
        AppCommand::TreeRight => {
            &&& b.view.view_mode == a.view.view_mode
            &&& a.view.view_mode != ViewMode::Tree ==> b.view == a.view && b.tree == a.tree
            &&& a.view.view_mode == ViewMode::Tree ==> exists|mid: ProcessTreeState|
                selection_shown(a, mid) && #[trigger] tree_right_effect(with_tree(a, mid), b)
        },
        AppCommand::FilterPushChar(ch) => {
            let m = a.view.filter_modal;
            &&& !(m.open && m.editing) ==> b.view.filter_modal == m && b.data == a.data
            &&& m.open && m.editing ==> modal_text_spec(b.view.filter_modal, selected_filter_row(m))
                == modal_text_spec(m, selected_filter_row(m)).push(ch) && filter_applied(b) && relisted(a, b)
        },
        AppCommand::FilterPopChar => {
            let m = a.view.filter_modal;
            let t = modal_text_spec(m, selected_filter_row(m));
            &&& !(m.open && m.editing) ==> b.view.filter_modal == m && b.data == a.data
            &&& m.open && m.editing ==> modal_text_spec(b.view.filter_modal, selected_filter_row(m))
                == if t.len() > 0 {
                t.drop_last()
            } else {
                t
            } && filter_applied(b) && relisted(a, b)
        },
        AppCommand::FilterClear => {
            let m = a.view.filter_modal;
            &&& !(m.open && m.editing) ==> b.view.filter_modal == m && b.data == a.data
            &&& m.open && m.editing ==> modal_text_spec(
                b.view.filter_modal,
                selected_filter_row(m),
            ).len() == 0 && filter_applied(b) && relisted(a, b)
        },
        AppCommand::CycleFilterOperator(delta) => {
            let m = a.view.filter_modal;
            let row = selected_filter_row(m);
            let applies = m.open && !m.editing && (row is Rss || row is Swap || row is Cpu
                || row is Uss || row is Pss);
            &&& !applies ==> b.view.filter_modal == m && b.data == a.data
            &&& applies ==> modal_operator_spec(b.view.filter_modal, row) == cycled(
                modal_operator_spec(m, row),
                delta as int,
            ) && filter_applied(b) && relisted(a, b)
        },
        AppCommand::ToggleSelectedColumn => {
            &&& !a.view.column_picker_open ==> b.view.columns == a.view.columns
            &&& a.view.column_picker_open && a.view.columns.wf() && a.view.column_picker_index
                < 11 ==> {
                let c = a.view.columns.order()[a.view.column_picker_index as int];
                let i = crate::columns::column_index(c);
                let changed = c != ProcessColumn::Name && !(crate::columns::count_true(
                    a.view.columns.visible(),
                ) == 1 && a.view.columns.visible()[i]);
                &&& b.view.columns.wf()
                &&& b.view.columns.order() == a.view.columns.order()
                &&& b.view.columns.visible() == if changed {
                    a.view.columns.visible().update(i, !a.view.columns.visible()[i])
                } else {
                    a.view.columns.visible()
                }
                &&& column_toggle_sort(a, b, changed)
            }
        },
        AppCommand::ReorderSelectedColumn(delta) => {
            &&& !a.view.column_picker_open ==> b.view.columns == a.view.columns
            &&& a.view.column_picker_open && a.view.columns.wf() ==> {
                let t = crate::columns::moved_target(
                    a.view.column_picker_index as int,
                    delta as int,
                    11,
                );
                &&& b.view.columns.wf()
                &&& b.view.columns.visible() == a.view.columns.visible()
                &&& match t {
                    Some(target) => b.view.column_picker_index == target
                        && b.view.columns.order() == a.view.columns.order().update(
                        a.view.column_picker_index as int,
                        a.view.columns.order()[target as int],
                    ).update(target as int, a.view.columns.order()[a.view.column_picker_index as int]),
                    None => b.view.columns.order() == a.view.columns.order()
                        && b.view.column_picker_index == a.view.column_picker_index,
                }
            }
        },
        AppCommand::StartProcessMonitor => {
            &&& !has_selected_row(a) ==> b.view == a.view && b.data == a.data
            &&& has_selected_row(a) ==> {
                &&& b.view.process_monitor_open
                &&& !b.view.column_picker_open
                &&& !b.view.sort_picker_open
                &&& !b.view.filter_modal.open
                &&& !b.view.filter_modal.editing
                &&& b.data.process_monitor matches Some(m) && m.pid
                    == a.data.snapshot.processes@[a.view.selected as int].pid && m.history@.len()
                    == 1 && monitor_started_from(m, b.data.snapshot.processes@)
            }
        },
        AppCommand::ApplySelectedSort => a.view.sort_picker_index < 8 ==> sorted_rows(
            b.view.sort_state,
            a.data.snapshot.processes@,
            b.data.snapshot.processes@,
        ) && resorted(a, b),
        AppCommand::ToggleViewMode => {
            &&& a.view.view_mode == ViewMode::Flat ==> selection_shown(a, b.tree)
            &&& a.view.view_mode == ViewMode::Tree ==> b.tree == a.tree
        },
        AppCommand::ToggleColumnPicker | AppCommand::ToggleSortPicker
        | AppCommand::ToggleFilterModal | AppCommand::CloseOverlay | AppCommand::TogglePause
        | AppCommand::MoveFilterSelection(_) | AppCommand::ToggleFilterEditing
        | AppCommand::MoveColumnPicker(_) | AppCommand::MoveSortPicker(_)
        | AppCommand::CloseProcessMonitorOverlay | AppCommand::Noop => b.data == a.data && b.tree
            == a.tree,
        _ => true,
    }
}

impl<C: SystemCollector> AppState<C> {
    /// Adds one sample to the history charts.
    pub fn push_history(&mut self, point: HistoryPoint)
        ensures
            final(self).data.rss_history@ == crate::history::pushed(
                old(self).data.rss_history@,
                old(self).data.rss_history.cap(),
                point.rss_bytes,
            ),
            final(self).data.swap_history@ == crate::history::pushed(
                old(self).data.swap_history@,
                old(self).data.swap_history.cap(),
                point.swap_bytes,
            ),
            final(self).data.rss_history.cap() == old(self).data.rss_history.cap(),
            final(self).data.swap_history.cap() == old(self).data.swap_history.cap(),
            final(self).data.snapshot == old(self).data.snapshot,
            final(self).view == old(self).view,
            final(self).tree == old(self).tree,
            final(self).data.previous_cpu == old(self).data.previous_cpu,
            final(self).data.process_monitor == old(self).data.process_monitor,
            final(self).data.last_error == old(self).data.last_error,
    {
        self.data.rss_history.push(point.rss_bytes);
        self.data.swap_history.push(point.swap_bytes);
    }

    /// Loads every detailed memory value of process `pid`.
    pub fn populate_process_monitor_details(&mut self, pid: i32)
        ensures
            final(self).view == old(self).view,
            final(self).tree == old(self).tree,
            final(self).data.snapshot.processes@.len() == old(self).data.snapshot.processes@.len(),
            same_data_but_rows(old(self).data, final(self).data),
            row_pids(final(self).data.snapshot.processes@) == row_pids(old(self).data.snapshot.processes@),
            same_rows_but_details(old(self).data.snapshot.processes@, final(self).data.snapshot.processes@),
    {
        let mut pids: Vec<i32> = Vec::new();
        pids.push(pid);
        self.populate_memory_details(pids.as_slice(), VisibleDetailRequest { uss: true, pss: true });
    }

    /// The selected row, when the selection is listed.
    pub fn selected_process_row(&self) -> (r: Option<&ProcessRow>)
        ensures
            r is Some <==> has_selected_row(*self),
            match r {
                Some(row) => self.view.selected < self.data.snapshot.processes@.len() && row
                    == &self.data.snapshot.processes@[self.view.selected as int],
                None => true,
            },
    {
        if self.selected_visible_index().is_none() {
            return None;
        }
        if self.view.selected < self.data.snapshot.processes.len() {
            Some(&self.data.snapshot.processes[self.view.selected])
        } else {
            None
        }
    }

    /// Starts monitoring the selected process: the overlays close, its
    /// detailed values load and the monitor overlay opens with one sample.
    pub fn start_process_monitor_for_selected(&mut self)
        ensures
            !has_selected_row(*old(self)) ==> final(self).view == old(self).view && final(
                self).data == old(self).data,
            has_selected_row(*old(self)) ==> {
                &&& final(self).view.process_monitor_open
                &&& !final(self).view.column_picker_open
                &&& !final(self).view.sort_picker_open
                &&& !final(self).view.filter_modal.open
                &&& !final(self).view.filter_modal.editing
                &&& final(self).data.process_monitor matches Some(m) && m.pid == old(
                    self).data.snapshot.processes@[old(self).view.selected as int].pid
                    && m.history@.len() == 1 && monitor_started_from(
                    m,
                    final(self).data.snapshot.processes@,
                )
                &&& same_rows_but_details(
                    old(self).data.snapshot.processes@,
                    final(self).data.snapshot.processes@,
                )
                &&& final(self).view == AppViewState {
                    column_picker_open: false,
                    sort_picker_open: false,
                    process_monitor_open: true,
                    filter_modal: FilterModalState {
                        open: false,
                        editing: false,
                        ..old(self).view.filter_modal
                    },
                    ..old(self).view
                }
            },
    {
        let selected = match self.selected_process_row() {
            Some(row) => row.copy(),
            None => {
                return;
            },
        };
        self.view.column_picker_open = false;
        self.view.sort_picker_open = false;
        self.view.filter_modal.open = false;
        self.view.filter_modal.editing = false;
        self.populate_process_monitor_details(selected.pid);
        assert(self.data.snapshot.processes@[old(self).view.selected as int].pid == selected.pid);
        let row = match find_row(self.data.snapshot.processes.as_slice(), selected.pid) {
            Some(r) => r,
            None => selected,
        };
        self.data.process_monitor = Some(ProcessMonitorState::new(&row, HISTORY_CAPACITY));
        self.view.process_monitor_open = true;
    }

    /// Records a sample of `row` in the monitor of its process, or starts a
    /// monitor of it when another process (or none) was monitored.
    pub fn record_process_monitor_row(&mut self, row: &ProcessRow)
        ensures
            final(self).data.process_monitor matches Some(m) && m.pid == row.pid && m.latest
                == sample_of(*row) && !m.missing && m.name@ == row.name@ && m.command@
                == row.command@,
            match old(self).data.process_monitor {
                Some(m) => if m.pid == row.pid {
                    final(self).data.process_monitor matches Some(n) && n.history@
                        == crate::history::pushed(m.history@, m.history.cap(), sample_of(*row))
                        && n.history.cap() == m.history.cap()
                } else {
                    final(self).data.process_monitor matches Some(n) && n.history@
                        == crate::history::pushed(
                        Seq::empty(),
                        HISTORY_CAPACITY as nat,
                        sample_of(*row),
                    )
                },
                None => final(self).data.process_monitor matches Some(n) && n.history@
                    == crate::history::pushed(Seq::empty(), HISTORY_CAPACITY as nat, sample_of(*row)),
            },
            final(self).view == old(self).view,
            final(self).data.snapshot == old(self).data.snapshot,
            final(self).data.rss_history == old(self).data.rss_history,
            final(self).data.swap_history == old(self).data.swap_history,
            final(self).data.previous_cpu == old(self).data.previous_cpu,
            final(self).data.last_error == old(self).data.last_error,
            final(self).tree == old(self).tree,
    {
        let same = match &self.data.process_monitor {
            Some(m) => m.pid == row.pid,
            None => false,
        };
        if same {
            match &mut self.data.process_monitor {
                Some(m) => m.record(row),
                None => {},
            }
        } else {
            self.data.process_monitor = Some(ProcessMonitorState::new(row, HISTORY_CAPACITY));
        }
    }

    /// Records the monitored process from the latest snapshot, or marks it
    /// missing when it is gone (its samples stay).
    pub fn record_process_monitor_sample(&mut self)
        ensures
            final(self).view == old(self).view,
            row_pids(final(self).data.snapshot.processes@) == row_pids(old(self).data.snapshot.processes@),
            same_rows_but_details(old(self).data.snapshot.processes@, final(self).data.snapshot.processes@),
            final(self).data.rss_history == old(self).data.rss_history,
            final(self).data.swap_history == old(self).data.swap_history,
            final(self).data.previous_cpu == old(self).data.previous_cpu,
            final(self).data.last_error == old(self).data.last_error,
            final(self).data.snapshot.system == old(self).data.snapshot.system,
            final(self).data.snapshot.captured_at == old(self).data.snapshot.captured_at,
            final(self).tree == old(self).tree,
            old(self).data.process_monitor is None ==> final(self).data.process_monitor is None,
            monitor_followed(
                old(self).data.process_monitor,
                final(self).data.snapshot.processes@,
                final(self).data.process_monitor,
            ),
    {
        let pid = match &self.data.process_monitor {
            Some(m) => m.pid,
            None => {
                return;
            },
        };
        let row = match find_row(self.data.snapshot.processes.as_slice(), pid) {
            Some(r) => r,
            None => {
                match &mut self.data.process_monitor {
                    Some(m) => m.mark_missing(),
                    None => {},
                }
                return;
            },
        };
        let ghost before = self.data.snapshot.processes@;
        self.populate_process_monitor_details(pid);
        proof {
            let k = choose|k: int| 0 <= k < before.len() && same_row(row, before[k]);
            assert(self.data.snapshot.processes@[k].pid == pid);
        }
        let latest = match find_row(self.data.snapshot.processes.as_slice(), pid) {
            Some(r) => r,
            None => row,
        };
        let ghost rows = self.data.snapshot.processes@;
        self.record_process_monitor_row(&latest);
        proof {
            let k = choose|k: int|
                0 <= k < rows.len() && same_row(latest, rows[k]) && forall|j: int|
                    0 <= j < k ==> rows[j].pid != pid;
            assert(sample_of(latest) == sample_of(rows[k]));
            assert(rows[k].pid == pid);
        }
    }

    /// Takes in the result of one base collection. On success the next CPU
    /// counters are kept, the rows are sorted, the detailed values the
    /// filter needs are loaded, the monitor is updated, the listed
    /// processes and the tree are rebuilt, `selected_pid` is selected again
    /// without scrolling to it, the history charts grow and the detailed
    /// values of the shown rows are loaded. A failed collection keeps
    /// everything and shows the error.
    pub fn apply_base_snapshot(
        &mut self,
        collected: Result<(Snapshot, HashMap<i32, CpuSample>, HistoryPoint), CollectorError>,
        selected_pid: Option<i32>,
    )
        ensures
            base_snapshot_applied(*old(self), collected, selected_pid, *final(self)),
    {
        match collected {
            Ok((snapshot, next_cpu, history_point)) => {
                let ghost given = snapshot;
                let mut snapshot = snapshot;
                self.data.previous_cpu = next_cpu;
                self.sort_snapshot_processes(&mut snapshot.processes);
                let ghost sorted = snapshot.processes@;
                self.data.snapshot = snapshot;
                self.populate_filter_details();
                let ghost loaded = self.data.snapshot.processes@;
                let ghost monitor_before = self.data.process_monitor;
                assert(monitor_before == old(self).data.process_monitor);
                self.record_process_monitor_sample();
                let ghost monitor_after = self.data.process_monitor;
                let ghost mid = self.data.snapshot.processes@;
                let ghost expanded = self.tree.expanded_pids@;
                proof {
                    lemma_same_rows_but_details_trans(sorted, loaded, mid);
                }
                self.relist(selected_pid, false);
                let ghost listed = *self;
                self.push_history(history_point);
                self.populate_visible_details();
                self.data.last_error = None;
                proof {
                    lemma_listing_details(expanded, mid, selected_pid, listed, *self);
                }
                assert(self.data.process_monitor == monitor_after);
                assert(self.data.previous_cpu == next_cpu);
                assert(self.data.snapshot.system == given.system);
                assert(self.data.snapshot.captured_at == given.captured_at);
                assert(same_but_selection(
                    old(self).view,
                    AppViewState { filtered_indexes: old(self).view.filtered_indexes, ..self.view },
                ));
            },
            Err(error) => {
                self.data.last_error = Some(error);
            },
        }
    }

    /// Refreshes the snapshot: collects it through the collector, handing
    /// it the stored CPU counters and the current time, and takes the
    /// result in with `apply_base_snapshot`, selecting the previously
    /// selected process again.
    pub fn refresh(&mut self)
        ensures
            refreshed(*old(self), *final(self)),
    {
        let selected_pid = self.selected_pid();
        let now = crate::snapshot::instant_now();
        let collected = self.resources.collector.collect_base_snapshot(&self.data.previous_cpu, now);
        self.apply_base_snapshot(collected, selected_pid);
    }
}

/// Whether `t` is the tree of `rows` in the order of `sort`, with the
/// processes `expanded` expanded.
pub open spec fn tree_of(rows: Seq<ProcessRow>, sort: SortState, expanded: Set<i32>, t: ProcessTreeState) -> bool {
    exists|names: Seq<Seq<char>>|
        names.len() == rows.len() && is_tree_state(
            rows,
            sort,
            names,
            expanded,
            t.expanded_pids@,
            t.parents@,
            rows_view(t.rows@),
        )
}

/// Whether `t` is the tree `t0` of `rows` after the ancestors of process
/// `selected` were expanded: `t0` itself when nothing was expanded, else
/// the tree rebuilt with those ancestors expanded too.
pub open spec fn shown_in(
    rows: Seq<ProcessRow>,
    sort: SortState,
    t0: ProcessTreeState,
    selected: usize,
    t: ProcessTreeState,
) -> bool {
    ||| t.expanded_pids@ == t0.expanded_pids@ && t.rows@ == t0.rows@ && t.parents@ == t0.parents@
    ||| tree_of(
        rows,
        sort,
        t0.expanded_pids@.union(
            pids_at(rows, ancestor_chain(t0.parents@, selected as int, t0.parents@.len() as nat)).to_set(),
        ),
        t,
    )
}

/// Whether `b` lists the processes of `rows` again, `rows` being its rows
/// up to their detailed values: the listed processes are those its filter
/// keeps; its tree is the tree of `rows` with `expanded` expanded, in the
/// tree view with the ancestors of the selection expanded too; and the
/// selection is the first listed process with `selected_pid`, else the
/// first listed one (in the tree view, the first tree row when that process
/// has no row).
pub open spec fn listing_rebuilt<C: SystemCollector>(
    expanded: Set<i32>,
    rows: Seq<ProcessRow>,
    selected_pid: Option<i32>,
    b: AppState<C>,
) -> bool {
    &&& same_rows_but_details(rows, b.data.snapshot.processes@)
    &&& b.view.filtered_indexes@ == matching_spec(b.view.filter@, rows, rows.len() as int)
    &&& exists|t0: ProcessTreeState|
        #[trigger] tree_of(rows, b.view.sort_state, expanded, t0) && if b.view.view_mode
            == ViewMode::Tree && flat_indexes_spec(b).len() > 0 {
            exists|chosen: usize|
                #[trigger] restored_choice(b, selected_pid, chosen) && shown_in(
                    rows,
                    b.view.sort_state,
                    t0,
                    chosen,
                    b.tree,
                ) && (b.view.selected == chosen || ((forall|v: int|
                    !selected_row_spec(with_selected(b, chosen), v)) && b.tree.rows@.len() > 0
                    && b.view.selected == b.tree.rows@[0].process_index))
        } else {
            b.tree == t0
        }
    &&& b.view.view_mode == ViewMode::Flat && flat_indexes_spec(b).len() > 0 ==> restored_choice(
        b,
        selected_pid,
        b.view.selected,
    )
}

/// Whether `b` is `a` after its listed processes, tree and selection were
/// rebuilt from its rows, whose detailed values may have been loaded.
pub open spec fn relisted<C: SystemCollector>(a: AppState<C>, b: AppState<C>) -> bool {
    exists|rows: Seq<ProcessRow>|
        #![trigger listing_rebuilt(a.tree.expanded_pids@, rows, selected_pid_spec(a), b)]
        same_rows_but_details(a.data.snapshot.processes@, rows) && listing_rebuilt(
            a.tree.expanded_pids@,
            rows,
            selected_pid_spec(a),
            b,
        )
}

/// Rows that differ only in detailed values have the same process ids.
proof fn lemma_same_rows_pids(a: Seq<ProcessRow>, b: Seq<ProcessRow>)
    requires
        same_rows_but_details(a, b),
    ensures
        row_pids(a) == row_pids(b),
{
    assert(row_pids(a) =~= row_pids(b)) by {
        assert forall|i: int| 0 <= i < a.len() implies row_pids(a)[i] == row_pids(b)[i] by {
            assert(b[i] == ProcessRow { uss_bytes: b[i].uss_bytes, pss_bytes: b[i].pss_bytes, ..a[i] });
        }
    }
}

/// Relisting from a state depends only on its rows, tree and selection.
proof fn lemma_relisted_same_start<C: SystemCollector>(a: AppState<C>, a2: AppState<C>, b: AppState<C>)
    requires
        relisted(a, b),
        a.data == a2.data,
        a.tree == a2.tree,
        a.view.selected == a2.view.selected,
    ensures
        relisted(a2, b),
{
    let rows = choose|rows: Seq<ProcessRow>|
        same_rows_but_details(a.data.snapshot.processes@, rows) && listing_rebuilt(
            a.tree.expanded_pids@,
            rows,
            selected_pid_spec(a),
            b,
        );
    assert(selected_pid_spec(a) == selected_pid_spec(a2));
    assert(listing_rebuilt(a2.tree.expanded_pids@, rows, selected_pid_spec(a2), b));
}

/// Listing survives loading detailed values and changes outside the view
/// and the tree.
proof fn lemma_listing_details<C: SystemCollector>(
    expanded: Set<i32>,
    rows: Seq<ProcessRow>,
    selected_pid: Option<i32>,
    b: AppState<C>,
    c: AppState<C>,
)
    requires
        listing_rebuilt(expanded, rows, selected_pid, b),
        c.view == b.view,
        c.tree == b.tree,
        same_rows_but_details(b.data.snapshot.processes@, c.data.snapshot.processes@),
    ensures
        listing_rebuilt(expanded, rows, selected_pid, c),
{
    lemma_same_rows_but_details_trans(rows, b.data.snapshot.processes@, c.data.snapshot.processes@);
    let rb = b.data.snapshot.processes@;
    let rc = c.data.snapshot.processes@;
    assert(forall|i: int| 0 <= i < rb.len() ==> #[trigger] rc[i].pid == rb[i].pid);
    assert(flat_indexes_spec(b) == flat_indexes_spec(c));
    let t0 = choose|t0: ProcessTreeState|
        #[trigger] tree_of(rows, b.view.sort_state, expanded, t0) && if b.view.view_mode
            == ViewMode::Tree && flat_indexes_spec(b).len() > 0 {
            exists|chosen: usize|
                #[trigger] restored_choice(b, selected_pid, chosen) && shown_in(
                    rows,
                    b.view.sort_state,
                    t0,
                    chosen,
                    b.tree,
                ) && (b.view.selected == chosen || ((forall|v: int|
                    !selected_row_spec(with_selected(b, chosen), v)) && b.tree.rows@.len() > 0
                    && b.view.selected == b.tree.rows@[0].process_index))
        } else {
            b.tree == t0
        };
    if b.view.view_mode == ViewMode::Tree && flat_indexes_spec(b).len() > 0 {
        let chosen = choose|chosen: usize|
            #[trigger] restored_choice(b, selected_pid, chosen) && shown_in(
                rows,
                b.view.sort_state,
                t0,
                chosen,
                b.tree,
            ) && (b.view.selected == chosen || ((forall|v: int|
                !selected_row_spec(with_selected(b, chosen), v)) && b.tree.rows@.len() > 0
                && b.view.selected == b.tree.rows@[0].process_index));
        lemma_restored_choice_details(b, c, selected_pid, chosen);
        assert(forall|v: int|
            #![trigger selected_row_spec(with_selected(c, chosen), v)]
            selected_row_spec(with_selected(b, chosen), v) == selected_row_spec(
                with_selected(c, chosen),
                v,
            ));
    }
    if b.view.view_mode == ViewMode::Flat && flat_indexes_spec(b).len() > 0 {
        lemma_restored_choice_details(b, c, selected_pid, b.view.selected);
    }
}

/// Whether `b` is `a` after one refresh took in some collection result.
pub open spec fn refreshed<C: SystemCollector>(a: AppState<C>, b: AppState<C>) -> bool {
    exists|collected: Result<(Snapshot, HashMap<i32, CpuSample>, HistoryPoint), CollectorError>|
        #[trigger] base_snapshot_applied(a, collected, selected_pid_spec(a), b)
}

/// Whether `b` is `a` after taking in the collection result `collected`,
/// with `selected_pid` selected again. On success: no error, the next CPU
/// counters and the collected totals are kept, the rows are the collected
/// ones in table order (up to their loaded detailed values), both history
/// charts end with the collected totals, the listed processes are those
/// the filter keeps, the view stays but for the selection and the scroll
/// offset, and in the flat view `selected_pid` is selected again. On
/// failure: only the error changes.
pub open spec fn base_snapshot_applied<C: SystemCollector>(
    a: AppState<C>,
    collected: Result<(Snapshot, HashMap<i32, CpuSample>, HistoryPoint), CollectorError>,
    selected_pid: Option<i32>,
    b: AppState<C>,
) -> bool {
    match collected {
        Ok((s, cpu, p)) => {
            &&& b.data.last_error is None
            &&& b.data.previous_cpu == cpu
            &&& b.data.snapshot.captured_at == s.captured_at
            &&& b.data.snapshot.system == s.system
            &&& b.data.rss_history@ == crate::history::pushed(
                a.data.rss_history@,
                a.data.rss_history.cap(),
                p.rss_bytes,
            )
            &&& b.data.swap_history@ == crate::history::pushed(
                a.data.swap_history@,
                a.data.swap_history.cap(),
                p.swap_bytes,
            )
            &&& exists|rows: Seq<ProcessRow>, sorted: Seq<ProcessRow>, names: Seq<Seq<char>>|
                #![trigger listing_rebuilt(a.tree.expanded_pids@, rows, selected_pid, b), is_sorted_table(b.view.sort_state, s.processes@, names, sorted)]
                names.len() == s.processes@.len() && is_sorted_table(
                    b.view.sort_state,
                    s.processes@,
                    names,
                    sorted,
                ) && same_rows_but_details(sorted, rows) && listing_rebuilt(
                    a.tree.expanded_pids@,
                    rows,
                    selected_pid,
                    b,
                ) && monitor_followed(a.data.process_monitor, rows, b.data.process_monitor)
            &&& same_but_selection(
                a.view,
                AppViewState { filtered_indexes: a.view.filtered_indexes, ..b.view },
            )
        },
        Err(e) => {
            &&& b.data == AppDataState { last_error: Some(e), ..a.data }
            &&& b.view == a.view
            &&& b.tree == a.tree
        },
    }
}

/// What a refresh does to the process monitor `m` given the new rows: no
/// monitor stays none; a monitored process missing from the rows is marked
/// missing with its samples kept; one still present is sampled again.
pub open spec fn monitor_followed(
    m: Option<ProcessMonitorState>,
    rows: Seq<ProcessRow>,
    n: Option<ProcessMonitorState>,
) -> bool {
    match m {
        Some(m) => if forall|k: int| 0 <= k < rows.len() ==> rows[k].pid != m.pid {
            n matches Some(n) && n.missing && n.history@ == m.history@ && n.latest == m.latest
        } else {
            n matches Some(n) && !n.missing && n.pid == m.pid && exists|k: int|
                #![trigger rows[k]]
                0 <= k < rows.len() && rows[k].pid == m.pid && (forall|j: int|
                    0 <= j < k ==> rows[j].pid != m.pid) && n.latest == sample_of(rows[k])
                    && n.history@ == crate::history::pushed(
                    m.history@,
                    m.history.cap(),
                    sample_of(rows[k]),
                ) && n.name@ == rows[k].name@ && n.command@ == rows[k].command@
        },
        None => n is None,
    }
}

/// Having the same rows but for detailed values is transitive.
proof fn lemma_same_rows_but_details_trans(a: Seq<ProcessRow>, b: Seq<ProcessRow>, c: Seq<ProcessRow>)
    requires
        same_rows_but_details(a, b),
        same_rows_but_details(b, c),
    ensures
        same_rows_but_details(a, c),
{
    assert forall|i: int| 0 <= i < a.len() implies #[trigger] c[i] == ProcessRow {
        uss_bytes: c[i].uss_bytes,
        pss_bytes: c[i].pss_bytes,
        ..a[i]
    } by {
        assert(b[i] == ProcessRow { uss_bytes: b[i].uss_bytes, pss_bytes: b[i].pss_bytes, ..a[i] });
        assert(c[i] == ProcessRow { uss_bytes: c[i].uss_bytes, pss_bytes: c[i].pss_bytes, ..b[i] });
    }
}

/// How often the snapshot is refreshed, in milliseconds.
pub const TICK_RATE_MS: u64 = 1000;

/// How long the event loop waits for input before it checks the tick, in
/// milliseconds.
pub const EVENT_POLL_MS: u64 = 250;

impl<C: SystemCollector> AppState<C> {
    /// Handles the refresh timer: once a tick has elapsed the snapshot is
    /// refreshed, unless refreshing is paused. Returns whether the timer
    /// starts over.
    pub fn on_tick(&mut self, elapsed_ms: u64) -> (r: bool)
        ensures
            r == (elapsed_ms >= TICK_RATE_MS),
            !r || old(self).view.paused ==> final(self).view == old(self).view && final(self).data
                == old(self).data,
            final(self).view.paused == old(self).view.paused,
            r && !old(self).view.paused ==> refreshed(*old(self), *final(self)),
    {
        if elapsed_ms < TICK_RATE_MS {
            return false;
        }
        if !self.view.paused {
            self.refresh();
        }
        true
    }
}

impl<C: SystemCollector> AppState<C> {
    /// Carries out one command; only `Quit` asks the caller to stop.
    /// `parse_value` reads metric texts of the filter modal.
    pub fn apply_command<F: Fn(MetricFilterField, &str) -> Option<MetricFilterValue>>(
        &mut self,
        command: AppCommand,
        parse_value: &F,
    ) -> (r: KeyAction)
        requires
            forall|field: MetricFilterField, text: &str| #[trigger] parse_value.requires((field, text)),
        ensures
            (r == KeyAction::Quit) <==> (command == AppCommand::Quit),
            command == AppCommand::Quit ==> final(self).view == old(self).view && final(self).data
                == old(self).data,
            command_effect(command, *old(self), *final(self)),
    {
        match command {
            AppCommand::Quit => {
                return KeyAction::Quit;
            },
            AppCommand::MoveSelection(delta) => self.move_selection(delta),
            AppCommand::JumpToBoundary { to_start } => self.jump_to_boundary(to_start),
            AppCommand::TreeLeft => self.handle_tree_left(),
            AppCommand::TreeRight => self.handle_tree_right(),
            AppCommand::ToggleViewMode => self.toggle_view_mode(),
            AppCommand::ToggleColumnPicker => self.toggle_column_picker(),
            AppCommand::ToggleSortPicker => self.toggle_sort_picker(),
            AppCommand::ToggleFilterModal => self.toggle_filter_modal(),
            AppCommand::MoveFilterSelection(delta) => self.move_filter_selection(delta),
            AppCommand::ToggleFilterEditing => self.toggle_filter_editing(),
            AppCommand::FilterPushChar(ch) => self.filter_push_char(ch, parse_value),
            AppCommand::FilterPopChar => self.filter_pop_char(parse_value),
            AppCommand::FilterClear => self.filter_clear(parse_value),
            AppCommand::CycleFilterOperator(delta) => self.filter_cycle_operator(delta, parse_value),
            AppCommand::MoveColumnPicker(delta) => self.move_column_picker(delta),
            AppCommand::MoveSortPicker(delta) => self.move_sort_picker(delta),
            AppCommand::ReorderSelectedColumn(delta) => self.reorder_selected_column(delta),
            AppCommand::ToggleSelectedColumn => self.toggle_selected_column(),
            AppCommand::ApplySelectedSort => self.apply_selected_sort(),
            AppCommand::TogglePause => self.toggle_pause(),
            AppCommand::CloseOverlay => self.close_overlay(),
            AppCommand::StartProcessMonitor => self.start_process_monitor_for_selected(),
            AppCommand::CloseProcessMonitorOverlay => self.close_process_monitor_overlay(),
            AppCommand::Noop => {},
        }
        KeyAction::Continue
    }

    /// Applies one key press: the key is mapped to a command by the open
    /// overlays and the viewport height, and the command is carried out.
    /// Returns whether the application should quit.
    pub fn handle_key<F: Fn(MetricFilterField, &str) -> Option<MetricFilterValue>>(
        &mut self,
        key: KeyEvent,
        parse_value: &F,
    ) -> (r: KeyAction)
        requires
            forall|field: MetricFilterField, text: &str| #[trigger] parse_value.requires((field, text)),
        ensures
            ({
                let command = key_command_spec(
                    key,
                    old(self).view.viewport_rows,
                    old(self).view.column_picker_open,
                    old(self).view.sort_picker_open,
                    old(self).view.filter_modal.open,
                    old(self).view.filter_modal.editing,
                    old(self).view.process_monitor_open,
                );
                &&& (r == KeyAction::Quit) <==> (command == AppCommand::Quit)
                &&& command == AppCommand::Quit ==> final(self).view == old(self).view && final(
                    self).data == old(self).data
                &&& command_effect(command, *old(self), *final(self))
            }),
            overlays_exclusive(old(self).view) ==> overlays_exclusive(final(self).view),
    {
        let command = key_command(
            key,
            self.view.viewport_rows,
            self.view.column_picker_open,
            self.view.sort_picker_open,
            self.view.filter_modal.open,
            self.view.filter_modal.editing,
            self.view.process_monitor_open,
        );
        self.apply_command(command, parse_value)
    }
}

} // verus!
