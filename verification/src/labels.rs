//! Text and geometry the screen is drawn from: tree name prefixes, the chart
//! scale, popup placement and the hints in the table title.
use crate::app_state::{modal_operator_spec, modal_text, modal_text_spec};
use crate::columns::{column_title_spec, ProcessColumn};
use crate::filter::{filter_row_title, operator_label, FilterModalState, FilterRow};
use crate::format::{binary_label, format_bytes, format_option_bytes};
use crate::navigation::Rect;
use crate::columns::owned_string;
use crate::snapshot::{
    default_direction_spec, sort_direction_id_spec, sort_key_id_spec, sort_key_title,
    visible_swap_spec, ProcessRow, SortKey, SortState, SystemSummary,
};
use crate::text::{chars_of, decimal_spec, decimal_string, decimal_string_wide, push_char, push_str};
use crate::tree::TreeRow;
use crate::view::{view_mode_id_spec, ViewMode};
use vstd::prelude::*;

verus! {

/// The top of the history chart's scale: the total, or one when the total
/// is zero so that the scale never collapses.
pub fn chart_y_upper_bound(total_bytes: u64) -> (r: u64)
    ensures
        r == if total_bytes == 0 {
            1
        } else {
            total_bytes
        },
{
    if total_bytes == 0 {
        1
    } else {
        total_bytes
    }
}

/// The vertical guides drawn before a tree row, one per ancestor level: a
/// bar where a later sibling follows at that level, blanks elsewhere.
pub open spec fn guides_text(guides: Seq<bool>) -> Seq<char>
    decreases guides.len(),
{
    if guides.len() == 0 {
        Seq::empty()
    } else {
        guides_text(guides.drop_last()) + if guides.last() {
            "│  "@
        } else {
            "   "@
        }
    }
}

/// The branch marker of a row below the root level.
pub open spec fn branch_text(depth: usize, is_last_sibling: bool) -> Seq<char> {
    if depth == 0 {
        Seq::empty()
    } else if is_last_sibling {
        "└─"@
    } else {
        "├─"@
    }
}

/// The expansion toggle of a row with children, or the gap before the name
/// of a leaf below the root level.
pub open spec fn toggle_text(depth: usize, has_children: bool, expanded: bool) -> Seq<char> {
    if has_children {
        if expanded {
            "[-] "@
        } else {
            "[+] "@
        }
    } else if depth > 0 {
        seq![' ']
    } else {
        Seq::empty()
    }
}

/// The name cell of a tree row: guides, branch marker, toggle, then the
/// process name.
pub open spec fn tree_name_spec(
    guides: Seq<bool>,
    depth: usize,
    is_last_sibling: bool,
    has_children: bool,
    expanded: bool,
    name: Seq<char>,
) -> Seq<char> {
    guides_text(guides) + branch_text(depth, is_last_sibling) + toggle_text(
        depth,
        has_children,
        expanded,
    ) + name
}

/// The name cell of a tree row.
pub fn format_tree_name(entry: &TreeRow, name: &str) -> (r: String)
    ensures
        r@ == tree_name_spec(
            entry.ancestor_has_next_sibling@,
            entry.depth,
            entry.is_last_sibling,
            entry.has_children,
            entry.expanded,
            name@,
        ),
{
    let mut prefix = String::new();
    let guides = &entry.ancestor_has_next_sibling;
    let mut i: usize = 0;
    while i < guides.len()
        invariant
            i <= guides@.len(),
            prefix@ == guides_text(guides@.take(i as int)),
        decreases guides@.len() - i,
    {
        assert(guides@.take(i + 1).drop_last() =~= guides@.take(i as int));
        if guides[i] {
            push_str(&mut prefix, "│  ");
        } else {
            push_str(&mut prefix, "   ");
        }
        i = i + 1;
    }
    assert(guides@.take(guides@.len() as int) =~= guides@);
    let ghost after_guides = prefix@;
    if entry.depth > 0 {
        if entry.is_last_sibling {
            push_str(&mut prefix, "└─");
        } else {
            push_str(&mut prefix, "├─");
        }
    }
    assert(prefix@ == after_guides + branch_text(entry.depth, entry.is_last_sibling));
    let ghost after_branch = prefix@;
    if entry.has_children {
        if entry.expanded {
            push_str(&mut prefix, "[-] ");
        } else {
            push_str(&mut prefix, "[+] ");
        }
    } else if entry.depth > 0 {
        push_char(&mut prefix, ' ');
    }
    assert(prefix@ == after_branch + toggle_text(entry.depth, entry.has_children, entry.expanded));
    push_str(&mut prefix, name);
    prefix
}

/// `a - b`, or zero when `b` is larger.
pub open spec fn saturating_sub_spec(a: int, b: int) -> int {
    if a > b {
        a - b
    } else {
        0
    }
}

/// The size of a popup that asks for `wanted` cells where `available` are:
/// at most two less than available, at least one.
pub open spec fn popup_extent(wanted: int, available: int) -> int {
    let limit = saturating_sub_spec(available, 2);
    let e = if wanted < limit {
        wanted
    } else {
        limit
    };
    if e < 1 {
        1
    } else {
        e
    }
}

/// A popup of at most `width` by `height` cells centred in `area`, leaving
/// a border of at least one cell where the area allows.
pub fn centered_rect(area: Rect, width: u16, height: u16) -> (r: Rect)
    requires
        area.x + area.width <= u16::MAX,
        area.y + area.height <= u16::MAX,
    ensures
        r.width == popup_extent(width as int, area.width as int),
        r.height == popup_extent(height as int, area.height as int),
        r.x == area.x + saturating_sub_spec(area.width as int, r.width as int) / 2,
        r.y == area.y + saturating_sub_spec(area.height as int, r.height as int) / 2,
        1 <= r.width,
        1 <= r.height,
        r.width <= width || width == 0,
        r.height <= height || height == 0,
        area.width >= 3 ==> r.width <= area.width - 2 && area.x < r.x && r.x + r.width < area.x
            + area.width,
        area.height >= 3 ==> r.height <= area.height - 2 && area.y < r.y && r.y + r.height
            < area.y + area.height,
        area.width >= 3 && width >= 1 && width <= area.width - 2 ==> r.width == width,
        area.height >= 3 && height >= 1 && height <= area.height - 2 ==> r.height == height,
{
    let limit_w = area.width.saturating_sub(2);
    let w = if width < limit_w {
        width
    } else {
        limit_w
    };
    let popup_width = if w < 1 {
        1
    } else {
        w
    };
    let limit_h = area.height.saturating_sub(2);
    let h = if height < limit_h {
        height
    } else {
        limit_h
    };
    let popup_height = if h < 1 {
        1
    } else {
        h
    };
    let x = area.x + area.width.saturating_sub(popup_width) / 2;
    let y = area.y + area.height.saturating_sub(popup_height) / 2;
    Rect::new(x, y, popup_width, popup_height)
}

/// The pause key hint in the table title.
pub fn pause_hint(paused: bool) -> (r: &'static str)
    ensures
        r@ == if paused {
            "p:resume"@
        } else {
            "p:pause"@
        },
{
    if paused {
        "p:resume"
    } else {
        "p:pause"
    }
}

/// The refresh status shown in the summary.
pub fn status_label(paused: bool) -> (r: &'static str)
    ensures
        r@ == if paused {
            "paused"@
        } else {
            "running"@
        },
{
    if paused {
        "paused"
    } else {
        "running"
    }
}

/// The filter hint in the table title: the modal's mode (with a mark when
/// its texts do not parse) while it is open, else whether a filter applies.
pub open spec fn filter_hint_spec(
    modal_open: bool,
    editing: bool,
    has_error: bool,
    filter_active: bool,
) -> Seq<char> {
    if modal_open {
        " filter["@ + (if editing {
            "edit"@
        } else {
            "nav"@
        }) + "]"@ + (if has_error {
            " !"@
        } else {
            Seq::empty()
        })
    } else if filter_active {
        " filter[on]"@
    } else {
        " filter[-]"@
    }
}

/// The filter hint in the table title.
pub fn filter_hint(modal_open: bool, editing: bool, has_error: bool, filter_active: bool) -> (r:
    String)
    ensures
        r@ == filter_hint_spec(modal_open, editing, has_error, filter_active),
{
    let mut r = String::new();
    if modal_open {
        push_str(&mut r, " filter[");
        if editing {
            push_str(&mut r, "edit");
        } else {
            push_str(&mut r, "nav");
        }
        push_str(&mut r, "]");
        if has_error {
            push_str(&mut r, " !");
        }
    } else if filter_active {
        push_str(&mut r, " filter[on]");
    } else {
        push_str(&mut r, " filter[-]");
    }
    r
}

/// `s` followed by spaces up to `width` characters; unchanged when it is
/// at least that long.
pub open spec fn padded(s: Seq<char>, width: int) -> Seq<char> {
    if s.len() >= width {
        s
    } else {
        s + Seq::new((width - s.len()) as nat, |i: int| ' ')
    }
}

/// `s` padded with spaces to `width` characters.
pub fn pad_right(s: &str, width: usize) -> (r: String)
    ensures
        r@ == padded(s@, width as int),
        r@.len() == if s@.len() >= width { s@.len() as int } else { width as int },
        r@.take(s@.len() as int) == s@,
        forall|i: int| s@.len() <= i < r@.len() ==> r@[i] == ' ',
{
    let mut r = String::new();
    push_str(&mut r, s);
    let n = chars_of(s).len();
    if n >= width {
        return r;
    }
    assert(r@.take(s@.len() as int) =~= s@);
    let mut k: usize = 0;
    while k < width - n
        invariant
            n == s@.len(),
            n < width,
            k <= width - n,
            r@ == s@ + Seq::new(k as nat, |i: int| ' '),
        decreases width - n - k,
    {
        push_char(&mut r, ' ');
        assert(s@ + Seq::new((k + 1) as nat, |i: int| ' ') =~= s@ + Seq::new(k as nat, |i: int| ' ')
            + seq![' ']);
        k = k + 1;
    }
    assert(r@.take(s@.len() as int) =~= s@);
    r
}

/// A value of the filter modal, or a dash when it is empty.
pub open spec fn value_or_dash(v: Seq<char>) -> Seq<char> {
    if v.len() == 0 {
        "-"@
    } else {
        v
    }
}

/// The line of a filter modal row: its title padded to eight characters,
/// for a metric its operator padded to two, then its text or a dash.
pub open spec fn filter_line_spec(modal: FilterModalState, row: FilterRow) -> Seq<char> {
    let title = padded(filter_row_title(row), 8);
    let value = value_or_dash(modal_text_spec(modal, row));
    if row is Rss || row is Swap || row is Cpu || row is Uss || row is Pss {
        title + " "@ + padded(operator_label(modal_operator_spec(modal, row)), 2) + " "@ + value
    } else {
        title + " "@ + value
    }
}

/// The line shown for a row of the filter modal.
pub fn filter_row_line(modal: &FilterModalState, row: FilterRow) -> (r: String)
    ensures
        r@ == filter_line_spec(*modal, row),
{
    let mut r = pad_right(row.title(), 8);
    push_str(&mut r, " ");
    if row.is_metric() {
        let op = match row {
            FilterRow::Rss => modal.rss_op,
            FilterRow::Swap => modal.swap_op,
            FilterRow::Cpu => modal.cpu_op,
            FilterRow::Uss => modal.uss_op,
            _ => modal.pss_op,
        };
        let label = pad_right(op.label(), 2);
        push_str(&mut r, label.as_str());
        push_str(&mut r, " ");
    }
    let text = modal_text(modal, row);
    if chars_of(text.as_str()).len() == 0 {
        push_str(&mut r, "-");
    } else {
        push_str(&mut r, text.as_str());
    }
    r
}

/// The title of the filter modal: its mode and keys, then the error when
/// there is one, else the units when a metric row is selected.
pub open spec fn filter_title_spec(
    editing: bool,
    error: Option<Seq<char>>,
    metric_selected: bool,
) -> Seq<char> {
    "Filter ("@ + (if editing {
        "edit"@
    } else {
        "nav"@
    }) + ")  j/k:move  Enter:edit  h/l:op  Esc:close"@ + match error {
        Some(e) => "  error: "@ + e,
        None => if metric_selected {
            "  units: B/KB/MB/GB (1024-base), cpu: % optional"@
        } else {
            Seq::empty()
        },
    }
}

/// The title of the filter modal.
pub fn filter_modal_title(modal: &FilterModalState) -> (r: String)
    ensures
        r@ == filter_title_spec(
            modal.editing,
            match modal.error {
                Some(e) => Some(e@),
                None => None,
            },
            modal.selected < 9 && !(modal.selected == 0 || modal.selected == 1 || modal.selected
                == 2 || modal.selected == 3),
        ),
{
    let mut r = String::new();
    push_str(&mut r, "Filter (");
    if modal.editing {
        push_str(&mut r, "edit");
    } else {
        push_str(&mut r, "nav");
    }
    push_str(&mut r, ")  j/k:move  Enter:edit  h/l:op  Esc:close");
    match &modal.error {
        Some(e) => {
            push_str(&mut r, "  error: ");
            push_str(&mut r, e.as_str());
        },
        None => {
            let metric = match FilterRow::from_index(modal.selected) {
                Some(row) => row.is_metric(),
                None => false,
            };
            if metric {
                push_str(&mut r, "  units: B/KB/MB/GB (1024-base), cpu: % optional");
            }
        },
    }
    r
}

/// The line of a sort key in the sort picker: a mark on the active key,
/// the key's title padded to eight characters, and the direction it sorts
/// in (for another key, the direction it would start with).
pub open spec fn sort_line_spec(key: SortKey, state: SortState) -> Seq<char> {
    let active = key == state.key;
    (if active {
        ">"@
    } else {
        " "@
    }) + " "@ + padded(sort_key_title(key), 8) + " "@ + sort_direction_id_spec(
        if active {
            state.direction
        } else {
            default_direction_spec(key)
        },
    )
}

/// The line shown for `key` in the sort picker.
pub fn sort_picker_line(key: SortKey, state: SortState) -> (r: String)
    ensures
        r@ == sort_line_spec(key, state),
{
    let active = key == state.key;
    let mut r = String::new();
    if active {
        push_str(&mut r, ">");
    } else {
        push_str(&mut r, " ");
    }
    push_str(&mut r, " ");
    let title = pad_right(key.title(), 8);
    push_str(&mut r, title.as_str());
    push_str(&mut r, " ");
    let direction = if active {
        state.direction
    } else {
        key.default_direction()
    };
    push_str(&mut r, direction.id());
    r
}

/// The line of a column in the column picker: whether it is shown, its
/// title, and a note on the column that cannot be hidden.
pub open spec fn column_line_spec(column: ProcessColumn, enabled: bool) -> Seq<char> {
    (if enabled {
        "[x]"@
    } else {
        "[ ]"@
    }) + " "@ + column_title_spec(column) + if column == ProcessColumn::Name {
        " (fixed)"@
    } else {
        Seq::empty()
    }
}

/// The line shown for `column` in the column picker.
pub fn column_picker_line(column: ProcessColumn, enabled: bool) -> (r: String)
    ensures
        r@ == column_line_spec(column, enabled),
{
    let mut r = String::new();
    if enabled {
        push_str(&mut r, "[x]");
    } else {
        push_str(&mut r, "[ ]");
    }
    push_str(&mut r, " ");
    push_str(&mut r, column.title());
    if !column.is_toggleable() {
        push_str(&mut r, " (fixed)");
    }
    r
}

/// A size label of the summary, or `N/A` when unknown.
pub open spec fn option_label(v: Option<u64>) -> Seq<char> {
    match v {
        Some(b) => binary_label(b as nat),
        None => "N/A"@,
    }
}

/// The memory line of the summary.
pub open spec fn memory_line_spec(s: SystemSummary) -> Seq<char> {
    "used "@ + binary_label(s.mem_used as nat) + " / total "@ + binary_label(s.mem_total as nat)
        + " / avail "@ + option_label(s.mem_available) + " / free "@ + binary_label(
        s.mem_free as nat,
    )
}

/// The memory line of the summary.
pub fn memory_line(s: &SystemSummary) -> (r: String)
    ensures
        r@ == memory_line_spec(*s),
{
    let mut r = String::new();
    push_str(&mut r, "used ");
    push_str(&mut r, format_bytes(s.mem_used).as_str());
    push_str(&mut r, " / total ");
    push_str(&mut r, format_bytes(s.mem_total).as_str());
    push_str(&mut r, " / avail ");
    push_str(&mut r, format_option_bytes(s.mem_available).as_str());
    push_str(&mut r, " / free ");
    push_str(&mut r, format_bytes(s.mem_free).as_str());
    r
}

/// The swap line of the summary.
pub open spec fn swap_line_spec(s: SystemSummary) -> Seq<char> {
    "used "@ + binary_label(s.swap_used as nat) + " / total "@ + binary_label(
        s.swap_total as nat,
    ) + " / free "@ + binary_label(s.swap_free as nat)
}

/// The swap line of the summary.
pub fn swap_line(s: &SystemSummary) -> (r: String)
    ensures
        r@ == swap_line_spec(*s),
{
    let mut r = String::new();
    push_str(&mut r, "used ");
    push_str(&mut r, format_bytes(s.swap_used).as_str());
    push_str(&mut r, " / total ");
    push_str(&mut r, format_bytes(s.swap_total).as_str());
    push_str(&mut r, " / free ");
    push_str(&mut r, format_bytes(s.swap_free).as_str());
    r
}

/// A signed number in decimal, as `i32::to_string` writes it.
pub open spec fn signed_decimal(n: int) -> Seq<char> {
    if n < 0 {
        seq!['-'] + decimal_spec((-n) as nat)
    } else {
        decimal_spec(n as nat)
    }
}

/// The process line of the summary: counts, totals, the sort, the view,
/// whether refreshing is paused, the selected process (a dash when none)
/// and the age of the snapshot.
pub open spec fn process_line_spec(
    s: SystemSummary,
    shown: usize,
    sort: SortState,
    mode: ViewMode,
    paused: bool,
    selected: Option<i32>,
    age_ms: u64,
) -> Seq<char> {
    "count "@ + decimal_spec(s.process_count as nat) + " / shown "@ + decimal_spec(shown as nat)
        + " / agg-rss "@ + binary_label(s.total_process_rss as nat) + " / agg-swap "@
        + binary_label(s.total_process_swap as nat) + " / sort "@ + sort_key_id_spec(sort.key)
        + " "@ + sort_direction_id_spec(sort.direction) + " / mode "@ + view_mode_id_spec(mode)
        + " / status "@ + (if paused {
        "paused"@
    } else {
        "running"@
    }) + " / selected "@ + match selected {
        Some(pid) => signed_decimal(pid as int),
        None => "-"@,
    } + " / age "@ + decimal_spec(age_ms as nat) + "ms"@
}

/// The process line of the summary.
pub fn process_line(
    s: &SystemSummary,
    shown: usize,
    sort: SortState,
    mode: ViewMode,
    paused: bool,
    selected: Option<i32>,
    age_ms: u64,
) -> (r: String)
    ensures
        r@ == process_line_spec(*s, shown, sort, mode, paused, selected, age_ms),
{
    let mut r = String::new();
    push_str(&mut r, "count ");
    push_str(&mut r, decimal_string(s.process_count as u64).as_str());
    push_str(&mut r, " / shown ");
    push_str(&mut r, decimal_string(shown as u64).as_str());
    push_str(&mut r, " / agg-rss ");
    push_str(&mut r, format_bytes(s.total_process_rss).as_str());
    push_str(&mut r, " / agg-swap ");
    push_str(&mut r, format_bytes(s.total_process_swap).as_str());
    push_str(&mut r, " / sort ");
    push_str(&mut r, sort.key.id());
    push_str(&mut r, " ");
    push_str(&mut r, sort.direction.id());
    push_str(&mut r, " / mode ");
    push_str(&mut r, mode.id());
    push_str(&mut r, " / status ");
    push_str(&mut r, status_label(paused));
    push_str(&mut r, " / selected ");
    match selected {
        Some(pid) => {
            if pid < 0 {
                push_char(&mut r, '-');
                let magnitude: i64 = -(pid as i64);
                push_str(&mut r, decimal_string(magnitude as u64).as_str());
            } else {
                push_str(&mut r, decimal_string(pid as u64).as_str());
            }
        },
        None => push_str(&mut r, "-"),
    }
    push_str(&mut r, " / age ");
    push_str(&mut r, decimal_string(age_ms).as_str());
    push_str(&mut r, "ms");
    r
}


/// A signed number in decimal, as `to_string` writes it.
pub fn signed_decimal_string(n: i64) -> (r: String)
    ensures
        r@ == signed_decimal(n as int),
{
    if n < 0 {
        let mut r = String::new();
        push_char(&mut r, '-');
        let magnitude: i128 = -(n as i128);
        push_str(&mut r, decimal_string_wide(magnitude as u128).as_str());
        r
    } else {
        decimal_string(n as u64)
    }
}

/// The text of the `column` cell of `row` in the process table, with
/// `name` in the name cell and `owner` in the owner cell. The CPU cell, a
/// percentage with a fraction, has no text here.
pub open spec fn cell_text_spec(
    column: ProcessColumn,
    row: ProcessRow,
    name: Seq<char>,
    owner: Seq<char>,
) -> Option<Seq<char>> {
    match column {
        ProcessColumn::Pid => Some(signed_decimal(row.pid as int)),
        ProcessColumn::Ppid => Some(signed_decimal(row.ppid as int)),
        ProcessColumn::Owner => Some(owner),
        ProcessColumn::Thread => Some(decimal_spec(row.threads as nat)),
        ProcessColumn::Name => Some(name),
        ProcessColumn::Command => Some(row.command@),
        ProcessColumn::Rss => Some(binary_label(row.rss_bytes as nat)),
        ProcessColumn::Uss => Some(option_label(row.uss_bytes)),
        ProcessColumn::Pss => Some(option_label(row.pss_bytes)),
        ProcessColumn::Swap => Some(binary_label(visible_swap_spec(row) as nat)),
        ProcessColumn::Cpu => None,
    }
}

/// The text of the `column` cell of `row` in the process table.
pub fn process_cell_text(column: ProcessColumn, row: &ProcessRow, name: &str, owner: &str) -> (r:
    Option<String>)
    ensures
        match (r, cell_text_spec(column, *row, name@, owner@)) {
            (Some(t), Some(u)) => t@ == u,
            (None, None) => true,
            _ => false,
        },
{
    match column {
        ProcessColumn::Pid => Some(signed_decimal_string(row.pid as i64)),
        ProcessColumn::Ppid => Some(signed_decimal_string(row.ppid as i64)),
        ProcessColumn::Owner => Some(owned_string(owner)),
        ProcessColumn::Thread => Some(decimal_string(row.threads)),
        ProcessColumn::Name => Some(owned_string(name)),
        ProcessColumn::Command => Some(owned_string(row.command.as_str())),
        ProcessColumn::Rss => Some(format_bytes(row.rss_bytes)),
        ProcessColumn::Uss => Some(format_option_bytes(row.uss_bytes)),
        ProcessColumn::Pss => Some(format_option_bytes(row.pss_bytes)),
        ProcessColumn::Swap => Some(format_bytes(row.visible_swap_bytes())),
        ProcessColumn::Cpu => None,
    }
}

/// The title of the process table: the key hints, with the pause hint and
/// the filter hint `hint` in them.
pub open spec fn table_title_spec(paused: bool, hint: Seq<char>) -> Seq<char> {
    "Processes  q:quit  "@ + (if paused {
        "p:resume"@
    } else {
        "p:pause"@
    }) + "  f:filter"@ + hint
        + "  t:tree  v:columns  s:sort  arrows/jk:move  Left/Right:collapse/expand  click:select/toggle  PgUp/PgDn:page"@
}

/// The title of the process table.
pub fn process_table_title(paused: bool, hint: &str) -> (r: String)
    ensures
        r@ == table_title_spec(paused, hint@),
{
    let mut r = String::new();
    push_str(&mut r, "Processes  q:quit  ");
    push_str(&mut r, pause_hint(paused));
    push_str(&mut r, "  f:filter");
    push_str(&mut r, hint);
    push_str(
        &mut r,
        "  t:tree  v:columns  s:sort  arrows/jk:move  Left/Right:collapse/expand  click:select/toggle  PgUp/PgDn:page",
    );
    r
}

} // verus!
