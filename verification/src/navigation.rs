//! Scrolling, selection movement and hit testing in the process table.
use crate::snapshot::ProcessRow;
use crate::tree::TreeRow;
use crate::view::ViewMode;
use vstd::prelude::*;

verus! {

/// A rectangle of terminal cells.
#[derive(Debug, Clone, Copy, PartialEq, Eq, Structural)]
pub struct Rect {
    /// Column of the left edge.
    pub x: u16,
    /// Row of the top edge.
    pub y: u16,
    /// Number of columns.
    pub width: u16,
    /// Number of rows.
    pub height: u16,
}

impl Rect {
    /// The rectangle with the given corner and size.
    pub fn new(x: u16, y: u16, width: u16, height: u16) -> (r: Self)
        ensures
            r == (Rect { x, y, width, height }),
    {
        Rect { x, y, width, height }
    }
}

/// `a - b`, or zero when `b` is larger.
pub open spec fn sat_sub(a: int, b: int) -> int {
    if a > b {
        a - b
    } else {
        0
    }
}

/// `a + b`, or `max` when the sum is larger.
pub open spec fn sat_add(a: int, b: int, max: int) -> int {
    if a + b > max {
        max
    } else {
        a + b
    }
}

/// The largest scroll offset that still fills the viewport.
pub open spec fn max_scroll_offset(total_rows: int, viewport_rows: int) -> int {
    sat_sub(total_rows, if viewport_rows < 1 {
        1
    } else {
        viewport_rows
    })
}

/// The scroll offset limited to the last page.
pub open spec fn clamped_offset(scroll_offset: int, total_rows: int, viewport_rows: int) -> int {
    let m = max_scroll_offset(total_rows, viewport_rows);
    if scroll_offset < m {
        scroll_offset
    } else {
        m
    }
}

/// Limits the scroll offset so that the last page is the lowest one shown.
pub fn clamp_scroll_offset(scroll_offset: usize, total_rows: usize, viewport_rows: usize) -> (r:
    usize)
    ensures
        r == clamped_offset(scroll_offset as int, total_rows as int, viewport_rows as int),
        ({
            let rows: int = if viewport_rows < 1 { 1 } else { viewport_rows as int };
            let last: int = if total_rows > rows { total_rows - rows } else { 0 };
            &&& r <= scroll_offset
            &&& r <= last
            &&& (r == scroll_offset || r == last)
        }),
{
    let rows = if viewport_rows < 1 {
        1
    } else {
        viewport_rows
    };
    let max_offset = total_rows.saturating_sub(rows);
    if scroll_offset < max_offset {
        scroll_offset
    } else {
        max_offset
    }
}

/// The scroll offset that shows row `selected_visible`: unchanged when the
/// row is on the current page, else the offset that puts the row at the top
/// (moving up) or at the bottom (moving down); then limited to the last
/// page.
pub open spec fn visible_offset(
    selected_visible: int,
    scroll_offset: int,
    viewport_rows: int,
    total_rows: int,
) -> int {
    let rows = if viewport_rows < 1 {
        1
    } else {
        viewport_rows
    };
    let next = if selected_visible < scroll_offset {
        selected_visible
    } else if selected_visible >= sat_add(scroll_offset, rows, usize::MAX as int) {
        sat_sub(selected_visible, rows - 1)
    } else {
        scroll_offset
    };
    clamped_offset(next, total_rows, rows)
}

/// Moves the scroll offset just enough to show row `selected_visible`.
pub fn ensure_visible_scroll(
    selected_visible: usize,
    scroll_offset: usize,
    viewport_rows: usize,
    total_rows: usize,
) -> (r: usize)
    ensures
        r == visible_offset(
            selected_visible as int,
            scroll_offset as int,
            viewport_rows as int,
            total_rows as int,
        ),
        ({
            let rows: int = if viewport_rows < 1 { 1 } else { viewport_rows as int };
            let last: int = if total_rows > rows { total_rows - rows } else { 0 };
            &&& r <= last
            &&& scroll_offset <= selected_visible < scroll_offset + rows && scroll_offset <= last
                ==> r == scroll_offset
            &&& selected_visible < scroll_offset ==> r == if selected_visible < last {
                selected_visible as int
            } else {
                last
            }
            &&& selected_visible >= scroll_offset + rows ==> r == if selected_visible - rows + 1
                < last {
                selected_visible - rows + 1
            } else {
                last
            }
            &&& selected_visible < total_rows ==> r <= selected_visible < r + rows
        }),
{
    let rows = if viewport_rows < 1 {
        1
    } else {
        viewport_rows
    };
    let next_offset = if selected_visible < scroll_offset {
        selected_visible
    } else {
        let view_end = scroll_offset.saturating_add(rows);
        if selected_visible >= view_end {
            selected_visible.saturating_sub(rows - 1)
        } else {
            scroll_offset
        }
    };
    clamp_scroll_offset(next_offset, total_rows, rows)
}

/// Showing a row of the table: after `ensure_visible_scroll`, the selected
/// row lies within the viewport (of at least one row), and the offset is
/// on or before the last page, whenever the table has that row.
pub proof fn lemma_ensure_visible_shows_row(
    selected_visible: int,
    scroll_offset: int,
    viewport_rows: int,
    total_rows: int,
)
    requires
        0 <= selected_visible < total_rows <= usize::MAX,
        0 <= scroll_offset <= usize::MAX,
        0 <= viewport_rows <= usize::MAX,
    ensures
        ({
            let rows = if viewport_rows < 1 {
                1
            } else {
                viewport_rows
            };
            let r = visible_offset(selected_visible, scroll_offset, viewport_rows, total_rows);
            &&& r <= selected_visible < r + rows
            &&& r <= sat_sub(total_rows, rows)
        }),
{
}

/// The row selected again after a refresh: the first row with the
/// previously selected process id, else the first row.
pub fn restored_selection(selected_pid: Option<i32>, processes: &[ProcessRow]) -> (r: usize)
    ensures
        processes.len() == 0 ==> r == 0,
        processes.len() > 0 ==> r < processes.len(),
        processes.len() > 0 ==> match selected_pid {
            Some(pid) => {
                if exists|k: int| 0 <= k < processes.len() && processes@[k].pid == pid {
                    processes@[r as int].pid == pid && forall|m: int|
                        0 <= m < r ==> processes@[m].pid != pid
                } else {
                    r == 0
                }
            },
            None => r == 0,
        },
{
    if processes.len() == 0 {
        return 0;
    }
    match selected_pid {
        Some(pid) => {
            let mut k: usize = 0;
            while k < processes.len()
                invariant
                    k <= processes.len(),
                    processes.len() > 0,
                    selected_pid == Some(pid),
                    forall|m: int| 0 <= m < k ==> processes@[m].pid != pid,
                decreases processes.len() - k,
            {
                if processes[k].pid == pid {
                    assert(processes@[k as int].pid == pid);
                    return k;
                }
                k = k + 1;
            }
            0
        },
        None => 0,
    }
}

/// The visible index `delta` rows away from `current`, limited to the rows
/// of the table; none without a current index or without rows.
pub fn move_visible_index(current: Option<usize>, delta: isize, total_rows: usize) -> (r: Option<
    usize,
>)
    requires
        total_rows <= isize::MAX + 1,
        current matches Some(c) ==> c <= isize::MAX && isize::MIN <= c + delta <= isize::MAX,
    ensures
        r == match current {
            None => None,
            Some(c) => if total_rows == 0 {
                None
            } else if c + delta < 0 {
                Some(0usize)
            } else if c + delta > total_rows - 1 {
                Some((total_rows - 1) as usize)
            } else {
                Some((c + delta) as usize)
            },
        },
{
    let c = match current {
        Some(c) => c,
        None => {
            return None;
        },
    };
    if total_rows == 0 {
        return None;
    }
    let max_index = (total_rows - 1) as isize;
    let moved = c as isize + delta;
    if moved < 0 {
        Some(0)
    } else if moved > max_index {
        Some((total_rows - 1) as usize)
    } else {
        Some(moved as usize)
    }
}

/// The process selected by jumping to the start or the end of the table:
/// in the flat view the first or last process, in the tree view the process
/// of the first or last tree row (the first process when there is none).
pub fn boundary_selection(
    view_mode: ViewMode,
    process_count: usize,
    tree_rows: &[TreeRow],
    to_start: bool,
) -> (r: usize)
    ensures
        r == match view_mode {
            ViewMode::Flat => if to_start {
                0
            } else {
                sat_sub(process_count as int, 1)
            },
            ViewMode::Tree => if tree_rows.len() == 0 {
                0
            } else if to_start {
                tree_rows@[0].process_index as int
            } else {
                tree_rows@[tree_rows.len() - 1].process_index as int
            },
        },
{
    match view_mode {
        ViewMode::Flat => if to_start {
            0
        } else {
            process_count.saturating_sub(1)
        },
        ViewMode::Tree => if tree_rows.len() == 0 {
            0
        } else if to_start {
            tree_rows[0].process_index
        } else {
            tree_rows[tree_rows.len() - 1].process_index
        },
    }
}

/// The data row under a click at (`column`, `row`) in the bordered table
/// `area`, counted from the first data row; none outside the data rows.
pub open spec fn table_hit_test_spec(area: Rect, column: u16, row: u16) -> Option<usize> {
    let left = sat_add(area.x as int, 1, u16::MAX as int);
    let right = sat_add(area.x as int, sat_sub(area.width as int, 2), u16::MAX as int);
    let first = sat_add(area.y as int, 2, u16::MAX as int);
    let last = sat_add(area.y as int, sat_sub(area.height as int, 2), u16::MAX as int);
    if area.width < 3 || area.height < 4 || column < left || column > right || row < first || row
        > last {
        None
    } else {
        Some((row - first) as usize)
    }
}

/// Whether (`column`, `row`) lies in `area`, borders included.
pub open spec fn is_inside_spec(area: Rect, column: u16, row: u16) -> bool {
    area.x <= column <= sat_add(area.x as int, sat_sub(area.width as int, 1), u16::MAX as int)
        && area.y <= row <= sat_add(area.y as int, sat_sub(area.height as int, 1), u16::MAX as int)
}

/// The data row under a click at (`column`, `row`) in the bordered table
/// `area`, counted from the first data row below the header; none outside
/// the data rows or in a table too small to hold one.
pub fn table_hit_test(area: Rect, column: u16, row: u16) -> (r: Option<usize>)
    ensures
        r == table_hit_test_spec(area, column, row),
        area.width < 3 || area.height < 4 ==> r is None,
        area.x + area.width <= u16::MAX && area.y + area.height <= u16::MAX ==> r == if area.width
            >= 3 && area.height >= 4 && area.x + 1 <= column <= area.x + area.width - 2 && area.y
            + 2 <= row <= area.y + area.height - 2 {
            Some((row - area.y - 2) as usize)
        } else {
            None
        },
{
    if area.width < 3 || area.height < 4 {
        return None;
    }
    let left = area.x.saturating_add(1);
    let right = area.x.saturating_add(area.width.saturating_sub(2));
    if column < left || column > right {
        return None;
    }
    let first_data_row = area.y.saturating_add(2);
    let last_data_row = area.y.saturating_add(area.height.saturating_sub(2));
    if row < first_data_row || row > last_data_row {
        return None;
    }
    Some((row - first_data_row) as usize)
}

/// Whether (`column`, `row`) lies in `area`, borders included.
pub fn is_inside_table(area: Rect, column: u16, row: u16) -> (r: bool)
    ensures
        r == is_inside_spec(area, column, row),
        area.width >= 1 && area.height >= 1 && area.x + area.width <= u16::MAX && area.y
            + area.height <= u16::MAX ==> (r <==> (area.x <= column < area.x + area.width
            && area.y <= row < area.y + area.height)),
{
    let right = area.x.saturating_add(area.width.saturating_sub(1));
    let bottom = area.y.saturating_add(area.height.saturating_sub(1));
    area.x <= column && column <= right && area.y <= row && row <= bottom
}

} // verus!
