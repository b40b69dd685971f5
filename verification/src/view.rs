//! The table view mode and the window of rows it shows.
use vstd::prelude::*;

verus! {

/// Whether the table lists processes flat or as a tree.
#[derive(Debug, Clone, Copy, PartialEq, Eq, Structural)]
pub enum ViewMode {
    Flat,
    Tree,
}

/// The identifier of a view mode, used in the configuration file.
pub open spec fn view_mode_id_spec(mode: ViewMode) -> Seq<char> {
    match mode {
        ViewMode::Flat => "flat"@,
        ViewMode::Tree => "tree"@,
    }
}

/// The other view mode.
pub open spec fn other_view(mode: ViewMode) -> ViewMode {
    match mode {
        ViewMode::Flat => ViewMode::Tree,
        ViewMode::Tree => ViewMode::Flat,
    }
}

/// Switching the view twice gives back the view.
pub proof fn lemma_view_toggle_involution(mode: ViewMode)
    ensures
        other_view(other_view(mode)) == mode,
        other_view(mode) != mode,
{
}

impl ViewMode {
    /// The other view mode.
    pub fn toggle(self) -> (r: Self)
        ensures
            r == other_view(self),
    {
        match self {
            ViewMode::Flat => ViewMode::Tree,
            ViewMode::Tree => ViewMode::Flat,
        }
    }

    /// Returns the identifier of this view mode.
    pub fn id(self) -> (r: &'static str)
        ensures
            r@ == view_mode_id_spec(self),
    {
        match self {
            ViewMode::Flat => "flat",
            ViewMode::Tree => "tree",
        }
    }
}

/// The rows a viewport shows: from the scroll offset, at most
/// `viewport_rows` rows, within `total_rows`.
pub fn visible_row_range(scroll_offset: usize, viewport_rows: usize, total_rows: usize) -> (r:
    std::ops::Range<usize>)
    ensures
        r.start == if scroll_offset < total_rows {
            scroll_offset
        } else {
            total_rows
        },
        r.end == if r.start + viewport_rows < total_rows {
            (r.start + viewport_rows) as usize
        } else {
            total_rows
        },
{
    let start = if scroll_offset < total_rows {
        scroll_offset
    } else {
        total_rows
    };
    let sum = start.saturating_add(viewport_rows);
    let end = if sum < total_rows {
        sum
    } else {
        total_rows
    };
    start..end
}

} // verus!
