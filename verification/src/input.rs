//! Keyboard input: which command a key press stands for in each overlay.
use crate::num::{offset_saturating, saturating_offset};
use crate::snapshot::{sort_key_seq, SortKey};
use vstd::prelude::*;

verus! {

/// A key of the keyboard, as far as the application tells keys apart.
#[derive(Debug, Clone, Copy, PartialEq, Eq, Structural)]
pub enum KeyCode {
    Char(char),
    Up,
    Down,
    Left,
    Right,
    PageUp,
    PageDown,
    Home,
    End,
    Enter,
    Esc,
    Backspace,
    /// Any other key.
    Other,
}

/// The modifier keys held during a key press.
#[derive(Debug, Clone, Copy, PartialEq, Eq, Structural)]
pub struct KeyModifiers {
    pub shift: bool,
    pub control: bool,
    pub alt: bool,
    /// Super, hyper or meta.
    pub other: bool,
}

impl KeyModifiers {
    /// No modifier held.
    pub fn none() -> (r: Self)
        ensures
            !r.shift && !r.control && !r.alt && !r.other,
    {
        KeyModifiers { shift: false, control: false, alt: false, other: false }
    }

    /// Only shift held.
    pub fn shift_only() -> (r: Self)
        ensures
            r.shift && !r.control && !r.alt && !r.other,
    {
        KeyModifiers { shift: true, control: false, alt: false, other: false }
    }

    /// Only control held.
    pub fn control_only() -> (r: Self)
        ensures
            !r.shift && r.control && !r.alt && !r.other,
    {
        KeyModifiers { shift: false, control: true, alt: false, other: false }
    }
}

/// One key press.
#[derive(Debug, Clone, Copy, PartialEq, Eq, Structural)]
pub struct KeyEvent {
    pub code: KeyCode,
    pub modifiers: KeyModifiers,
}

impl KeyEvent {
    /// A press of `code` with `modifiers` held.
    pub fn new(code: KeyCode, modifiers: KeyModifiers) -> (r: Self)
        ensures
            r.code == code,
            r.modifiers == modifiers,
    {
        KeyEvent { code, modifiers }
    }
}

/// Whether to keep running after a key.
#[derive(Debug, Clone, Copy, PartialEq, Eq, Structural)]
pub enum KeyAction {
    Continue,
    Quit,
}

/// What a key press asks the application to do.
#[derive(Debug, Clone, Copy, PartialEq, Eq, Structural)]
pub enum AppCommand {
    Quit,
    MoveSelection(isize),
    JumpToBoundary { to_start: bool },
    TreeLeft,
    TreeRight,
    ToggleViewMode,
    ToggleColumnPicker,
    ToggleSortPicker,
    ToggleFilterModal,
    MoveFilterSelection(isize),
    ToggleFilterEditing,
    FilterPushChar(char),
    FilterPopChar,
    FilterClear,
    CycleFilterOperator(isize),
    MoveColumnPicker(isize),
    MoveSortPicker(isize),
    ReorderSelectedColumn(isize),
    ToggleSelectedColumn,
    ApplySelectedSort,
    TogglePause,
    CloseOverlay,
    StartProcessMonitor,
    CloseProcessMonitorOverlay,
    Noop,
}

/// Whether no modifier is held.
pub open spec fn no_modifiers(m: KeyModifiers) -> bool {
    !m.shift && !m.control && !m.alt && !m.other
}

/// Whether shift alone is held.
pub open spec fn shift_alone(m: KeyModifiers) -> bool {
    m.shift && !m.control && !m.alt && !m.other
}

/// The command of a key while the filter modal is open and a row is being
/// edited: typing goes into the row.
pub open spec fn editing_command(key: KeyEvent) -> AppCommand {
    match key.code {
        KeyCode::Char('q') if key.modifiers.control => AppCommand::Quit,
        KeyCode::Esc => AppCommand::CloseOverlay,
        KeyCode::Enter => AppCommand::ToggleFilterEditing,
        KeyCode::Backspace => AppCommand::FilterPopChar,
        KeyCode::Char('u') if key.modifiers.control => AppCommand::FilterClear,
        KeyCode::Char(ch) if no_modifiers(key.modifiers) || shift_alone(key.modifiers) => {
            AppCommand::FilterPushChar(ch)
        },
        _ => AppCommand::Noop,
    }
}

/// The command of a key while the filter modal is open, rows not being
/// edited.
pub open spec fn filter_nav_command(key: KeyEvent) -> AppCommand {
    match key.code {
        KeyCode::Char('q') if key.modifiers.control => AppCommand::Quit,
        KeyCode::Esc => AppCommand::CloseOverlay,
        KeyCode::Enter => AppCommand::ToggleFilterEditing,
        KeyCode::Up | KeyCode::Char('k') => AppCommand::MoveFilterSelection(-1isize),
        KeyCode::Down | KeyCode::Char('j') => AppCommand::MoveFilterSelection(1),
        KeyCode::Left | KeyCode::Char('h') => AppCommand::CycleFilterOperator(-1isize),
        KeyCode::Right | KeyCode::Char('l') => AppCommand::CycleFilterOperator(1),
        KeyCode::Backspace => AppCommand::FilterPopChar,
        KeyCode::Char('u') if key.modifiers.control => AppCommand::FilterClear,
        KeyCode::Char(ch) if no_modifiers(key.modifiers) || shift_alone(key.modifiers) => {
            AppCommand::FilterPushChar(ch)
        },
        _ => AppCommand::Noop,
    }
}

/// The command of a key while the column picker is open.
pub open spec fn column_picker_command(key: KeyEvent) -> AppCommand {
    match key.code {
        KeyCode::Char('q') => AppCommand::Quit,
        KeyCode::Esc => AppCommand::CloseOverlay,
        KeyCode::Char('v') => AppCommand::ToggleColumnPicker,
        KeyCode::Char('s') => AppCommand::ToggleSortPicker,
        KeyCode::Up if key.modifiers.shift => AppCommand::ReorderSelectedColumn(-1isize),
        KeyCode::Down if key.modifiers.shift => AppCommand::ReorderSelectedColumn(1),
        KeyCode::Char('K') => AppCommand::ReorderSelectedColumn(-1isize),
        KeyCode::Char('J') => AppCommand::ReorderSelectedColumn(1),
        KeyCode::Up | KeyCode::Char('k') => AppCommand::MoveColumnPicker(-1isize),
        KeyCode::Down | KeyCode::Char('j') => AppCommand::MoveColumnPicker(1),
        KeyCode::Char(' ') | KeyCode::Enter => AppCommand::ToggleSelectedColumn,
        _ => AppCommand::Noop,
    }
}

/// The command of a key while the sort picker is open.
pub open spec fn sort_picker_command(key: KeyEvent) -> AppCommand {
    match key.code {
        KeyCode::Char('q') => AppCommand::Quit,
        KeyCode::Esc => AppCommand::CloseOverlay,
        KeyCode::Char('v') => AppCommand::ToggleColumnPicker,
        KeyCode::Char('s') => AppCommand::ToggleSortPicker,
        KeyCode::Up | KeyCode::Char('k') => AppCommand::MoveSortPicker(-1isize),
        KeyCode::Down | KeyCode::Char('j') => AppCommand::MoveSortPicker(1),
        KeyCode::Char(' ') | KeyCode::Enter => AppCommand::ApplySelectedSort,
        _ => AppCommand::Noop,
    }
}

/// The command of a key in the process table; a page is the viewport
/// height, at least one row.
pub open spec fn table_command(key: KeyEvent, viewport_rows: usize) -> AppCommand {
    let page = (if viewport_rows < 1 {
        1
    } else {
        viewport_rows
    }) as isize;
    match key.code {
        KeyCode::Char('q') => AppCommand::Quit,
        KeyCode::Up | KeyCode::Char('k') => AppCommand::MoveSelection(-1isize),
        KeyCode::Down | KeyCode::Char('j') => AppCommand::MoveSelection(1),
        KeyCode::PageUp => AppCommand::MoveSelection(
            if page == isize::MIN {
                page
            } else {
                (-page) as isize
            },
        ),
        KeyCode::PageDown => AppCommand::MoveSelection(page),
        KeyCode::Home => AppCommand::JumpToBoundary { to_start: true },
        KeyCode::End => AppCommand::JumpToBoundary { to_start: false },
        KeyCode::Left => AppCommand::TreeLeft,
        KeyCode::Right => AppCommand::TreeRight,
        KeyCode::Char('t') => AppCommand::ToggleViewMode,
        KeyCode::Char('v') => AppCommand::ToggleColumnPicker,
        KeyCode::Char('s') => AppCommand::ToggleSortPicker,
        KeyCode::Char('f') => AppCommand::ToggleFilterModal,
        KeyCode::Char('p') => AppCommand::TogglePause,
        KeyCode::Enter => AppCommand::StartProcessMonitor,
        _ => AppCommand::Noop,
    }
}

/// The command a key stands for: the process monitor takes keys first,
/// then the filter modal, the column picker, the sort picker, and last the
/// table.
pub open spec fn key_command_spec(
    key: KeyEvent,
    viewport_rows: usize,
    column_picker_open: bool,
    sort_picker_open: bool,
    filter_modal_open: bool,
    filter_modal_editing: bool,
    process_monitor_open: bool,
) -> AppCommand {
    if process_monitor_open {
        match key.code {
            KeyCode::Char('q') => AppCommand::Quit,
            KeyCode::Esc => AppCommand::CloseProcessMonitorOverlay,
            _ => AppCommand::Noop,
        }
    } else if filter_modal_open {
        if filter_modal_editing {
            editing_command(key)
        } else {
            filter_nav_command(key)
        }
    } else if column_picker_open {
        column_picker_command(key)
    } else if sort_picker_open {
        sort_picker_command(key)
    } else {
        table_command(key, viewport_rows)
    }
}

/// The key bindings, key by key: the monitor overlay answers only `q`
/// and Esc; the filter modal, while editing, types characters and answers
/// Esc, Enter, Backspace, Ctrl+Q and Ctrl+U; while navigating it also moves
/// between rows with Up/Down or k/j and cycles operators with Left/Right
/// or h/l; the pickers move with Up/Down or k/j, apply with Enter or Space,
/// close with Esc and switch with v and s (the column picker moves columns
/// with Shift+Up/Down or K/J); the table moves with Up/Down or k/j, pages
/// by the viewport height, jumps with Home/End, walks the tree with
/// Left/Right and opens the overlays, the tree view, pause and the monitor
/// with t, v, s, f, p and Enter; `q` quits everywhere but while typing.
pub open spec fn key_bindings_hold(
    key: KeyEvent,
    viewport_rows: usize,
    column_picker_open: bool,
    sort_picker_open: bool,
    filter_modal_open: bool,
    filter_modal_editing: bool,
    process_monitor_open: bool,
    r: AppCommand,
) -> bool {
    let code = key.code;
    let m = key.modifiers;
    let plain = !m.shift && !m.control && !m.alt && !m.other;
    let typing = plain || (m.shift && !m.control && !m.alt && !m.other);
    let monitor = process_monitor_open;
    let editing = !monitor && filter_modal_open && filter_modal_editing;
    let navigating = !monitor && filter_modal_open && !filter_modal_editing;
    let columns = !monitor && !filter_modal_open && column_picker_open;
    let sorts = !monitor && !filter_modal_open && !column_picker_open && sort_picker_open;
    let table = !monitor && !filter_modal_open && !column_picker_open && !sort_picker_open;
    let page: int = if viewport_rows < 1 { 1 } else { viewport_rows as int };
    let up = code == KeyCode::Up || code == KeyCode::Char('k');
    let down = code == KeyCode::Down || code == KeyCode::Char('j');
    &&& monitor ==> (code == KeyCode::Char('q') ==> r == AppCommand::Quit) && (code == KeyCode::Esc
        ==> r == AppCommand::CloseProcessMonitorOverlay) && (code != KeyCode::Char('q') && code
        != KeyCode::Esc ==> r == AppCommand::Noop)
    &&& (editing || navigating) ==> (code == KeyCode::Esc ==> r == AppCommand::CloseOverlay) && (
    code == KeyCode::Enter ==> r == AppCommand::ToggleFilterEditing) && (code == KeyCode::Backspace
        ==> r == AppCommand::FilterPopChar) && (code == KeyCode::Char('q') && m.control ==> r
        == AppCommand::Quit) && (code == KeyCode::Char('u') && m.control ==> r
        == AppCommand::FilterClear)
    &&& editing ==> (code matches KeyCode::Char(ch) ==> (typing ==> r == AppCommand::FilterPushChar(
        ch,
    )))
    &&& navigating ==> (up ==> r == AppCommand::MoveFilterSelection(-1isize)) && (down ==> r
        == AppCommand::MoveFilterSelection(1isize)) && ((code == KeyCode::Left || code
        == KeyCode::Char('h')) ==> r == AppCommand::CycleFilterOperator(-1isize)) && ((code
        == KeyCode::Right || code == KeyCode::Char('l')) ==> r == AppCommand::CycleFilterOperator(
        1isize,
    ))
    &&& navigating ==> (code matches KeyCode::Char(ch) ==> (typing && ch != 'k' && ch != 'j' && ch
        != 'h' && ch != 'l' && !(ch == 'q' && m.control) && !(ch == 'u' && m.control) ==> r
        == AppCommand::FilterPushChar(ch)))
    &&& (columns || sorts || table) ==> (code == KeyCode::Char('q') ==> r == AppCommand::Quit)
    &&& (columns || sorts) ==> (code == KeyCode::Esc ==> r == AppCommand::CloseOverlay) && (code
        == KeyCode::Char('v') ==> r == AppCommand::ToggleColumnPicker) && (code == KeyCode::Char('s')
        ==> r == AppCommand::ToggleSortPicker)
    &&& columns ==> ((code == KeyCode::Up && m.shift) || code == KeyCode::Char('K') ==> r
        == AppCommand::ReorderSelectedColumn(-1isize)) && ((code == KeyCode::Down && m.shift)
        || code == KeyCode::Char('J') ==> r == AppCommand::ReorderSelectedColumn(1isize)) && (
    up && !m.shift ==> r == AppCommand::MoveColumnPicker(-1isize)) && (down && !m.shift ==> r
        == AppCommand::MoveColumnPicker(1isize)) && ((code == KeyCode::Enter || code
        == KeyCode::Char(' ')) ==> r == AppCommand::ToggleSelectedColumn)
    &&& sorts ==> (up ==> r == AppCommand::MoveSortPicker(-1isize)) && (down ==> r
        == AppCommand::MoveSortPicker(1isize)) && ((code == KeyCode::Enter || code
        == KeyCode::Char(' ')) ==> r == AppCommand::ApplySelectedSort)
    &&& table ==> (up ==> r == AppCommand::MoveSelection(-1isize)) && (down ==> r
        == AppCommand::MoveSelection(1isize)) && (code == KeyCode::PageUp && page <= isize::MAX ==> r
        == AppCommand::MoveSelection((-page) as isize)) && (code == KeyCode::PageDown && page
        <= isize::MAX ==> r == AppCommand::MoveSelection(page as isize)) && (code == KeyCode::Home ==> r == AppCommand::JumpToBoundary {
        to_start: true,
    }) && (code == KeyCode::End ==> r == AppCommand::JumpToBoundary { to_start: false }) && (code
        == KeyCode::Left ==> r == AppCommand::TreeLeft) && (code == KeyCode::Right ==> r
        == AppCommand::TreeRight) && (code == KeyCode::Char('t') ==> r == AppCommand::ToggleViewMode)
        && (code == KeyCode::Char('v') ==> r == AppCommand::ToggleColumnPicker) && (code
        == KeyCode::Char('s') ==> r == AppCommand::ToggleSortPicker) && (code == KeyCode::Char('f')
        ==> r == AppCommand::ToggleFilterModal) && (code == KeyCode::Char('p') ==> r
        == AppCommand::TogglePause) && (code == KeyCode::Enter ==> r
        == AppCommand::StartProcessMonitor)
}

/// The command a key stands for, given which overlays are open.
pub fn key_command(
    key: KeyEvent,
    viewport_rows: usize,
    column_picker_open: bool,
    sort_picker_open: bool,
    filter_modal_open: bool,
    filter_modal_editing: bool,
    process_monitor_open: bool,
) -> (r: AppCommand)
    ensures
        r == key_command_spec(
            key,
            viewport_rows,
            column_picker_open,
            sort_picker_open,
            filter_modal_open,
            filter_modal_editing,
            process_monitor_open,
        ),
        key_bindings_hold(
            key,
            viewport_rows,
            column_picker_open,
            sort_picker_open,
            filter_modal_open,
            filter_modal_editing,
            process_monitor_open,
            r,
        ),
{
    let code = key.code;
    let m = key.modifiers;
    let plain_or_shift = (!m.shift && !m.control && !m.alt && !m.other) || (m.shift && !m.control
        && !m.alt && !m.other);
    if process_monitor_open {
        return match code {
            KeyCode::Char('q') => AppCommand::Quit,
            KeyCode::Esc => AppCommand::CloseProcessMonitorOverlay,
            _ => AppCommand::Noop,
        };
    }
    if filter_modal_open {
        if filter_modal_editing {
            return match code {
                KeyCode::Char('q') if m.control => AppCommand::Quit,
                KeyCode::Esc => AppCommand::CloseOverlay,
                KeyCode::Enter => AppCommand::ToggleFilterEditing,
                KeyCode::Backspace => AppCommand::FilterPopChar,
                KeyCode::Char('u') if m.control => AppCommand::FilterClear,
                KeyCode::Char(ch) if plain_or_shift => AppCommand::FilterPushChar(ch),
                _ => AppCommand::Noop,
            };
        }
        return match code {
            KeyCode::Char('q') if m.control => AppCommand::Quit,
            KeyCode::Esc => AppCommand::CloseOverlay,
            KeyCode::Enter => AppCommand::ToggleFilterEditing,
            KeyCode::Up | KeyCode::Char('k') => AppCommand::MoveFilterSelection(-1isize),
            KeyCode::Down | KeyCode::Char('j') => AppCommand::MoveFilterSelection(1),
            KeyCode::Left | KeyCode::Char('h') => AppCommand::CycleFilterOperator(-1isize),
            KeyCode::Right | KeyCode::Char('l') => AppCommand::CycleFilterOperator(1),
            KeyCode::Backspace => AppCommand::FilterPopChar,
            KeyCode::Char('u') if m.control => AppCommand::FilterClear,
            KeyCode::Char(ch) if plain_or_shift => AppCommand::FilterPushChar(ch),
            _ => AppCommand::Noop,
        };
    }
    if column_picker_open {
        return match code {
            KeyCode::Char('q') => AppCommand::Quit,
            KeyCode::Esc => AppCommand::CloseOverlay,
            KeyCode::Char('v') => AppCommand::ToggleColumnPicker,
            KeyCode::Char('s') => AppCommand::ToggleSortPicker,
            KeyCode::Up if m.shift => AppCommand::ReorderSelectedColumn(-1isize),
            KeyCode::Down if m.shift => AppCommand::ReorderSelectedColumn(1),
            KeyCode::Char('K') => AppCommand::ReorderSelectedColumn(-1isize),
            KeyCode::Char('J') => AppCommand::ReorderSelectedColumn(1),
            KeyCode::Up | KeyCode::Char('k') => AppCommand::MoveColumnPicker(-1isize),
            KeyCode::Down | KeyCode::Char('j') => AppCommand::MoveColumnPicker(1),
            KeyCode::Char(' ') | KeyCode::Enter => AppCommand::ToggleSelectedColumn,
            _ => AppCommand::Noop,
        };
    }
    if sort_picker_open {
        return match code {
            KeyCode::Char('q') => AppCommand::Quit,
            KeyCode::Esc => AppCommand::CloseOverlay,
            KeyCode::Char('v') => AppCommand::ToggleColumnPicker,
            KeyCode::Char('s') => AppCommand::ToggleSortPicker,
            KeyCode::Up | KeyCode::Char('k') => AppCommand::MoveSortPicker(-1isize),
            KeyCode::Down | KeyCode::Char('j') => AppCommand::MoveSortPicker(1),
            KeyCode::Char(' ') | KeyCode::Enter => AppCommand::ApplySelectedSort,
            _ => AppCommand::Noop,
        };
    }
    let rows = if viewport_rows < 1 {
        1
    } else {
        viewport_rows
    };
    let page_step = rows as isize;
    match code {
        KeyCode::Char('q') => AppCommand::Quit,
        KeyCode::Up | KeyCode::Char('k') => AppCommand::MoveSelection(-1isize),
        KeyCode::Down | KeyCode::Char('j') => AppCommand::MoveSelection(1),
        KeyCode::PageUp => AppCommand::MoveSelection(
            if page_step == isize::MIN {
                page_step
            } else {
                -page_step
            },
        ),
        KeyCode::PageDown => AppCommand::MoveSelection(page_step),
        KeyCode::Home => AppCommand::JumpToBoundary { to_start: true },
        KeyCode::End => AppCommand::JumpToBoundary { to_start: false },
        KeyCode::Left => AppCommand::TreeLeft,
        KeyCode::Right => AppCommand::TreeRight,
        KeyCode::Char('t') => AppCommand::ToggleViewMode,
        KeyCode::Char('v') => AppCommand::ToggleColumnPicker,
        KeyCode::Char('s') => AppCommand::ToggleSortPicker,
        KeyCode::Char('f') => AppCommand::ToggleFilterModal,
        KeyCode::Char('p') => AppCommand::TogglePause,
        KeyCode::Enter => AppCommand::StartProcessMonitor,
        _ => AppCommand::Noop,
    }
}

/// `current` moved by `delta`, saturating at the ends of `usize`, then
/// limited to `max_index`.
pub open spec fn moved_index_spec(current: usize, delta: isize, max_index: usize) -> usize {
    let m = saturating_offset(current as int, delta as int);
    (if m < max_index {
        m
    } else {
        max_index as int
    }) as usize
}

/// Moves an index of a list by `delta`, staying within `0..=max_index`.
pub fn moved_index(current: usize, delta: isize, max_index: usize) -> (r: usize)
    ensures
        r == moved_index_spec(current, delta, max_index),
        r <= max_index,
        0 <= current + delta <= max_index ==> r == current + delta,
        current + delta < 0 ==> r == 0,
        current + delta > max_index ==> r == max_index,
{
    let m = offset_saturating(current, delta);
    if m < max_index {
        m
    } else {
        max_index
    }
}

/// The position of a sort key in the sort picker.
pub fn sort_key_index(sort_key: SortKey) -> (r: usize)
    ensures
        r < 8,
        sort_key_seq()[r as int] == sort_key,
{
    match sort_key {
        SortKey::Pid => 0,
        SortKey::Ppid => 1,
        SortKey::Owner => 2,
        SortKey::Name => 3,
        SortKey::Command => 4,
        SortKey::Rss => 5,
        SortKey::Swap => 6,
        SortKey::Cpu => 7,
    }
}

/// What the mouse did.
#[derive(Debug, Clone, Copy, PartialEq, Eq, Structural)]
pub enum MouseEventKind {
    /// The left button went down.
    LeftDown,
    ScrollUp,
    ScrollDown,
    /// Anything else.
    Other,
}

/// One mouse event at a terminal cell.
#[derive(Debug, Clone, Copy, PartialEq, Eq, Structural)]
pub struct MouseEvent {
    pub kind: MouseEventKind,
    pub column: u16,
    pub row: u16,
}

} // verus!
