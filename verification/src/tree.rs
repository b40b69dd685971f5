//! The process tree: parent links, expanded nodes and the rows the tree view
//! shows.
use crate::owners::OwnerNameResolver;
use crate::snapshot::{ProcessRow, SortKey, SortState};
use crate::sort::{is_sorted_indexes, name_views, owner_names_for, sort_indexes_with_owner_names};
use crate::view::ViewMode;
use std::collections::{HashMap, HashSet};
use vstd::prelude::*;

verus! {

broadcast use vstd::std_specs::hash::group_hash_axioms;

/// One row of the tree view.
#[derive(Debug)]
pub struct TreeRow {
    /// Index of the process in the snapshot.
    pub process_index: usize,
    /// Distance from the root of its tree.
    pub depth: usize,
    /// Whether the process has child processes.
    pub has_children: bool,
    /// Whether the children are shown.
    pub expanded: bool,
    /// Index of the parent process, if it is in the snapshot.
    pub parent_index: Option<usize>,
    /// Whether this is the last child of its parent.
    pub is_last_sibling: bool,
    /// For each ancestor level, whether a later sibling follows there, which
    /// draws a vertical guide.
    pub ancestor_has_next_sibling: Vec<bool>,
}

/// The offset of the expand toggle within the name cell of a row with
/// `guides` guides at `depth`: three cells per guide (the count taken as a
/// `u16`), two more for the branch marker below the root level, limited to
/// the largest `u16`.
pub open spec fn toggle_offset_spec(guides: nat, depth: usize) -> int {
    let g: int = (guides % 65536) as int;
    let offset = if g * 3 > u16::MAX {
        u16::MAX as int
    } else {
        g * 3
    };
    if depth > 0 {
        if offset + 2 > u16::MAX {
            u16::MAX as int
        } else {
            offset + 2
        }
    } else {
        offset
    }
}

/// What a tree row holds, with its guides as a sequence.
pub struct TreeRowModel {
    pub process_index: usize,
    pub depth: usize,
    pub has_children: bool,
    pub expanded: bool,
    pub parent_index: Option<usize>,
    pub is_last_sibling: bool,
    pub ancestor_has_next_sibling: Seq<bool>,
}

impl View for TreeRow {
    type V = TreeRowModel;

    open spec fn view(&self) -> TreeRowModel {
        TreeRowModel {
            process_index: self.process_index,
            depth: self.depth,
            has_children: self.has_children,
            expanded: self.expanded,
            parent_index: self.parent_index,
            is_last_sibling: self.is_last_sibling,
            ancestor_has_next_sibling: self.ancestor_has_next_sibling@,
        }
    }
}

/// The models of a list of rows.
pub open spec fn rows_view(rows: Seq<TreeRow>) -> Seq<TreeRowModel> {
    rows.map_values(|r: TreeRow| r@)
}

/// The row that stands for process `process_index` in the flat view.
pub open spec fn flat_row(process_index: usize) -> TreeRowModel {
    TreeRowModel {
        process_index,
        depth: 0,
        has_children: false,
        expanded: false,
        parent_index: None,
        is_last_sibling: true,
        ancestor_has_next_sibling: Seq::empty(),
    }
}

/// Copies the guides of a row.
pub fn copy_guides(guides: &[bool]) -> (r: Vec<bool>)
    ensures
        r@ == guides@,
{
    let mut r: Vec<bool> = Vec::new();
    let mut i: usize = 0;
    while i < guides.len()
        invariant
            i <= guides.len(),
            r@ == guides@.take(i as int),
        decreases guides.len() - i,
    {
        r.push(guides[i]);
        assert(guides@.take(i as int).push(guides@[i as int]) =~= guides@.take(i + 1));
        i = i + 1;
    }
    assert(guides@.take(guides.len() as int) =~= guides@);
    r
}

impl TreeRow {
    /// The row for process `process_index` in the flat view: a root without
    /// children.
    pub fn _flat(process_index: usize) -> (r: Self)
        ensures
            r@ == flat_row(process_index),
    {
        TreeRow {
            process_index,
            depth: 0,
            has_children: false,
            expanded: false,
            parent_index: None,
            is_last_sibling: true,
            ancestor_has_next_sibling: Vec::new(),
        }
    }

    /// A copy of this row.
    pub fn copy(&self) -> (r: Self)
        ensures
            r@ == self@,
    {
        TreeRow {
            process_index: self.process_index,
            depth: self.depth,
            has_children: self.has_children,
            expanded: self.expanded,
            parent_index: self.parent_index,
            is_last_sibling: self.is_last_sibling,
            ancestor_has_next_sibling: copy_guides(self.ancestor_has_next_sibling.as_slice()),
        }
    }

    /// Where the `[+]`/`[-]` toggle sits within the name cell, as an offset
    /// and a width: after three cells per guide and two for the branch
    /// marker of a child. Rows without children have no toggle.
    pub fn name_toggle_range(&self) -> (r: Option<(u16, u16)>)
        ensures
            if !self.has_children {
                r is None
            } else {
                r matches Some((offset, width)) && offset == toggle_offset_spec(
                    self.ancestor_has_next_sibling@.len(),
                    self.depth,
                ) && width == 3
            },
    {
        if !self.has_children {
            return None;
        }
        let guides = (self.ancestor_has_next_sibling.len() % 65536) as u32;
        let tripled = guides * 3;
        let mut offset: u16 = if tripled > 65535 {
            65535
        } else {
            tripled as u16
        };
        if self.depth > 0 {
            offset = offset.saturating_add(2);
        }
        Some((offset, 3))
    }
}

/// The rows a viewport shows: in the flat view a flat row per process, in
/// the tree view a copy of each tree row, from the scroll offset on, at most
/// `viewport_rows` of them.
pub fn _visible_row_entries(
    view_mode: ViewMode,
    scroll_offset: usize,
    viewport_rows: usize,
    process_count: usize,
    tree_rows: &[TreeRow],
) -> (r: Vec<TreeRow>)
    ensures
        ({
            let total = match view_mode {
                ViewMode::Flat => process_count as int,
                ViewMode::Tree => tree_rows@.len() as int,
            };
            let end = if scroll_offset + viewport_rows < total {
                scroll_offset + viewport_rows
            } else {
                total
            };
            let start = if scroll_offset < end {
                scroll_offset as int
            } else {
                end
            };
            &&& r@.len() == end - start
            &&& forall|k: int|
                0 <= k < r@.len() ==> (#[trigger] r@[k])@ == match view_mode {
                    ViewMode::Flat => flat_row((start + k) as usize),
                    ViewMode::Tree => tree_rows@[start + k]@,
                }
        }),
{
    let total = match view_mode {
        ViewMode::Flat => process_count,
        ViewMode::Tree => tree_rows.len(),
    };
    let sum = scroll_offset.saturating_add(viewport_rows);
    let end = if sum < total {
        sum
    } else {
        total
    };
    let start = if scroll_offset < end {
        scroll_offset
    } else {
        end
    };
    let mut r: Vec<TreeRow> = Vec::new();
    let mut i = start;
    while i < end
        invariant
            start <= i <= end,
            end <= total,
            total == match view_mode {
                ViewMode::Flat => process_count,
                ViewMode::Tree => tree_rows.len(),
            },
            r@.len() == i - start,
            forall|k: int|
                0 <= k < r@.len() ==> (#[trigger] r@[k])@ == match view_mode {
                    ViewMode::Flat => flat_row((start + k) as usize),
                    ViewMode::Tree => tree_rows@[start + k]@,
                },
        decreases end - i,
    {
        let row = match view_mode {
            ViewMode::Flat => TreeRow::_flat(i),
            ViewMode::Tree => tree_rows[i].copy(),
        };
        r.push(row);
        i = i + 1;
    }
    r
}

/// The position of the first tree row that shows process `selected`.
pub fn selected_tree_visible_index(tree_rows: &[TreeRow], selected: usize) -> (r: Option<usize>)
    ensures
        match r {
            Some(k) => k < tree_rows.len() && tree_rows@[k as int].process_index == selected
                && forall|m: int| 0 <= m < k ==> tree_rows@[m].process_index != selected,
            None => forall|m: int|
                0 <= m < tree_rows.len() ==> tree_rows@[m].process_index != selected,
        },
{
    let mut k: usize = 0;
    while k < tree_rows.len()
        invariant
            k <= tree_rows.len(),
            forall|m: int| 0 <= m < k ==> tree_rows@[m].process_index != selected,
        decreases tree_rows.len() - k,
    {
        if tree_rows[k].process_index == selected {
            return Some(k);
        }
        k = k + 1;
    }
    None
}

/// The expanded processes after toggling `pid`: removed when it was
/// there, added when it was not.
pub open spec fn toggled_pids(pids: Set<i32>, pid: i32) -> Set<i32> {
    if pids.contains(pid) {
        pids.remove(pid)
    } else {
        pids.insert(pid)
    }
}

/// Toggling the same process twice restores the expanded processes, and a
/// toggle changes no other process.
pub proof fn lemma_toggle_pid_twice(pids: Set<i32>, pid: i32, other: i32)
    ensures
        toggled_pids(toggled_pids(pids, pid), pid) == pids,
        toggled_pids(pids, pid).contains(pid) != pids.contains(pid),
        other != pid ==> (toggled_pids(pids, pid).contains(other) == pids.contains(other)),
{
    assert(toggled_pids(toggled_pids(pids, pid), pid) =~= pids);
}

/// Expands `pid` when it is collapsed and collapses it when it is expanded.
pub fn toggle_pid_expansion(expanded_pids: &mut HashSet<i32>, pid: i32)
    ensures
        final(expanded_pids)@ == toggled_pids(old(expanded_pids)@, pid),
{
    if !expanded_pids.insert(pid) {
        expanded_pids.remove(&pid);
    }
}

/// The indexes of the ancestors of process `i`, nearest first, following at
/// most `fuel` parent links.
pub open spec fn ancestor_chain(parents: Seq<Option<usize>>, i: int, fuel: nat) -> Seq<usize>
    decreases fuel,
{
    if fuel == 0 || i < 0 || i >= parents.len() {
        Seq::empty()
    } else {
        match parents[i] {
            None => Seq::empty(),
            Some(p) => seq![p] + ancestor_chain(parents, p as int, (fuel - 1) as nat),
        }
    }
}

/// Whether following parent links from `i` reaches a process without a
/// parent, or an index outside `parents`, within `fuel` links.
pub open spec fn chain_ends(parents: Seq<Option<usize>>, i: int, fuel: nat) -> bool
    decreases fuel,
{
    if i < 0 || i >= parents.len() {
        true
    } else {
        match parents[i] {
            None => true,
            Some(p) => fuel > 0 && chain_ends(parents, p as int, (fuel - 1) as nat),
        }
    }
}

/// The process ids of the rows at `indexes`.
pub open spec fn pids_at(processes: Seq<ProcessRow>, indexes: Seq<usize>) -> Seq<i32> {
    indexes.map_values(|i: usize| processes[i as int].pid)
}

/// The process ids of the ancestors of process `selected`, nearest first:
/// the processes that must be expanded for it to show in the tree view.
/// The parent links from `selected` must end, as they do in a snapshot
/// whose parents form a forest.
pub fn expanded_ancestor_pids(
    selected: usize,
    parents: &[Option<usize>],
    processes: &[ProcessRow],
) -> (r: Vec<i32>)
    requires
        chain_ends(parents@, selected as int, parents.len() as nat),
        forall|k: int|
            0 <= k < ancestor_chain(parents@, selected as int, parents.len() as nat).len()
                ==> ancestor_chain(parents@, selected as int, parents.len() as nat)[k]
                < processes.len(),
    ensures
        r@ == pids_at(processes@, ancestor_chain(parents@, selected as int, parents.len() as nat)),
{
    let ghost whole = ancestor_chain(parents@, selected as int, parents.len() as nat);
    let mut ancestors: Vec<i32> = Vec::new();
    let mut current = selected;
    let mut fuel = parents.len();
    loop
        invariant
            chain_ends(parents@, current as int, fuel as nat),
            whole == ancestor_chain(parents@, selected as int, parents.len() as nat),
            forall|k: int| 0 <= k < whole.len() ==> whole[k] < processes.len(),
            ({
                let rest = ancestor_chain(parents@, current as int, fuel as nat);
                &&& whole == ancestor_chain(parents@, selected as int, parents.len() as nat).take(
                    ancestors@.len() as int,
                ) + rest
                &&& ancestors@ == pids_at(processes@, whole.take(ancestors@.len() as int))
                &&& ancestors@.len() + rest.len() == whole.len()
            }),
        ensures
            ancestors@ == pids_at(processes@, whole),
        decreases fuel,
    {
        if current >= parents.len() {
            assert(whole.take(ancestors@.len() as int) =~= whole);
            break;
        }
        match parents[current] {
            None => {
                assert(whole.take(ancestors@.len() as int) =~= whole);
                break;
            },
            Some(p) => {
                let ghost n = ancestors@.len() as int;
                let ghost rest = ancestor_chain(parents@, current as int, fuel as nat);
                assert(rest[0] == p);
                assert(whole[n] == p);
                ancestors.push(processes[p].pid);
                proof {
                    assert(whole.take(n + 1) =~= whole.take(n).push(p));
                    assert(ancestors@ =~= pids_at(processes@, whole.take(n + 1)));
                    assert(rest =~= seq![p] + ancestor_chain(parents@, p as int, (fuel - 1) as nat));
                    assert(whole =~= whole.take(n + 1) + ancestor_chain(
                        parents@,
                        p as int,
                        (fuel - 1) as nat,
                    ));
                }
                current = p;
                fuel = fuel - 1;
            },
        }
    }
    ancestors
}

/// The map from process id to index built from the first `n` rows: a later
/// row with the same id replaces an earlier one.
pub open spec fn pid_index_map(processes: Seq<ProcessRow>, n: int) -> Map<i32, usize>
    decreases n,
{
    if n <= 0 {
        Map::empty()
    } else {
        pid_index_map(processes, n - 1).insert(processes[n - 1].pid, (n - 1) as usize)
    }
}

/// Every id in the map is the id of the row it points to, and every row's id
/// is in the map.
pub proof fn lemma_pid_index_map(processes: Seq<ProcessRow>, n: int)
    requires
        0 <= n <= processes.len(),
        processes.len() <= usize::MAX,
    ensures
        forall|pid: i32|
            #[trigger] pid_index_map(processes, n).contains_key(pid) ==> pid_index_map(
                processes,
                n,
            )[pid] < n && processes[pid_index_map(processes, n)[pid] as int].pid == pid,
        forall|i: int| 0 <= i < n ==> pid_index_map(processes, n).contains_key(processes[i].pid),
    decreases n,
{
    if n > 0 {
        lemma_pid_index_map(processes, n - 1);
        let prev = pid_index_map(processes, n - 1);
        let m = pid_index_map(processes, n);
        assert forall|pid: i32| #[trigger] m.contains_key(pid) implies m[pid] < n && processes[m[pid] as int].pid
            == pid by {
            if pid != processes[n - 1].pid {
                assert(prev.contains_key(pid));
            }
        }
        assert forall|i: int| 0 <= i < n implies m.contains_key(processes[i].pid) by {
            if i < n - 1 {
                assert(prev.contains_key(processes[i].pid));
            }
        }
    }
}

/// Maps each process id to the index of its row; with duplicate ids, the
/// last row wins.
pub fn build_pid_to_index(processes: &[ProcessRow]) -> (r: HashMap<i32, usize>)
    ensures
        r@ == pid_index_map(processes@, processes.len() as int),
{
    let mut map: HashMap<i32, usize> = HashMap::with_capacity(processes.len());
    let mut i: usize = 0;
    while i < processes.len()
        invariant
            i <= processes.len(),
            map@ == pid_index_map(processes@, i as int),
        decreases processes.len() - i,
    {
        map.insert(processes[i].pid, i);
        i = i + 1;
    }
    map
}

/// Keeps the expanded ids that still name a process of the map.
pub fn retain_known_expanded_pids(
    expanded_pids: &HashSet<i32>,
    pid_to_index: &HashMap<i32, usize>,
) -> (r: HashSet<i32>)
    ensures
        r@ == expanded_pids@.filter(|pid: i32| pid_to_index@.contains_key(pid)),
{
    let mut kept: HashSet<i32> = HashSet::new();
    let iter = expanded_pids.iter();
    let ghost all = vstd::std_specs::iter::IteratorSpec::remaining(&iter);
    assert(all.unref().to_set() == expanded_pids@);
    for pid in it: iter
        invariant
            it.seq() == all,
            forall|p: i32|
                #[trigger] kept@.contains(p) <==> ((exists|k: int|
                    0 <= k < it.index() && *all[k] == p) && pid_to_index@.contains_key(p)),
        ensures
            forall|p: i32|
                #[trigger] kept@.contains(p) <==> ((exists|k: int|
                    0 <= k < all.len() && *all[k] == p) && pid_to_index@.contains_key(p)),
    {
        if pid_to_index.contains_key(pid) {
            kept.insert(*pid);
        }
        proof {
            assert(*all[it.index() as int] == *pid);
        }
    }
    assert forall|p: i32| (exists|k: int| 0 <= k < all.len() && *all[k] == p) <==> expanded_pids@.contains(p) by {
        if exists|k: int| 0 <= k < all.len() && *all[k] == p {
            let k = choose|k: int| 0 <= k < all.len() && *all[k] == p;
            assert(all.unref()[k] == p);
            assert(all.unref().contains(p));
        }
        if expanded_pids@.contains(p) {
            assert(all.unref().to_set().contains(p));
            assert(all.unref().contains(p));
            let k = choose|k: int| 0 <= k < all.unref().len() && all.unref()[k] == p;
            assert(*all[k] == p);
        }
    }
    assert(kept@ =~= expanded_pids@.filter(|pid: i32| pid_to_index@.contains_key(pid)));
    kept
}

/// The parent of one row: none for a non-positive parent id or a process
/// that is its own parent, else the row of the parent id, if there is one.
pub open spec fn parent_of(row: ProcessRow, pid_to_index: Map<i32, usize>) -> Option<usize> {
    if row.ppid <= 0 || row.ppid == row.pid {
        None
    } else if pid_to_index.contains_key(row.ppid) {
        Some(pid_to_index[row.ppid])
    } else {
        None
    }
}

/// Finds the parent row of every row.
pub fn build_parent_index(processes: &[ProcessRow], pid_to_index: &HashMap<i32, usize>) -> (r: Vec<
    Option<usize>,
>)
    ensures
        r@.len() == processes@.len(),
        forall|i: int| 0 <= i < r@.len() ==> r@[i] == parent_of(processes@[i], pid_to_index@),
{
    let mut parents: Vec<Option<usize>> = Vec::new();
    let mut i: usize = 0;
    while i < processes.len()
        invariant
            i <= processes.len(),
            parents@.len() == i,
            forall|k: int|
                0 <= k < i ==> parents@[k] == parent_of(processes@[k], pid_to_index@),
        decreases processes.len() - i,
    {
        let row = &processes[i];
        let parent = if row.ppid <= 0 || row.ppid == row.pid {
            None
        } else {
            match pid_to_index.get(&row.ppid) {
                Some(index) => Some(*index),
                None => None,
            }
        };
        parents.push(parent);
        i = i + 1;
    }
    parents
}

/// The rows among the first `n` whose parent is `p`, in row order.
pub open spec fn children_of(parents: Seq<Option<usize>>, p: usize, n: int) -> Seq<usize>
    decreases n,
{
    if n <= 0 {
        Seq::empty()
    } else if parents[n - 1] == Some(p) {
        children_of(parents, p, n - 1).push((n - 1) as usize)
    } else {
        children_of(parents, p, n - 1)
    }
}

/// The rows among the first `n` without a parent, in row order.
pub open spec fn roots_of(parents: Seq<Option<usize>>, n: int) -> Seq<usize>
    decreases n,
{
    if n <= 0 {
        Seq::empty()
    } else if parents[n - 1] is None {
        roots_of(parents, n - 1).push((n - 1) as usize)
    } else {
        roots_of(parents, n - 1)
    }
}

/// The entries of each list of children.
pub open spec fn kid_views(children: Seq<Vec<usize>>) -> Seq<Seq<usize>> {
    children.map_values(|v: Vec<usize>| v@)
}

/// Every index in a list of children or roots is a row index.
pub proof fn lemma_tree_index_bounds(parents: Seq<Option<usize>>, p: usize, n: int)
    ensures
        forall|k: int| 0 <= k < children_of(parents, p, n).len() ==> children_of(parents, p, n)[k] < n,
        forall|k: int| 0 <= k < roots_of(parents, n).len() ==> roots_of(parents, n)[k] < n,
    decreases n,
{
    if n > 0 {
        lemma_tree_index_bounds(parents, p, n - 1);
        let c0 = children_of(parents, p, n - 1);
        let c = children_of(parents, p, n);
        assert forall|k: int| 0 <= k < c.len() implies c[k] < n by {
            if k < c0.len() {
                assert(c[k] == c0[k]);
            }
        }
        let r0 = roots_of(parents, n - 1);
        let r = roots_of(parents, n);
        assert forall|k: int| 0 <= k < r.len() implies r[k] < n by {
            if k < r0.len() {
                assert(r[k] == r0[k]);
            }
        }
    }
}

/// Splits the rows into roots and lists of children, each in row order.
pub fn build_tree_index(parents: &[Option<usize>], process_count: usize) -> (r: (
    Vec<usize>,
    Vec<Vec<usize>>,
))
    requires
        forall|i: int|
            0 <= i < parents.len() ==> match #[trigger] parents@[i] {
                Some(p) => p < process_count,
                None => true,
            },
    ensures
        r.0@ == roots_of(parents@, parents.len() as int),
        r.1@.len() == process_count,
        forall|p: int|
            0 <= p < process_count ==> (#[trigger] r.1@[p])@ == children_of(
                parents@,
                p as usize,
                parents.len() as int,
            ),
{
    let mut children: Vec<Vec<usize>> = Vec::new();
    let mut j: usize = 0;
    while j < process_count
        invariant
            j <= process_count,
            children@.len() == j,
            forall|p: int| 0 <= p < j ==> (#[trigger] children@[p])@ == Seq::<usize>::empty(),
        decreases process_count - j,
    {
        children.push(Vec::new());
        j = j + 1;
    }
    let mut roots: Vec<usize> = Vec::new();
    let mut i: usize = 0;
    while i < parents.len()
        invariant
            i <= parents.len(),
            children@.len() == process_count,
            forall|k: int|
                0 <= k < parents.len() ==> match #[trigger] parents@[k] {
                    Some(p) => p < process_count,
                    None => true,
                },
            roots@ == roots_of(parents@, i as int),
            forall|p: int|
                0 <= p < process_count ==> (#[trigger] children@[p])@ == children_of(
                    parents@,
                    p as usize,
                    i as int,
                ),
        decreases parents.len() - i,
    {
        match parents[i] {
            Some(parent_index) => {
                children[parent_index].push(i);
            },
            None => {
                roots.push(i);
            },
        }
        i = i + 1;
    }
    (roots, children)
}

/// The process id of every row.
pub open spec fn pids_of(processes: Seq<ProcessRow>) -> Seq<i32> {
    processes.map_values(|r: ProcessRow| r.pid)
}

/// The rows process `index` contributes to the tree view, at `depth`, with
/// `guides` drawn before it: its own row and, when it is expanded, the rows
/// of its children one level deeper. `fuel` bounds the depth still allowed
/// below it.
pub open spec fn node_rows(
    pids: Seq<i32>,
    kids: Seq<Seq<usize>>,
    expanded: Set<i32>,
    parents: Seq<Option<usize>>,
    index: usize,
    depth: usize,
    is_last: bool,
    guides: Seq<bool>,
    fuel: nat,
) -> Seq<TreeRowModel>
    decreases fuel, 0int, 0int,
{
    let has_children = kids[index as int].len() > 0;
    let is_expanded = has_children && expanded.contains(pids[index as int]);
    let row = TreeRowModel {
        process_index: index,
        depth,
        has_children,
        expanded: is_expanded,
        parent_index: parents[index as int],
        is_last_sibling: is_last,
        ancestor_has_next_sibling: guides,
    };
    if is_expanded && fuel > 0 {
        seq![row] + sibling_rows(
            pids,
            kids,
            expanded,
            parents,
            kids[index as int],
            0,
            (depth + 1) as usize,
            guides.push(!is_last),
            (fuel - 1) as nat,
        )
    } else {
        seq![row]
    }
}

/// The rows of the siblings `siblings[k..]`, in order, the last of them
/// marked as the last sibling.
pub open spec fn sibling_rows(
    pids: Seq<i32>,
    kids: Seq<Seq<usize>>,
    expanded: Set<i32>,
    parents: Seq<Option<usize>>,
    siblings: Seq<usize>,
    k: int,
    depth: usize,
    guides: Seq<bool>,
    fuel: nat,
) -> Seq<TreeRowModel>
    decreases fuel, 1int, siblings.len() - k,
{
    if k < 0 || k >= siblings.len() {
        Seq::empty()
    } else {
        node_rows(
            pids,
            kids,
            expanded,
            parents,
            siblings[k],
            depth,
            k + 1 == siblings.len(),
            guides,
            fuel,
        ) + sibling_rows(pids, kids, expanded, parents, siblings, k + 1, depth, guides, fuel)
    }
}

/// The parent of a row is a row whose process id is the row's parent id;
/// a row has no parent exactly when its parent id is not positive, is its
/// own id, or is the id of no row.
pub proof fn lemma_parents_of_meaning(processes: Seq<ProcessRow>)
    requires
        processes.len() <= usize::MAX,
    ensures
        parents_of(processes).len() == processes.len(),
        forall|i: int|
            0 <= i < processes.len() ==> match #[trigger] parents_of(processes)[i] {
                Some(j) => j < processes.len() && processes[j as int].pid == processes[i].ppid
                    && processes[i].ppid > 0 && processes[i].ppid != processes[i].pid,
                None => processes[i].ppid <= 0 || processes[i].ppid == processes[i].pid || forall|
                    j: int,
                | 0 <= j < processes.len() ==> processes[j].pid != processes[i].ppid,
            },
{
    let n = processes.len() as int;
    lemma_pid_index_map(processes, n);
    let map = pid_index_map(processes, n);
    assert forall|i: int| 0 <= i < processes.len() implies match #[trigger] parents_of(processes)[i] {
        Some(j) => j < processes.len() && processes[j as int].pid == processes[i].ppid
            && processes[i].ppid > 0 && processes[i].ppid != processes[i].pid,
        None => processes[i].ppid <= 0 || processes[i].ppid == processes[i].pid || forall|j: int|
            0 <= j < processes.len() ==> processes[j].pid != processes[i].ppid,
    } by {
        if parents_of(processes)[i] is None && processes[i].ppid > 0 && processes[i].ppid
            != processes[i].pid {
            assert(!map.contains_key(processes[i].ppid));
            assert forall|j: int| 0 <= j < processes.len() implies processes[j].pid
                != processes[i].ppid by {
                assert(map.contains_key(processes[j].pid));
            }
        }
    }
}

/// Whether every row lists a process of the `parents.len()` rows and
/// carries that process's parent.
pub open spec fn parent_links(rows: Seq<TreeRowModel>, parents: Seq<Option<usize>>) -> bool {
    forall|i: int|
        0 <= i < rows.len() ==> (#[trigger] rows[i]).process_index < parents.len()
            && rows[i].parent_index == parents[rows[i].process_index as int]
}

/// Whether every list of children names one of `n` rows.
pub open spec fn kids_in_range(kids: Seq<Seq<usize>>, n: int) -> bool {
    forall|p: int, k: int| 0 <= p < kids.len() && 0 <= k < kids[p].len() ==> #[trigger] kids[p][k] < n
}

/// Every row a process contributes to the tree view carries the parent of
/// its process.
pub proof fn lemma_node_parent_links(
    pids: Seq<i32>,
    kids: Seq<Seq<usize>>,
    expanded: Set<i32>,
    parents: Seq<Option<usize>>,
    index: usize,
    depth: usize,
    is_last: bool,
    guides: Seq<bool>,
    fuel: nat,
)
    requires
        index < parents.len(),
        kids.len() == parents.len(),
        kids_in_range(kids, parents.len() as int),
    ensures
        parent_links(node_rows(pids, kids, expanded, parents, index, depth, is_last, guides, fuel), parents),
    decreases fuel, 0int, 0int,
{
    let has_children = kids[index as int].len() > 0;
    let is_expanded = has_children && expanded.contains(pids[index as int]);
    if is_expanded && fuel > 0 {
        let rest = sibling_rows(
            pids,
            kids,
            expanded,
            parents,
            kids[index as int],
            0,
            (depth + 1) as usize,
            guides.push(!is_last),
            (fuel - 1) as nat,
        );
        lemma_sibling_parent_links(
            pids,
            kids,
            expanded,
            parents,
            kids[index as int],
            0,
            (depth + 1) as usize,
            guides.push(!is_last),
            (fuel - 1) as nat,
        );
        let all = node_rows(pids, kids, expanded, parents, index, depth, is_last, guides, fuel);
        assert forall|i: int| 0 <= i < all.len() implies (#[trigger] all[i]).process_index < parents.len()
            && all[i].parent_index == parents[all[i].process_index as int] by {
            if i > 0 {
                assert(all[i] == rest[i - 1]);
            }
        }
    }
}

/// Every row of a run of siblings carries the parent of its process.
pub proof fn lemma_sibling_parent_links(
    pids: Seq<i32>,
    kids: Seq<Seq<usize>>,
    expanded: Set<i32>,
    parents: Seq<Option<usize>>,
    siblings: Seq<usize>,
    k: int,
    depth: usize,
    guides: Seq<bool>,
    fuel: nat,
)
    requires
        kids.len() == parents.len(),
        kids_in_range(kids, parents.len() as int),
        forall|j: int| 0 <= j < siblings.len() ==> siblings[j] < parents.len(),
    ensures
        parent_links(
            sibling_rows(pids, kids, expanded, parents, siblings, k, depth, guides, fuel),
            parents,
        ),
    decreases fuel, 1int, siblings.len() - k,
{
    if k < 0 || k >= siblings.len() {
    } else {
        let node = node_rows(
            pids,
            kids,
            expanded,
            parents,
            siblings[k],
            depth,
            k + 1 == siblings.len(),
            guides,
            fuel,
        );
        let rest = sibling_rows(pids, kids, expanded, parents, siblings, k + 1, depth, guides, fuel);
        lemma_node_parent_links(
            pids,
            kids,
            expanded,
            parents,
            siblings[k],
            depth,
            k + 1 == siblings.len(),
            guides,
            fuel,
        );
        lemma_sibling_parent_links(pids, kids, expanded, parents, siblings, k + 1, depth, guides, fuel);
        let all = sibling_rows(pids, kids, expanded, parents, siblings, k, depth, guides, fuel);
        assert(all == node + rest);
        assert forall|i: int| 0 <= i < all.len() implies (#[trigger] all[i]).process_index < parents.len()
            && all[i].parent_index == parents[all[i].process_index as int] by {
            if i < node.len() {
                assert(all[i] == node[i]);
            } else {
                assert(all[i] == rest[i - node.len()]);
            }
        }
    }
}

/// Whether every list of children names rows of `processes`.
pub open spec fn children_in_range(children: Seq<Vec<usize>>, n: int) -> bool {
    forall|p: int, k: int|
        0 <= p < children.len() && 0 <= k < children[p]@.len() ==> #[trigger] children[p]@[k] < n
}

fn push_visible_rows(
    rows: &mut Vec<TreeRow>,
    processes: &[ProcessRow],
    children: &[Vec<usize>],
    expanded_pids: &HashSet<i32>,
    parents: &[Option<usize>],
    index: usize,
    depth: usize,
    is_last_sibling: bool,
    guides: &[bool],
    fuel: usize,
)
    requires
        index < processes.len(),
        children.len() == processes.len(),
        parents.len() == processes.len(),
        children_in_range(children@, processes.len() as int),
        depth + fuel <= usize::MAX,
    ensures
        rows_view(final(rows)@) == rows_view(old(rows)@) + node_rows(
            pids_of(processes@),
            kid_views(children@),
            expanded_pids@,
            parents@,
            index,
            depth,
            is_last_sibling,
            guides@,
            fuel as nat,
        ),
    decreases fuel,
{
    let ghost pids = pids_of(processes@);
    let ghost kids = kid_views(children@);
    let has_children = children[index].len() > 0;
    let expanded = has_children && expanded_pids.contains(&processes[index].pid);
    let ghost before = rows_view(rows@);
    rows.push(
        TreeRow {
            process_index: index,
            depth,
            has_children,
            expanded,
            parent_index: parents[index],
            is_last_sibling,
            ancestor_has_next_sibling: copy_guides(guides),
        },
    );
    let ghost row = rows@.last()@;
    assert(rows_view(rows@) =~= before + seq![row]);
    if expanded && fuel > 0 {
        let mut child_guides = copy_guides(guides);
        child_guides.push(!is_last_sibling);
        let siblings = &children[index];
        let ghost start = rows_view(rows@);
        let mut k: usize = 0;
        while k < siblings.len()
            invariant
                k <= siblings.len(),
                index < processes.len(),
                children.len() == processes.len(),
                parents.len() == processes.len(),
                children_in_range(children@, processes.len() as int),
                siblings@ == children@[index as int]@,
                depth + fuel <= usize::MAX,
                fuel > 0,
                pids == pids_of(processes@),
                kids == kid_views(children@),
                start + sibling_rows(
                    pids,
                    kids,
                    expanded_pids@,
                    parents@,
                    siblings@,
                    0,
                    (depth + 1) as usize,
                    child_guides@,
                    (fuel - 1) as nat,
                ) == rows_view(rows@) + sibling_rows(
                    pids,
                    kids,
                    expanded_pids@,
                    parents@,
                    siblings@,
                    k as int,
                    (depth + 1) as usize,
                    child_guides@,
                    (fuel - 1) as nat,
                ),
            decreases siblings.len() - k,
        {
            let ghost mid = rows_view(rows@);
            let child = siblings[k];
            assert(children@[index as int]@[k as int] < processes.len());
            push_visible_rows(
                rows,
                processes,
                children,
                expanded_pids,
                parents,
                child,
                depth + 1,
                k + 1 == siblings.len(),
                child_guides.as_slice(),
                fuel - 1,
            );
            proof {
                let node = node_rows(
                    pids,
                    kids,
                    expanded_pids@,
                    parents@,
                    child,
                    (depth + 1) as usize,
                    k + 1 == siblings.len(),
                    child_guides@,
                    (fuel - 1) as nat,
                );
                let rest = sibling_rows(
                    pids,
                    kids,
                    expanded_pids@,
                    parents@,
                    siblings@,
                    k + 1,
                    (depth + 1) as usize,
                    child_guides@,
                    (fuel - 1) as nat,
                );
                assert(mid + (node + rest) =~= (mid + node) + rest);
            }
            k = k + 1;
        }
        proof {
            assert(rows_view(rows@) + Seq::<TreeRowModel>::empty() =~= rows_view(rows@));
        }
    }
}

/// The rows of the tree view: every root, and below each expanded process
/// its children, each list in its given order.
pub fn build_visible_tree_rows(
    processes: &[ProcessRow],
    children: &[Vec<usize>],
    expanded_pids: &HashSet<i32>,
    parents: &[Option<usize>],
    roots: &[usize],
) -> (r: Vec<TreeRow>)
    requires
        children.len() == processes.len(),
        parents.len() == processes.len(),
        children_in_range(children@, processes.len() as int),
        forall|k: int| 0 <= k < roots.len() ==> roots[k] < processes.len(),
    ensures
        rows_view(r@) == sibling_rows(
            pids_of(processes@),
            kid_views(children@),
            expanded_pids@,
            parents@,
            roots@,
            0,
            0,
            Seq::empty(),
            processes.len() as nat,
        ),
        parent_links(rows_view(r@), parents@),
{
    let ghost pids = pids_of(processes@);
    let ghost kids = kid_views(children@);
    proof {
        assert(kids_in_range(kids, parents@.len() as int)) by {
            assert forall|p: int, k: int| 0 <= p < kids.len() && 0 <= k < kids[p].len() implies #[trigger] kids[p][k] < parents@.len() by {
                assert(kids[p] == children@[p]@);
            }
        }
        lemma_sibling_parent_links(
            pids,
            kids,
            expanded_pids@,
            parents@,
            roots@,
            0,
            0,
            Seq::empty(),
            processes.len() as nat,
        );
    }
    let mut rows: Vec<TreeRow> = Vec::new();
    let no_guides: Vec<bool> = Vec::new();
    let fuel = processes.len();
    let mut k: usize = 0;
    while k < roots.len()
        invariant
            k <= roots.len(),
            children.len() == processes.len(),
            parents.len() == processes.len(),
            children_in_range(children@, processes.len() as int),
            forall|m: int| 0 <= m < roots.len() ==> roots[m] < processes.len(),
            fuel == processes.len(),
            no_guides@ == Seq::<bool>::empty(),
            pids == pids_of(processes@),
            kids == kid_views(children@),
            sibling_rows(
                pids,
                kids,
                expanded_pids@,
                parents@,
                roots@,
                0,
                0,
                Seq::empty(),
                fuel as nat,
            ) == rows_view(rows@) + sibling_rows(
                pids,
                kids,
                expanded_pids@,
                parents@,
                roots@,
                k as int,
                0,
                Seq::empty(),
                fuel as nat,
            ),
        decreases roots.len() - k,
    {
        let ghost mid = rows_view(rows@);
        push_visible_rows(
            &mut rows,
            processes,
            children,
            expanded_pids,
            parents,
            roots[k],
            0,
            k + 1 == roots.len(),
            no_guides.as_slice(),
            fuel,
        );
        proof {
            let node = node_rows(
                pids,
                kids,
                expanded_pids@,
                parents@,
                roots@[k as int],
                0,
                k + 1 == roots.len(),
                Seq::empty(),
                fuel as nat,
            );
            let rest = sibling_rows(
                pids,
                kids,
                expanded_pids@,
                parents@,
                roots@,
                k + 1,
                0,
                Seq::empty(),
                fuel as nat,
            );
            assert(mid + (node + rest) =~= (mid + node) + rest);
        }
        k = k + 1;
    }
    proof {
        assert(rows_view(rows@) + Seq::<TreeRowModel>::empty() =~= rows_view(rows@));
    }
    rows
}

/// Tree view state derived from the current snapshot.
pub struct ProcessTreeState {
    /// Ids of the processes whose children are shown.
    pub expanded_pids: HashSet<i32>,
    /// The rows the tree view shows.
    pub rows: Vec<TreeRow>,
    /// The parent row of every row of the snapshot.
    pub parents: Vec<Option<usize>>,
}

impl ProcessTreeState {
    /// A state with nothing expanded and no rows.
    pub fn new() -> (r: Self)
        ensures
            r.expanded_pids@ == Set::<i32>::empty(),
            r.rows@.len() == 0,
            r.parents@.len() == 0,
    {
        ProcessTreeState { expanded_pids: HashSet::new(), rows: Vec::new(), parents: Vec::new() }
    }
}

/// The parent row of every row of `processes`.
pub open spec fn parents_of(processes: Seq<ProcessRow>) -> Seq<Option<usize>> {
    Seq::new(
        processes.len(),
        |i: int| parent_of(processes[i], pid_index_map(processes, processes.len() as int)),
    )
}

/// Whether a tree state with expanded ids `kept`, parents `parents` and rows
/// `rows` is the one built from `processes` under `state`, with `expanded`
/// asked for and the owners of the rows named `names`: only expanded ids of
/// processes in the snapshot stay, every row gets its parent, and the rows
/// list the roots and below each expanded process its children, siblings in
/// table order.
pub open spec fn is_tree_state(
    processes: Seq<ProcessRow>,
    state: SortState,
    names: Seq<Seq<char>>,
    expanded: Set<i32>,
    kept: Set<i32>,
    parents: Seq<Option<usize>>,
    rows: Seq<TreeRowModel>,
) -> bool {
    let n = processes.len() as int;
    let map = pid_index_map(processes, n);
    &&& kept == expanded.filter(|pid: i32| map.contains_key(pid))
    &&& parents == parents_of(processes)
    &&& exists|roots: Seq<usize>, kids: Seq<Seq<usize>>|
        {
            &&& kids.len() == n
            &&& is_sorted_indexes(state, processes, names, roots_of(parents, n), roots)
            &&& forall|p: int|
                0 <= p < n ==> is_sorted_indexes(
                    state,
                    processes,
                    names,
                    children_of(parents, p as usize, n),
                    #[trigger] kids[p],
                )
            &&& rows == sibling_rows(
                pids_of(processes),
                kids,
                kept,
                parents,
                roots,
                0,
                0,
                Seq::empty(),
                n as nat,
            )
        }
}

proof fn lemma_sorted_indexes_in_range(
    state: SortState,
    processes: Seq<ProcessRow>,
    names: Seq<Seq<char>>,
    items: Seq<usize>,
    sorted: Seq<usize>,
    n: int,
)
    requires
        is_sorted_indexes(state, processes, names, items, sorted),
        forall|k: int| 0 <= k < items.len() ==> items[k] < n,
    ensures
        forall|k: int| 0 <= k < sorted.len() ==> sorted[k] < n,
{
    let perm = choose|perm: Seq<usize>|
        crate::sort::is_stable_order(
            state,
            processes,
            crate::sort::sort_texts(state, processes, names),
            items,
            perm,
        ) && sorted == perm.map_values(|p: usize| items[p as int]);
    assert forall|k: int| 0 <= k < sorted.len() implies sorted[k] < n by {
        assert(perm[k] < items.len());
    }
}

/// Builds the tree view state of `processes` under `sort_state`, the owner
/// of the `i`th row being named `owner_names[i]`.
pub fn build_process_tree_state_with_owner_names(
    processes: &[ProcessRow],
    sort_state: SortState,
    owner_names: &[String],
    expanded_pids: &HashSet<i32>,
) -> (r: ProcessTreeState)
    requires
        owner_names.len() == processes.len(),
    ensures
        is_tree_state(
            processes@,
            sort_state,
            name_views(owner_names@),
            expanded_pids@,
            r.expanded_pids@,
            r.parents@,
            rows_view(r.rows@),
        ),
        r.parents@ == parents_of(processes@),
        parent_links(rows_view(r.rows@), r.parents@),
{
    let n = processes.len();
    let ghost names = name_views(owner_names@);
    let pid_to_index = build_pid_to_index(processes);
    let kept = retain_known_expanded_pids(expanded_pids, &pid_to_index);
    let parents = build_parent_index(processes, &pid_to_index);
    proof {
        lemma_pid_index_map(processes@, n as int);
        assert(parents@ =~= parents_of(processes@));
    }
    let (mut roots, mut children) = build_tree_index(parents.as_slice(), n);
    let ghost raw_roots = roots@;
    proof {
        lemma_tree_index_bounds(parents@, 0, n as int);
    }
    sort_indexes_with_owner_names(sort_state, owner_names, processes, &mut roots);
    proof {
        lemma_sorted_indexes_in_range(sort_state, processes@, names, raw_roots, roots@, n as int);
        assert forall|q: int, k: int|
            0 <= q < children@.len() && 0 <= k < children@[q]@.len() implies #[trigger] children@[q]@[k]
            < n by {
            lemma_tree_index_bounds(parents@, q as usize, n as int);
        }
    }
    let mut p: usize = 0;
    while p < n
        invariant
            p <= n,
            n == processes.len(),
            owner_names.len() == processes.len(),
            names == name_views(owner_names@),
            parents@ == parents_of(processes@),
            parents@.len() == n,
            children@.len() == n,
            forall|q: int|
                0 <= q < p ==> is_sorted_indexes(
                    sort_state,
                    processes@,
                    names,
                    children_of(parents@, q as usize, n as int),
                    (#[trigger] children@[q])@,
                ),
            forall|q: int|
                p <= q < n ==> (#[trigger] children@[q])@ == children_of(
                    parents@,
                    q as usize,
                    n as int,
                ),
            children_in_range(children@, n as int),
        decreases n - p,
    {
        let ghost raw = children@[p as int]@;
        proof {
            lemma_tree_index_bounds(parents@, p, n as int);
        }
        sort_indexes_with_owner_names(sort_state, owner_names, processes, &mut children[p]);
        proof {
            lemma_sorted_indexes_in_range(
                sort_state,
                processes@,
                names,
                raw,
                children@[p as int]@,
                n as int,
            );
            assert forall|q: int, k: int|
                0 <= q < children@.len() && 0 <= k < children@[q]@.len() implies #[trigger] children@[q]@[k]
                < n by {
                if q != p {
                    assert(children@[q]@[k] < n);
                }
            }
        }
        p = p + 1;
    }
    let rows = build_visible_tree_rows(
        processes,
        children.as_slice(),
        &kept,
        parents.as_slice(),
        roots.as_slice(),
    );
    proof {
        let kids = kid_views(children@);
        assert forall|q: int|
            0 <= q < n implies is_sorted_indexes(
            sort_state,
            processes@,
            names,
            children_of(parents@, q as usize, n as int),
            #[trigger] kids[q],
        ) by {
            assert(kids[q] == children@[q]@);
        }
        let rv = sibling_rows(
            pids_of(processes@),
            kids,
            kept@,
            parents@,
            roots@,
            0,
            0,
            Seq::empty(),
            n as nat,
        );
        assert(rows_view(rows@) == rv);
        assert(is_sorted_indexes(
            sort_state,
            processes@,
            names,
            roots_of(parents@, n as int),
            roots@,
        ));
        assert(kids.len() == n);
    }
    ProcessTreeState { expanded_pids: kept, rows, parents }
}

/// Builds the tree view state of `processes` under `sort_state`: parent
/// links, the expanded ids that still name a process, and the visible rows
/// with siblings in table order. Owner names come from `owner_lookup`, and
/// only when the table is sorted by owner.
pub fn build_process_tree_state<L: OwnerNameResolver>(
    processes: &[ProcessRow],
    sort_state: SortState,
    owner_lookup: &L,
    expanded_pids: &HashSet<i32>,
) -> (r: ProcessTreeState)
    ensures
        exists|names: Seq<Seq<char>>|
            names.len() == processes@.len() && is_tree_state(
                processes@,
                sort_state,
                names,
                expanded_pids@,
                r.expanded_pids@,
                r.parents@,
                rows_view(r.rows@),
            ),
        exists|names: Seq<Seq<char>>|
            names.len() == processes@.len() && is_tree_state(
                processes@,
                sort_state,
                names,
                expanded_pids@,
                r.expanded_pids@,
                r.parents@,
                rows_view(r.rows@),
            ) && (sort_state.key == SortKey::Owner ==> forall|i: int|
                0 <= i < names.len() ==> owner_lookup.gives_name(
                    processes@[i].owner_uid,
                    #[trigger] names[i],
                )),
        r.parents@ == parents_of(processes@),
        parent_links(rows_view(r.rows@), r.parents@),
        forall|i: int|
            0 <= i < processes@.len() ==> match #[trigger] r.parents@[i] {
                Some(j) => j < processes@.len() && processes@[j as int].pid == processes@[i].ppid,
                None => processes@[i].ppid <= 0 || processes@[i].ppid == processes@[i].pid
                    || forall|j: int| 0 <= j < processes@.len() ==> processes@[j].pid != processes@[i].ppid,
            },
{
    let names = owner_names_for(sort_state, owner_lookup, processes);
    let r = build_process_tree_state_with_owner_names(
        processes,
        sort_state,
        names.as_slice(),
        expanded_pids,
    );
    assert(name_views(names@).len() == processes@.len());
    assert(forall|i: int| 0 <= i < names.len() ==> #[trigger] name_views(names@)[i] == names@[i]@);
    proof {
        lemma_parents_of_meaning(processes@);
    }
    r
}

} // verus!
