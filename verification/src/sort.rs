//! The order of rows in the process table.
//!
//! Rows are ordered by the active sort key in the active direction; equal
//! keys fall back to the process id, ascending, so the table does not jump
//! between refreshes. Text keys compare their lower-case forms code point by
//! code point, which is the order of `String` comparison in std.
use crate::owners::OwnerNameResolver;
use crate::snapshot::{visible_swap_spec, ProcessRow, SortDirection, SortKey, SortState};
use crate::text::{chars_of, lowercase, to_lowercase};
use vstd::prelude::*;

verus! {

/// Three-way comparison of two integers: -1, 0 or 1.
pub open spec fn int_order(a: int, b: int) -> int {
    if a < b {
        -1
    } else if a == b {
        0
    } else {
        1
    }
}

/// Lexicographic comparison of `a` and `b` from position `i` on, by code
/// point; when one side runs out, the shorter one is the lesser.
pub open spec fn text_order_from(a: Seq<char>, b: Seq<char>, i: int) -> int
    decreases a.len() - i,
{
    if i < 0 || i >= a.len() || i >= b.len() {
        int_order(a.len() as int, b.len() as int)
    } else if a[i] < b[i] {
        -1
    } else if a[i] > b[i] {
        1
    } else {
        text_order_from(a, b, i + 1)
    }
}

/// Lexicographic comparison of two texts by code point.
pub open spec fn text_order(a: Seq<char>, b: Seq<char>) -> int {
    text_order_from(a, b, 0)
}

proof fn lemma_text_antisym(a: Seq<char>, b: Seq<char>, i: int)
    ensures
        text_order_from(a, b, i) == -text_order_from(b, a, i),
        -1 <= text_order_from(a, b, i) <= 1,
    decreases a.len() - i,
{
    if i < 0 || i >= a.len() || i >= b.len() {
    } else if a[i] != b[i] {
    } else {
        lemma_text_antisym(a, b, i + 1);
    }
}

proof fn lemma_text_zero(a: Seq<char>, b: Seq<char>, i: int)
    requires
        0 <= i,
        text_order_from(a, b, i) == 0,
    ensures
        a.len() == b.len(),
        forall|k: int| i <= k < a.len() ==> a[k] == b[k],
    decreases a.len() - i,
{
    if i >= a.len() || i >= b.len() {
    } else {
        assert(a[i] == b[i]);
        lemma_text_zero(a, b, i + 1);
    }
}

proof fn lemma_text_trans(a: Seq<char>, b: Seq<char>, c: Seq<char>, i: int)
    requires
        0 <= i,
        text_order_from(a, b, i) < 0,
        text_order_from(b, c, i) < 0,
    ensures
        text_order_from(a, c, i) < 0,
    decreases a.len() - i,
{
    if i >= a.len() || i >= b.len() || i >= c.len() {
    } else if a[i] == b[i] && b[i] == c[i] {
        lemma_text_trans(a, b, c, i + 1);
    }
}

/// Properties of text order that sorting relies on: it is antisymmetric,
/// zero only on equal texts, and transitive.
pub proof fn lemma_text_order_total(a: Seq<char>, b: Seq<char>, c: Seq<char>)
    ensures
        text_order(a, b) == -text_order(b, a),
        -1 <= text_order(a, b) <= 1,
        text_order(a, b) == 0 ==> a == b,
        text_order(a, b) < 0 && text_order(b, c) < 0 ==> text_order(a, c) < 0,
{
    lemma_text_antisym(a, b, 0);
    if text_order(a, b) == 0 {
        lemma_text_zero(a, b, 0);
        assert(a =~= b);
    }
    if text_order(a, b) < 0 && text_order(b, c) < 0 {
        lemma_text_trans(a, b, c, 0);
    }
}

/// Compares two texts by code point.
pub fn text_compare(a: &[char], b: &[char]) -> (r: i8)
    ensures
        r as int == text_order(a@, b@),
        r == 0 <==> a@ == b@,
        forall|i: int|
            0 <= i < a@.len() && i < b@.len() && a@.take(i) == b@.take(i) ==> (a@[i] < b@[i] ==> r
                < 0) && (a@[i] > b@[i] ==> r > 0),
        a@.len() < b@.len() && a@ == b@.take(a@.len() as int) ==> r < 0,
        b@.len() < a@.len() && b@ == a@.take(b@.len() as int) ==> r > 0,
{
    let mut i: usize = 0;
    while i < a.len() && i < b.len()
        invariant
            i <= a.len(),
            i <= b.len(),
            text_order_from(a@, b@, 0) == text_order_from(a@, b@, i as int),
            forall|j: int| 0 <= j < i ==> a@[j] == b@[j],
        decreases a.len() - i,
    {
        let x = a[i];
        let y = b[i];
        if x < y {
            proof {
                lemma_first_difference(a@, b@, i as int);
            }
            return -1;
        }
        if x > y {
            proof {
                lemma_first_difference(a@, b@, i as int);
            }
            return 1;
        }
        i = i + 1;
    }
    proof {
        lemma_text_order_total(a@, b@, b@);
        if a@.len() == b@.len() {
            assert(a@ =~= b@);
        }
        if a@.len() < b@.len() {
            assert(a@ =~= b@.take(a@.len() as int));
            assert(a@ != b@);
        }
        if b@.len() < a@.len() {
            assert(b@ =~= a@.take(b@.len() as int));
            assert(a@ != b@);
            assert forall|k: int| 0 <= k < a@.len() && k < b@.len() && a@.take(k) == b@.take(k) implies !(a@[k] < b@[k]) && !(a@[k] > b@[k]) by {}
        }
    }
    if a.len() < b.len() {
        -1
    } else if a.len() == b.len() {
        0
    } else {
        1
    }
}

/// Two texts equal before position `i` and different at `i` differ at no
/// other first position: any position where they agree before it is `i`.
proof fn lemma_first_difference(a: Seq<char>, b: Seq<char>, i: int)
    requires
        0 <= i < a.len(),
        i < b.len(),
        forall|j: int| 0 <= j < i ==> a[j] == b[j],
        a[i] != b[i],
    ensures
        forall|k: int|
            0 <= k < a.len() && k < b.len() && a.take(k) == b.take(k) && a[k] != b[k] ==> k == i,
        a != b,
        !(a.len() < b.len() && a == b.take(a.len() as int)),
        !(b.len() < a.len() && b == a.take(b.len() as int)),
{
    assert forall|k: int|
        0 <= k < a.len() && k < b.len() && a.take(k) == b.take(k) && a[k] != b[k] implies k == i by {
        if k > i {
            assert(a.take(k)[i] == b.take(k)[i]);
        }
    }
    if a.len() < b.len() && a == b.take(a.len() as int) {
        assert(b.take(a.len() as int)[i] == b[i]);
    }
    if b.len() < a.len() && b == a.take(b.len() as int) {
        assert(a.take(b.len() as int)[i] == a[i]);
    }
}

/// The text a row is sorted by under a text key: the lower-case owner name,
/// process name or command line. Other keys sort by numbers.
pub open spec fn sort_text(key: SortKey, row: ProcessRow, owner: Seq<char>) -> Seq<char> {
    match key {
        SortKey::Owner => lowercase(owner),
        SortKey::Name => lowercase(row.name@),
        SortKey::Command => lowercase(row.command@),
        _ => Seq::empty(),
    }
}

/// Comparison of two rows by `key` alone, with `ka` and `kb` the texts the
/// rows are sorted by when `key` is a text key.
pub open spec fn keyed_primary(key: SortKey, a: ProcessRow, b: ProcessRow, ka: Seq<char>, kb: Seq<
    char,
>) -> int {
    match key {
        SortKey::Pid => int_order(a.pid as int, b.pid as int),
        SortKey::Ppid => int_order(a.ppid as int, b.ppid as int),
        SortKey::Owner => text_order(ka, kb),
        SortKey::Name => text_order(ka, kb),
        SortKey::Command => text_order(ka, kb),
        SortKey::Rss => int_order(a.rss_bytes as int, b.rss_bytes as int),
        SortKey::Swap => int_order(visible_swap_spec(a) as int, visible_swap_spec(b) as int),
        SortKey::Cpu => int_order(a.cpu_percent as int, b.cpu_percent as int),
    }
}

/// Comparison of two rows under `state`: by the key in the chosen direction,
/// then by ascending process id.
pub open spec fn keyed_order(state: SortState, a: ProcessRow, b: ProcessRow, ka: Seq<char>, kb: Seq<
    char,
>) -> int {
    let p = keyed_primary(state.key, a, b, ka, kb);
    let d = match state.direction {
        SortDirection::Ascending => p,
        SortDirection::Descending => -p,
    };
    if d != 0 {
        d
    } else {
        int_order(a.pid as int, b.pid as int)
    }
}

/// Comparison of two rows under `state`, the owners of the rows being named
/// `oa` and `ob`.
pub open spec fn row_order(state: SortState, a: ProcessRow, b: ProcessRow, oa: Seq<char>, ob: Seq<
    char,
>) -> int {
    keyed_order(state, a, b, sort_text(state.key, a, oa), sort_text(state.key, b, ob))
}

proof fn lemma_primary_total(
    key: SortKey,
    a: ProcessRow,
    b: ProcessRow,
    c: ProcessRow,
    ka: Seq<char>,
    kb: Seq<char>,
    kc: Seq<char>,
)
    ensures
        keyed_primary(key, a, b, ka, kb) == -keyed_primary(key, b, a, kb, ka),
        -1 <= keyed_primary(key, a, b, ka, kb) <= 1,
        keyed_primary(key, a, b, ka, kb) <= 0 && keyed_primary(key, b, c, kb, kc) <= 0
            ==> keyed_primary(key, a, c, ka, kc) <= 0,
        keyed_primary(key, a, b, ka, kb) < 0 && keyed_primary(key, b, c, kb, kc) <= 0
            ==> keyed_primary(key, a, c, ka, kc) < 0,
        keyed_primary(key, a, b, ka, kb) <= 0 && keyed_primary(key, b, c, kb, kc) < 0
            ==> keyed_primary(key, a, c, ka, kc) < 0,
{
    match key {
        SortKey::Owner | SortKey::Name | SortKey::Command => {
            lemma_text_order_total(ka, kb, kc);
            lemma_text_order_total(kb, kc, ka);
            lemma_text_order_total(ka, kc, kb);
        },
        _ => {},
    }
}

/// Properties of row order that sorting relies on: it is antisymmetric and
/// transitive, so together with the position of a row it orders rows totally.
pub proof fn lemma_keyed_order_total(
    state: SortState,
    a: ProcessRow,
    b: ProcessRow,
    c: ProcessRow,
    ka: Seq<char>,
    kb: Seq<char>,
    kc: Seq<char>,
)
    ensures
        keyed_order(state, a, b, ka, kb) == -keyed_order(state, b, a, kb, ka),
        -1 <= keyed_order(state, a, b, ka, kb) <= 1,
        keyed_order(state, a, b, ka, kb) <= 0 && keyed_order(state, b, c, kb, kc) <= 0
            ==> keyed_order(state, a, c, ka, kc) <= 0,
        keyed_order(state, a, a, ka, ka) == 0,
        keyed_order(state, a, b, ka, kb) == 0 ==> a.pid == b.pid,
{
    lemma_primary_total(state.key, a, b, c, ka, kb, kc);
    lemma_primary_total(state.key, c, b, a, kc, kb, ka);
    lemma_primary_total(state.key, a, c, b, ka, kc, kb);
    lemma_primary_total(state.key, b, c, a, kb, kc, ka);
    lemma_primary_total(state.key, a, a, a, ka, ka, ka);
}

fn order_i64(a: i64, b: i64) -> (r: i8)
    ensures
        r as int == int_order(a as int, b as int),
{
    if a < b {
        -1
    } else if a == b {
        0
    } else {
        1
    }
}

fn order_u64(a: u64, b: u64) -> (r: i8)
    ensures
        r as int == int_order(a as int, b as int),
{
    if a < b {
        -1
    } else if a == b {
        0
    } else {
        1
    }
}

/// Compares two rows under `state`, with `ka` and `kb` the texts they are
/// sorted by.
pub fn keyed_compare(state: SortState, a: &ProcessRow, b: &ProcessRow, ka: &[char], kb: &[char]) -> (r:
    i8)
    ensures
        r as int == keyed_order(state, *a, *b, ka@, kb@),
        -1 <= r <= 1,
        ({
            let asc = state.direction == SortDirection::Ascending;
            let swap_a: int = match a.detailed_swap_bytes {
                Some(v) => v as int,
                None => a.base_swap_bytes as int,
            };
            let swap_b: int = match b.detailed_swap_bytes {
                Some(v) => v as int,
                None => b.base_swap_bytes as int,
            };
            let (x, y): (int, int) = match state.key {
                SortKey::Pid => (a.pid as int, b.pid as int),
                SortKey::Ppid => (a.ppid as int, b.ppid as int),
                SortKey::Rss => (a.rss_bytes as int, b.rss_bytes as int),
                SortKey::Swap => (swap_a, swap_b),
                SortKey::Cpu => (a.cpu_percent as int, b.cpu_percent as int),
                _ => (0int, 0int),
            };
            let textual = state.key == SortKey::Owner || state.key == SortKey::Name || state.key
                == SortKey::Command;
            &&& !textual && x < y ==> (if asc { r < 0 } else { r > 0 })
            &&& !textual && x > y ==> (if asc { r > 0 } else { r < 0 })
            &&& (textual ==> ka@ == kb@) && (!textual ==> x == y) ==> (r < 0 <==> a.pid < b.pid)
                && (r == 0 <==> a.pid == b.pid)
        }),
{
    let p = match state.key {
        SortKey::Pid => order_i64(a.pid as i64, b.pid as i64),
        SortKey::Ppid => order_i64(a.ppid as i64, b.ppid as i64),
        SortKey::Owner => text_compare(ka, kb),
        SortKey::Name => text_compare(ka, kb),
        SortKey::Command => text_compare(ka, kb),
        SortKey::Rss => order_u64(a.rss_bytes, b.rss_bytes),
        SortKey::Swap => order_u64(a.visible_swap_bytes(), b.visible_swap_bytes()),
        SortKey::Cpu => order_u64(a.cpu_percent as u64, b.cpu_percent as u64),
    };
    proof {
        lemma_primary_total(state.key, *a, *b, *b, ka@, kb@, kb@);
    }
    let d = match state.direction {
        SortDirection::Ascending => p,
        SortDirection::Descending => -p,
    };
    if d != 0 {
        d
    } else {
        order_i64(a.pid as i64, b.pid as i64)
    }
}

/// The text `row` is sorted by under `state`, its owner being named `owner`.
pub fn sort_text_of(state: SortState, row: &ProcessRow, owner: &str) -> (r: Vec<char>)
    ensures
        r@ == sort_text(state.key, *row, owner@),
{
    match state.key {
        SortKey::Owner => chars_of(to_lowercase(owner).as_str()),
        SortKey::Name => chars_of(to_lowercase(row.name.as_str()).as_str()),
        SortKey::Command => chars_of(to_lowercase(row.command.as_str()).as_str()),
        _ => Vec::new(),
    }
}

/// The number that stands for an ordering: -1, 0 or 1.
pub open spec fn ordering_value(o: std::cmp::Ordering) -> int {
    match o {
        std::cmp::Ordering::Less => -1,
        std::cmp::Ordering::Equal => 0,
        std::cmp::Ordering::Greater => 1,
    }
}

fn to_ordering(v: i8) -> (r: std::cmp::Ordering)
    requires
        -1 <= v <= 1,
    ensures
        ordering_value(r) == v,
{
    if v < 0 {
        std::cmp::Ordering::Less
    } else if v == 0 {
        std::cmp::Ordering::Equal
    } else {
        std::cmp::Ordering::Greater
    }
}

/// Compares two rows under `state`, their owners being named `left_owner` and
/// `right_owner`.
pub fn compare_rows_with_owner_names(
    sort_state: SortState,
    left: &ProcessRow,
    right: &ProcessRow,
    left_owner: &str,
    right_owner: &str,
) -> (r: std::cmp::Ordering)
    ensures
        ordering_value(r) == row_order(sort_state, *left, *right, left_owner@, right_owner@),
{
    let ka = sort_text_of(sort_state, left, left_owner);
    let kb = sort_text_of(sort_state, right, right_owner);
    let v = keyed_compare(sort_state, left, right, ka.as_slice(), kb.as_slice());
    proof {
        lemma_keyed_order_total(sort_state, *left, *right, *right, ka@, kb@, kb@);
    }
    to_ordering(v)
}

/// Compares two rows using the active sort key and the process id as a
/// stable tie-breaker. Owner names come from `owner_lookup`, and only when
/// the table is sorted by owner.
pub fn compare_process_rows<L: OwnerNameResolver>(
    sort_state: SortState,
    owner_lookup: &L,
    left: &ProcessRow,
    right: &ProcessRow,
) -> (r: std::cmp::Ordering)
    ensures
        exists|oa: Seq<char>, ob: Seq<char>|
            ordering_value(r) == row_order(sort_state, *left, *right, oa, ob),
        sort_state.key == SortKey::Owner ==> exists|oa: Seq<char>, ob: Seq<char>|
            owner_lookup.gives_name(left.owner_uid, oa) && owner_lookup.gives_name(
                right.owner_uid,
                ob,
            ) && ordering_value(r) == row_order(sort_state, *left, *right, oa, ob),
        sort_state.key != SortKey::Owner ==> ordering_value(r) == row_order(
            sort_state,
            *left,
            *right,
            Seq::empty(),
            Seq::empty(),
        ),
{
    if sort_state.key == SortKey::Owner {
        let left_owner = owner_lookup.owner_name(left.owner_uid);
        let right_owner = owner_lookup.owner_name(right.owner_uid);
        compare_rows_with_owner_names(
            sort_state,
            left,
            right,
            left_owner.as_str(),
            right_owner.as_str(),
        )
    } else {
        let r = compare_rows_with_owner_names(sort_state, left, right, "", "");
        assert(row_order(sort_state, *left, *right, ""@, ""@) == row_order(
            sort_state,
            *left,
            *right,
            Seq::empty(),
            Seq::empty(),
        ));
        r
    }
}

/// The texts of `keys`.
pub open spec fn key_views(keys: Seq<Vec<char>>) -> Seq<Seq<char>> {
    keys.map_values(|v: Vec<char>| v@)
}

/// Comparison of the rows at positions `p` and `q` of `items`, each item
/// being the index of a row of `rows` and of its text in `keys`.
pub open spec fn position_order(
    state: SortState,
    rows: Seq<ProcessRow>,
    keys: Seq<Seq<char>>,
    items: Seq<usize>,
    p: int,
    q: int,
) -> int {
    let i = items[p] as int;
    let j = items[q] as int;
    keyed_order(state, rows[i], rows[j], keys[i], keys[j])
}

/// Whether position `p` of `items` comes before position `q` in a stable
/// sort: its row is lesser, or equal and earlier.
pub open spec fn position_before(
    state: SortState,
    rows: Seq<ProcessRow>,
    keys: Seq<Seq<char>>,
    items: Seq<usize>,
    p: int,
    q: int,
) -> bool {
    let c = position_order(state, rows, keys, items, p, q);
    c < 0 || (c == 0 && p < q)
}

/// Whether `perm` lists every position of `items` once, in the order of a
/// stable sort of their rows.
pub open spec fn is_stable_order(
    state: SortState,
    rows: Seq<ProcessRow>,
    keys: Seq<Seq<char>>,
    items: Seq<usize>,
    perm: Seq<usize>,
) -> bool {
    &&& perm.len() == items.len()
    &&& forall|k: int| 0 <= k < perm.len() ==> perm[k] < items.len()
    &&& forall|p: usize| p < items.len() ==> #[trigger] perm.contains(p)
    &&& forall|k: int, l: int|
        0 <= k < l < perm.len() ==> position_before(
            state,
            rows,
            keys,
            items,
            perm[k] as int,
            perm[l] as int,
        )
}

proof fn lemma_position_order(
    state: SortState,
    rows: Seq<ProcessRow>,
    keys: Seq<Seq<char>>,
    items: Seq<usize>,
    p: int,
    q: int,
    r: int,
)
    ensures
        position_order(state, rows, keys, items, p, q) == -position_order(
            state,
            rows,
            keys,
            items,
            q,
            p,
        ),
        position_order(state, rows, keys, items, p, q) <= 0 && position_order(
            state,
            rows,
            keys,
            items,
            q,
            r,
        ) <= 0 ==> position_order(state, rows, keys, items, p, r) <= 0,
        position_order(state, rows, keys, items, p, p) == 0,
{
    let i = items[p] as int;
    let j = items[q] as int;
    let k = items[r] as int;
    lemma_keyed_order_total(state, rows[i], rows[j], rows[k], keys[i], keys[j], keys[k]);
}

fn position_compare(
    state: SortState,
    rows: &[ProcessRow],
    keys: &[Vec<char>],
    items: &[usize],
    p: usize,
    q: usize,
) -> (r: i8)
    requires
        p < items.len(),
        q < items.len(),
        items[p as int] < rows.len(),
        items[q as int] < rows.len(),
        keys.len() == rows.len(),
    ensures
        r as int == position_order(state, rows@, key_views(keys@), items@, p as int, q as int),
{
    let i = items[p];
    let j = items[q];
    keyed_compare(state, &rows[i], &rows[j], keys[i].as_slice(), keys[j].as_slice())
}

/// Orders the positions of `items` by their rows, stably: a stable insertion
/// sort.
pub fn order_positions(
    state: SortState,
    rows: &[ProcessRow],
    keys: &[Vec<char>],
    items: &[usize],
) -> (perm: Vec<usize>)
    requires
        keys.len() == rows.len(),
        forall|p: int| 0 <= p < items.len() ==> items[p] < rows.len(),
    ensures
        is_stable_order(state, rows@, key_views(keys@), items@, perm@),
{
    let ghost kv = key_views(keys@);
    let n = items.len();
    let mut out: Vec<usize> = Vec::new();
    let mut i: usize = 0;
    while i < n
        invariant
            n == items.len(),
            i <= n,
            keys.len() == rows.len(),
            kv == key_views(keys@),
            forall|p: int| 0 <= p < n ==> items[p] < rows.len(),
            out.len() == i,
            forall|k: int| 0 <= k < out.len() ==> out[k] < i,
            forall|p: usize| p < i ==> #[trigger] out@.contains(p),
            forall|k: int, l: int|
                0 <= k < l < out.len() ==> position_before(
                    state,
                    rows@,
                    kv,
                    items@,
                    out[k] as int,
                    out[l] as int,
                ),
        decreases n - i,
    {
        let mut pos = out.len();
        while pos > 0 && position_compare(state, rows, keys, items, out[pos - 1], i) > 0
            invariant
                n == items.len(),
                i < n,
                keys.len() == rows.len(),
                kv == key_views(keys@),
                forall|p: int| 0 <= p < n ==> items[p] < rows.len(),
                out.len() == i,
                pos <= out.len(),
                forall|k: int| 0 <= k < out.len() ==> out[k] < i,
                forall|m: int|
                    pos <= m < out.len() ==> position_order(
                        state,
                        rows@,
                        kv,
                        items@,
                        i as int,
                        out[m] as int,
                    ) < 0,
            decreases pos,
        {
            proof {
                lemma_position_order(state, rows@, kv, items@, out[pos - 1] as int, i as int, 0);
            }
            pos = pos - 1;
        }
        proof {
            let ii = i as int;
            assert(pos > 0 ==> position_order(state, rows@, kv, items@, out[pos - 1] as int, ii) <= 0);
            let s = out@.insert(pos as int, i);
            assert forall|k: int, l: int| 0 <= k < l < s.len() implies position_before(
                state,
                rows@,
                kv,
                items@,
                s[k] as int,
                s[l] as int,
            ) by {
                if l < pos {
                    assert(s[k] == out@[k] && s[l] == out@[l]);
                    assert(position_before(state, rows@, kv, items@, out@[k] as int, out@[l] as int));
                } else if k > pos {
                    assert(s[k] == out@[k - 1] && s[l] == out@[l - 1]);
                    assert(position_before(state, rows@, kv, items@, out@[k - 1] as int, out@[l - 1] as int));
                } else if k < pos && l > pos {
                    assert(s[k] == out@[k] && s[l] == out@[l - 1]);
                    assert(position_before(state, rows@, kv, items@, out@[k] as int, out@[l - 1] as int));
                } else if k == pos {
                    assert(s[k] == i && s[l] == out@[l - 1]);
                    assert(position_order(state, rows@, kv, items@, ii, out@[l - 1] as int) < 0);
                } else {
                    assert(s[k] == out@[k] && s[l] == i);
                    let a = out@[k] as int;
                    let b = out@[pos - 1] as int;
                    lemma_position_order(state, rows@, kv, items@, a, b, ii);
                    lemma_position_order(state, rows@, kv, items@, a, a, a);
                    if k < pos - 1 {
                        assert(position_before(state, rows@, kv, items@, a, b));
                    }
                    assert(position_order(state, rows@, kv, items@, a, b) <= 0);
                    assert(position_order(state, rows@, kv, items@, a, ii) <= 0);
                    assert(a < ii);
                }
            }
            assert forall|p: usize| p < i + 1 implies #[trigger] s.contains(p) by {
                if p < i {
                    assert(out@.contains(p));
                    let k = choose|k: int| 0 <= k < out.len() && out@[k] == p;
                    if k < pos {
                        assert(s[k] == p);
                    } else {
                        assert(s[k + 1] == p);
                    }
                } else {
                    assert(s[pos as int] == p);
                }
            }
        }
        out.insert(pos, i);
        i = i + 1;
    }
    out
}

/// The characters of each name.
pub open spec fn name_views(names: Seq<String>) -> Seq<Seq<char>> {
    names.map_values(|s: String| s@)
}

/// The texts the rows are sorted by under `state`, `names[i]` naming the
/// owner of `rows[i]`.
pub open spec fn sort_texts(state: SortState, rows: Seq<ProcessRow>, names: Seq<Seq<char>>) -> Seq<
    Seq<char>,
> {
    Seq::new(rows.len(), |i: int| sort_text(state.key, rows[i], names[i]))
}

/// The positions `0..n`.
pub open spec fn all_positions(n: nat) -> Seq<usize> {
    Seq::new(n, |k: int| k as usize)
}

/// Whether `sorted` holds the rows of `rows`, each once, in the table order
/// of `state`: by the sort key in the chosen direction, then by process id,
/// then by the earlier position; the owners of the rows being `names`.
pub open spec fn is_sorted_table(
    state: SortState,
    rows: Seq<ProcessRow>,
    names: Seq<Seq<char>>,
    sorted: Seq<ProcessRow>,
) -> bool {
    exists|perm: Seq<usize>|
        is_stable_order(state, rows, sort_texts(state, rows, names), all_positions(rows.len()), perm)
            && sorted == perm.map_values(|p: usize| rows[p as int])
}

/// Whether `sorted` holds the entries of `items`, each once, ordered as a
/// stable sort of the rows they index, the owners of the rows being `names`.
pub open spec fn is_sorted_indexes(
    state: SortState,
    rows: Seq<ProcessRow>,
    names: Seq<Seq<char>>,
    items: Seq<usize>,
    sorted: Seq<usize>,
) -> bool {
    exists|perm: Seq<usize>|
        is_stable_order(state, rows, sort_texts(state, rows, names), items, perm) && sorted
            == perm.map_values(|p: usize| items[p as int])
}

/// The sort text of every row, the owner of `rows[i]` being `owner_names[i]`.
fn sort_texts_for(state: SortState, rows: &[ProcessRow], owner_names: &[String]) -> (r: Vec<
    Vec<char>,
>)
    requires
        owner_names.len() == rows.len(),
    ensures
        r.len() == rows.len(),
        key_views(r@) == sort_texts(state, rows@, name_views(owner_names@)),
{
    let mut r: Vec<Vec<char>> = Vec::new();
    let mut i: usize = 0;
    while i < rows.len()
        invariant
            i <= rows.len(),
            owner_names.len() == rows.len(),
            r.len() == i,
            forall|k: int|
                0 <= k < i ==> (#[trigger] r@[k])@ == sort_text(
                    state.key,
                    rows@[k],
                    owner_names@[k]@,
                ),
        decreases rows.len() - i,
    {
        let t = sort_text_of(state, &rows[i], owner_names[i].as_str());
        r.push(t);
        i = i + 1;
    }
    assert(key_views(r@) =~= sort_texts(state, rows@, name_views(owner_names@)));
    r
}

fn all_positions_vec(n: usize) -> (r: Vec<usize>)
    ensures
        r@ == all_positions(n as nat),
{
    let mut r: Vec<usize> = Vec::new();
    let mut i: usize = 0;
    while i < n
        invariant
            i <= n,
            r@ == all_positions(i as nat),
        decreases n - i,
    {
        r.push(i);
        assert(r@ =~= all_positions((i + 1) as nat));
        i = i + 1;
    }
    r
}

proof fn lemma_stable_order_distinct(
    state: SortState,
    rows: Seq<ProcessRow>,
    keys: Seq<Seq<char>>,
    items: Seq<usize>,
    perm: Seq<usize>,
)
    requires
        is_stable_order(state, rows, keys, items, perm),
    ensures
        forall|k: int, l: int| 0 <= k < l < perm.len() ==> perm[k] != perm[l],
{
    assert forall|k: int, l: int| 0 <= k < l < perm.len() implies perm[k] != perm[l] by {
        lemma_position_order(state, rows, keys, items, perm[k] as int, perm[k] as int, 0);
        assert(position_before(state, rows, keys, items, perm[k] as int, perm[l] as int));
    }
}

/// Moves each row to the place `perm` gives it: the row at `perm[k]` comes
/// `k`th.
fn permute_rows(rows: Vec<ProcessRow>, perm: &[usize]) -> (r: Vec<ProcessRow>)
    requires
        perm.len() == rows.len(),
        forall|k: int| 0 <= k < perm.len() ==> perm[k] < rows.len(),
        forall|k: int, l: int| 0 <= k < l < perm.len() ==> perm[k] != perm[l],
    ensures
        r@ == perm@.map_values(|p: usize| rows@[p as int]),
{
    let n = rows.len();
    let ghost old_rows = rows@;
    let mut slots: Vec<Option<ProcessRow>> = Vec::new();
    for row in it: rows
        invariant
            it.seq() == old_rows,
            slots.len() == it.index(),
            forall|j: int| 0 <= j < slots.len() ==> slots@[j] == Some(old_rows[j]),
    {
        slots.push(Some(row));
    }
    let mut r: Vec<ProcessRow> = Vec::new();
    let mut k: usize = 0;
    while k < n
        invariant
            k <= n,
            n == perm.len(),
            n == old_rows.len(),
            slots.len() == n,
            forall|m: int| 0 <= m < perm.len() ==> perm[m] < n,
            forall|a: int, b: int| 0 <= a < b < perm.len() ==> perm[a] != perm[b],
            forall|j: int|
                0 <= j < n ==> slots@[j] == (if perm@.take(k as int).contains(j as usize) {
                    None
                } else {
                    Some(old_rows[j])
                }),
            r@ == perm@.take(k as int).map_values(|p: usize| old_rows[p as int]),
        decreases n - k,
    {
        let p = perm[k];
        proof {
            if perm@.take(k as int).contains(p) {
                let m = choose|m: int| 0 <= m < k && perm@.take(k as int)[m] == p;
                assert(perm[m] == perm[k as int]);
            }
        }
        let taken = slots[p].take();
        match taken {
            Some(row) => {
                r.push(row);
            },
            None => {},
        }
        proof {
            assert(perm@.take(k + 1) =~= perm@.take(k as int).push(p));
            assert(r@ =~= perm@.take(k + 1).map_values(|p: usize| old_rows[p as int]));
            assert forall|j: int| 0 <= j < n implies slots@[j] == (if perm@.take(k + 1).contains(
                j as usize,
            ) {
                None
            } else {
                Some(old_rows[j])
            }) by {
                let t = perm@.take(k as int);
                if j as usize == p {
                    assert(perm@.take(k + 1)[k as int] == p);
                } else {
                    if t.contains(j as usize) {
                        let m = choose|m: int| 0 <= m < t.len() && t[m] == j as usize;
                        assert(perm@.take(k + 1)[m] == j as usize);
                    }
                    let t1 = perm@.take(k + 1);
                    if t1.contains(j as usize) {
                        let m = choose|m: int| 0 <= m < t1.len() && t1[m] == j as usize;
                        assert(m < k);
                        assert(t[m] == j as usize);
                    }
                }
            }
        }
        k = k + 1;
    }
    assert(perm@.take(n as int) =~= perm@);
    r
}

/// Sorts the rows in table order, the owner of the `i`th row being named
/// `owner_names[i]`.
pub fn sort_processes_with_owner_names(
    sort_state: SortState,
    owner_names: &[String],
    processes: &mut Vec<ProcessRow>,
)
    requires
        owner_names.len() == old(processes).len(),
    ensures
        is_sorted_table(sort_state, old(processes)@, name_views(owner_names@), final(processes)@),
{
    let keys = sort_texts_for(sort_state, processes.as_slice(), owner_names);
    let items = all_positions_vec(processes.len());
    let perm = order_positions(sort_state, processes.as_slice(), keys.as_slice(), items.as_slice());
    proof {
        lemma_stable_order_distinct(sort_state, processes@, key_views(keys@), items@, perm@);
    }
    let mut rows: Vec<ProcessRow> = Vec::new();
    std::mem::swap(&mut rows, processes);
    let sorted = permute_rows(rows, perm.as_slice());
    *processes = sorted;
}

/// The owner name of every row, looked up only when the table is sorted by
/// owner; otherwise every name is empty.
pub fn owner_names_for<L: OwnerNameResolver>(
    sort_state: SortState,
    owner_lookup: &L,
    rows: &[ProcessRow],
) -> (r: Vec<String>)
    ensures
        r.len() == rows.len(),
        sort_state.key != SortKey::Owner ==> forall|i: int| 0 <= i < r.len() ==> r@[i]@ == Seq::<
            char,
        >::empty(),
        sort_state.key == SortKey::Owner ==> forall|i: int|
            0 <= i < r.len() ==> owner_lookup.gives_name(rows@[i].owner_uid, #[trigger] r@[i]@),
{
    let mut r: Vec<String> = Vec::new();
    let mut i: usize = 0;
    while i < rows.len()
        invariant
            i <= rows.len(),
            r.len() == i,
            sort_state.key != SortKey::Owner ==> forall|k: int| 0 <= k < r.len() ==> r@[k]@ == Seq::<
                char,
            >::empty(),
            sort_state.key == SortKey::Owner ==> forall|k: int|
                0 <= k < r.len() ==> owner_lookup.gives_name(rows@[k].owner_uid, #[trigger] r@[k]@),
        decreases rows.len() - i,
    {
        if sort_state.key == SortKey::Owner {
            r.push(owner_lookup.owner_name(rows[i].owner_uid));
        } else {
            r.push(String::new());
        }
        i = i + 1;
    }
    r
}

/// Sorts the process list in place in table order. Owner names come from
/// `owner_lookup`, one lookup per row, and only when the table is sorted by
/// owner.
pub fn sort_processes<L: OwnerNameResolver>(
    sort_state: SortState,
    owner_lookup: &L,
    processes: &mut Vec<ProcessRow>,
)
    ensures
        exists|names: Seq<Seq<char>>|
            names.len() == old(processes)@.len() && is_sorted_table(
                sort_state,
                old(processes)@,
                names,
                final(processes)@,
            ),
        exists|names: Seq<Seq<char>>|
            names.len() == old(processes)@.len() && is_sorted_table(
                sort_state,
                old(processes)@,
                names,
                final(processes)@,
            ) && (sort_state.key == SortKey::Owner ==> forall|i: int|
                0 <= i < names.len() ==> owner_lookup.gives_name(
                    old(processes)@[i].owner_uid,
                    #[trigger] names[i],
                )),
{
    let names = owner_names_for(sort_state, owner_lookup, processes.as_slice());
    sort_processes_with_owner_names(sort_state, names.as_slice(), processes);
    assert(name_views(names@).len() == old(processes)@.len());
    assert(forall|i: int| 0 <= i < names.len() ==> #[trigger] name_views(names@)[i] == names@[i]@);
}

/// Sorts `indexes`, each the index of a row of `processes`, stably in the
/// table order of their rows, the owner of the `i`th row being named
/// `owner_names[i]`.
pub fn sort_indexes_with_owner_names(
    sort_state: SortState,
    owner_names: &[String],
    processes: &[ProcessRow],
    indexes: &mut Vec<usize>,
)
    requires
        owner_names.len() == processes.len(),
        forall|p: int| 0 <= p < old(indexes).len() ==> old(indexes)[p] < processes.len(),
    ensures
        is_sorted_indexes(
            sort_state,
            processes@,
            name_views(owner_names@),
            old(indexes)@,
            final(indexes)@,
        ),
{
    let keys = sort_texts_for(sort_state, processes, owner_names);
    let perm = order_positions(sort_state, processes, keys.as_slice(), indexes.as_slice());
    let mut sorted: Vec<usize> = Vec::new();
    let mut k: usize = 0;
    while k < perm.len()
        invariant
            k <= perm.len(),
            perm.len() == indexes.len(),
            forall|m: int| 0 <= m < perm.len() ==> perm[m] < indexes.len(),
            sorted@ == perm@.take(k as int).map_values(|p: usize| indexes@[p as int]),
        decreases perm.len() - k,
    {
        sorted.push(indexes[perm[k]]);
        assert(perm@.take(k + 1) =~= perm@.take(k as int).push(perm@[k as int]));
        assert(sorted@ =~= perm@.take(k + 1).map_values(|p: usize| indexes@[p as int]));
        k = k + 1;
    }
    assert(perm@.take(perm.len() as int) =~= perm@);
    *indexes = sorted;
}

/// Sorts `indexes`, each the index of a row of `processes`, stably in the
/// table order of their rows. Owner names come from `owner_lookup`.
pub fn sort_process_indexes<L: OwnerNameResolver>(
    sort_state: SortState,
    owner_lookup: &L,
    processes: &[ProcessRow],
    indexes: &mut Vec<usize>,
)
    requires
        forall|p: int| 0 <= p < old(indexes).len() ==> old(indexes)[p] < processes.len(),
    ensures
        exists|names: Seq<Seq<char>>|
            names.len() == processes@.len() && is_sorted_indexes(
                sort_state,
                processes@,
                names,
                old(indexes)@,
                final(indexes)@,
            ),
        exists|names: Seq<Seq<char>>|
            names.len() == processes@.len() && is_sorted_indexes(
                sort_state,
                processes@,
                names,
                old(indexes)@,
                final(indexes)@,
            ) && (sort_state.key == SortKey::Owner ==> forall|i: int|
                0 <= i < names.len() ==> owner_lookup.gives_name(
                    processes@[i].owner_uid,
                    #[trigger] names[i],
                )),
{
    let names = owner_names_for(sort_state, owner_lookup, processes);
    sort_indexes_with_owner_names(sort_state, names.as_slice(), processes, indexes);
    assert(name_views(names@).len() == processes@.len());
    assert(forall|i: int| 0 <= i < names.len() ==> #[trigger] name_views(names@)[i] == names@[i]@);
}

} // verus!
