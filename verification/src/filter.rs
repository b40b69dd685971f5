//! Process filters: the predicates a filter is made of and how rows match
//! them. A row matches a filter when it matches every predicate of it.
use crate::collector::VisibleDetailRequest;
use crate::snapshot::{visible_swap_spec, ProcessRow};
use crate::text::{
    ascii_lower, ascii_lower_seq, chars_eq, is_whitespace, is_whitespace_spec, slice_range, chars_of, lowercase, parse_i32, parse_i32_spec, push_str, string_from_chars, to_lowercase,
    trim_chars, trim_spec,
};
use vstd::prelude::*;

verus! {

/// The text fields a text predicate searches.
#[derive(Debug, Clone, Copy, PartialEq, Eq, Structural)]
pub enum TextFilterField {
    Name,
    Command,
}

/// The numeric fields a metric predicate compares.
#[derive(Debug, Clone, Copy, PartialEq, Eq, Structural)]
pub enum MetricFilterField {
    Rss,
    Swap,
    Cpu,
    Uss,
    Pss,
}

/// How a metric is compared with its threshold.
#[derive(Debug, Clone, Copy, PartialEq, Eq, Structural)]
pub enum MetricFilterOperator {
    Equal,
    GreaterThan,
    GreaterThanOrEqual,
    LessThan,
    LessThanOrEqual,
}

/// A metric value: a byte count, or a CPU percentage held as its order key
/// (a higher key is a higher percentage, equal keys equal percentages).
#[derive(Debug, Clone, Copy, PartialEq, Eq, Structural)]
pub enum MetricFilterValue {
    Bytes(u64),
    Percent(u32),
}

/// The operators in the order the filter modal cycles through them.
pub open spec fn operator_cycle() -> Seq<MetricFilterOperator> {
    seq![
        MetricFilterOperator::GreaterThanOrEqual,
        MetricFilterOperator::GreaterThan,
        MetricFilterOperator::Equal,
        MetricFilterOperator::LessThan,
        MetricFilterOperator::LessThanOrEqual,
    ]
}

/// The place of an operator in the cycle.
pub open spec fn operator_position(op: MetricFilterOperator) -> int {
    match op {
        MetricFilterOperator::GreaterThanOrEqual => 0,
        MetricFilterOperator::GreaterThan => 1,
        MetricFilterOperator::Equal => 2,
        MetricFilterOperator::LessThan => 3,
        MetricFilterOperator::LessThanOrEqual => 4,
    }
}

/// The operator `delta` steps along the cycle from `op`, wrapping around.
pub open spec fn cycled(op: MetricFilterOperator, delta: int) -> MetricFilterOperator {
    operator_cycle()[(operator_position(op) + delta) % 5]
}

/// The identifier of an operator, used in the configuration file.
pub open spec fn operator_id_spec(op: MetricFilterOperator) -> Seq<char> {
    match op {
        MetricFilterOperator::Equal => "equal"@,
        MetricFilterOperator::GreaterThan => "greater_than"@,
        MetricFilterOperator::GreaterThanOrEqual => "greater_than_or_equal"@,
        MetricFilterOperator::LessThan => "less_than"@,
        MetricFilterOperator::LessThanOrEqual => "less_than_or_equal"@,
    }
}

/// The symbol shown for an operator.
pub open spec fn operator_label(v: MetricFilterOperator) -> Seq<char> {
    match v {
        MetricFilterOperator::Equal => "="@,
        MetricFilterOperator::GreaterThan => ">"@,
        MetricFilterOperator::GreaterThanOrEqual => ">="@,
        MetricFilterOperator::LessThan => "<"@,
        MetricFilterOperator::LessThanOrEqual => "<="@,
    }
}

impl MetricFilterOperator {
    /// The operator `delta` steps along the cycle `>=`, `>`, `=`, `<`, `<=`,
    /// wrapping around at both ends.
    pub fn cycle(self, delta: isize) -> (r: Self)
        ensures
            r == cycled(self, delta as int),
    {
        let current: usize = match self {
            MetricFilterOperator::GreaterThanOrEqual => 0,
            MetricFilterOperator::GreaterThan => 1,
            MetricFilterOperator::Equal => 2,
            MetricFilterOperator::LessThan => 3,
            MetricFilterOperator::LessThanOrEqual => 4,
        };
        let next: usize = if delta >= 0 {
            let k = (delta as usize) % 5;
            (current + k) % 5
        } else {
            let k = crate::num::unsigned_abs(delta) % 5;
            (current + 5 - k) % 5
        };
        proof {
            let d = delta as int;
            let c = current as int;
            if d >= 0 {
                assert((c + d % 5) % 5 == (c + d) % 5) by (nonlinear_arith)
                    requires
                        d >= 0,
                        0 <= c < 5,
                ;
            } else {
                assert((c + 5 - (-d) % 5) % 5 == (c + d) % 5) by (nonlinear_arith)
                    requires
                        d < 0,
                        0 <= c < 5,
                ;
            }
        }
        match next {
            0 => MetricFilterOperator::GreaterThanOrEqual,
            1 => MetricFilterOperator::GreaterThan,
            2 => MetricFilterOperator::Equal,
            3 => MetricFilterOperator::LessThan,
            _ => MetricFilterOperator::LessThanOrEqual,
        }
    }

    /// The symbol shown for this operator.
    pub fn label(self) -> (r: &'static str)
        ensures
            r@ == operator_label(self),
    {
        match self {
            MetricFilterOperator::Equal => "=",
            MetricFilterOperator::GreaterThan => ">",
            MetricFilterOperator::GreaterThanOrEqual => ">=",
            MetricFilterOperator::LessThan => "<",
            MetricFilterOperator::LessThanOrEqual => "<=",
        }
    }

    /// The identifier of this operator, used in the configuration file.
    pub fn id(self) -> (r: &'static str)
        ensures
            r@ == operator_id_spec(self),
    {
        match self {
            MetricFilterOperator::Equal => "equal",
            MetricFilterOperator::GreaterThan => "greater_than",
            MetricFilterOperator::GreaterThanOrEqual => "greater_than_or_equal",
            MetricFilterOperator::LessThan => "less_than",
            MetricFilterOperator::LessThanOrEqual => "less_than_or_equal",
        }
    }
}

/// Cycling back: moving `delta` steps along the operator cycle and then
/// `-delta` steps returns to the operator started from.
pub proof fn lemma_cycle_inverse(op: MetricFilterOperator, delta: int)
    ensures
        cycled(cycled(op, delta), -delta) == op,
{
    let p = operator_position(op);
    let q = (p + delta) % 5;
    assert(operator_position(operator_cycle()[q]) == q);
    assert((q - delta) % 5 == p) by (nonlinear_arith)
        requires
            q == (p + delta) % 5,
            0 <= p < 5,
    ;
}

/// The cycle has five steps: moving five more steps changes nothing,
/// moving none stays, and from `>=` one step forward is `>` and one back
/// is `<=`.
pub proof fn lemma_cycle_period(op: MetricFilterOperator, delta: int)
    ensures
        cycled(op, delta + 5) == cycled(op, delta),
        cycled(op, 0) == op,
        cycled(MetricFilterOperator::GreaterThanOrEqual, 1) == MetricFilterOperator::GreaterThan,
        cycled(MetricFilterOperator::GreaterThanOrEqual, -1) == MetricFilterOperator::LessThanOrEqual,
{
    let p = operator_position(op);
    assert((p + delta + 5) % 5 == (p + delta) % 5) by (nonlinear_arith);
    assert((0int + -1) % 5 == 4);
}

/// One predicate of a process filter.
#[derive(Debug)]
pub enum FilterPredicate {
    /// The process id equals the value.
    Pid(i32),
    /// The parent process id equals the value.
    Ppid(i32),
    /// One of the fields, lower-cased, contains the query.
    Text { fields: Vec<TextFilterField>, query: String },
    /// The metric compares with the threshold as the operator says.
    Metric { field: MetricFilterField, operator: MetricFilterOperator, value: MetricFilterValue },
}

/// What a predicate holds, with its text parts as sequences.
pub enum PredicateModel {
    Pid(i32),
    Ppid(i32),
    Text { fields: Seq<TextFilterField>, query: Seq<char> },
    Metric { field: MetricFilterField, operator: MetricFilterOperator, value: MetricFilterValue },
}

impl View for FilterPredicate {
    type V = PredicateModel;

    open spec fn view(&self) -> PredicateModel {
        match self {
            FilterPredicate::Pid(p) => PredicateModel::Pid(*p),
            FilterPredicate::Ppid(p) => PredicateModel::Ppid(*p),
            FilterPredicate::Text { fields, query } => PredicateModel::Text {
                fields: fields@,
                query: query@,
            },
            FilterPredicate::Metric { field, operator, value } => PredicateModel::Metric {
                field: *field,
                operator: *operator,
                value: *value,
            },
        }
    }
}

/// The models of a list of predicates.
pub open spec fn predicates_view(preds: Seq<FilterPredicate>) -> Seq<PredicateModel> {
    preds.map_values(|p: FilterPredicate| p@)
}

/// The text of a row that a text field names.
pub open spec fn text_field_value(field: TextFilterField, row: ProcessRow) -> Seq<char> {
    match field {
        TextFilterField::Name => row.name@,
        TextFilterField::Command => row.command@,
    }
}

/// Whether `needle` occurs in `hay` as a contiguous run.
pub open spec fn contains_seq(hay: Seq<char>, needle: Seq<char>) -> bool {
    exists|i: int|
        0 <= i && i + needle.len() <= hay.len() && #[trigger] hay.subrange(i, i + needle.len())
            == needle
}

/// The value of a metric for a row; detailed values that are not loaded
/// have none.
pub open spec fn metric_value_spec(field: MetricFilterField, row: ProcessRow) -> Option<
    MetricFilterValue,
> {
    match field {
        MetricFilterField::Rss => Some(MetricFilterValue::Bytes(row.rss_bytes)),
        MetricFilterField::Swap => Some(MetricFilterValue::Bytes(visible_swap_spec(row))),
        MetricFilterField::Cpu => Some(MetricFilterValue::Percent(row.cpu_percent)),
        MetricFilterField::Uss => match row.uss_bytes {
            Some(v) => Some(MetricFilterValue::Bytes(v)),
            None => None,
        },
        MetricFilterField::Pss => match row.pss_bytes {
            Some(v) => Some(MetricFilterValue::Bytes(v)),
            None => None,
        },
    }
}

/// Whether `value` relates to `threshold` as `operator` says.
pub open spec fn ordered_matches(value: int, operator: MetricFilterOperator, threshold: int) -> bool {
    match operator {
        MetricFilterOperator::Equal => value == threshold,
        MetricFilterOperator::GreaterThan => value > threshold,
        MetricFilterOperator::GreaterThanOrEqual => value >= threshold,
        MetricFilterOperator::LessThan => value < threshold,
        MetricFilterOperator::LessThanOrEqual => value <= threshold,
    }
}

/// Whether a metric value passes the threshold: a missing value never does,
/// nor does a value of the other kind.
pub open spec fn metric_matches_spec(
    value: Option<MetricFilterValue>,
    operator: MetricFilterOperator,
    threshold: MetricFilterValue,
) -> bool {
    match (value, threshold) {
        (Some(MetricFilterValue::Bytes(v)), MetricFilterValue::Bytes(t)) => ordered_matches(
            v as int,
            operator,
            t as int,
        ),
        (Some(MetricFilterValue::Percent(v)), MetricFilterValue::Percent(t)) => ordered_matches(
            v as int,
            operator,
            t as int,
        ),
        _ => false,
    }
}

/// Whether one of `fields` of the row, lower-cased, contains `query`.
pub open spec fn text_matches(fields: Seq<TextFilterField>, query: Seq<char>, row: ProcessRow) -> bool {
    exists|i: int|
        0 <= i < fields.len() && contains_seq(
            lowercase(text_field_value(#[trigger] fields[i], row)),
            query,
        )
}

/// Whether a row matches one predicate.
pub open spec fn predicate_matches(p: PredicateModel, row: ProcessRow) -> bool {
    match p {
        PredicateModel::Pid(pid) => row.pid == pid,
        PredicateModel::Ppid(ppid) => row.ppid == ppid,
        PredicateModel::Text { fields, query } => text_matches(fields, query, row),
        PredicateModel::Metric { field, operator, value } => metric_matches_spec(
            metric_value_spec(field, row),
            operator,
            value,
        ),
    }
}

/// Whether a row matches every predicate.
pub open spec fn filter_matches(preds: Seq<PredicateModel>, row: ProcessRow) -> bool {
    forall|i: int| 0 <= i < preds.len() ==> predicate_matches(#[trigger] preds[i], row)
}

/// Whether `needle` occurs in `hay`.
pub fn contains_chars(hay: &[char], needle: &[char]) -> (r: bool)
    ensures
        r == contains_seq(hay@, needle@),
{
    if needle.len() > hay.len() {
        return false;
    }
    let last = hay.len() - needle.len();
    let mut i: usize = 0;
    while i <= last
        invariant
            last == hay.len() - needle.len(),
            needle.len() <= hay.len(),
            forall|k: int|
                0 <= k < i ==> #[trigger] hay@.subrange(k, k + needle.len()) != needle@,
        decreases last + 1 - i,
    {
        let mut j: usize = 0;
        let mut same = true;
        while j < needle.len()
            invariant
                i <= last,
                last == hay.len() - needle.len(),
                needle.len() <= hay.len(),
                j <= needle.len(),
                same == forall|m: int| 0 <= m < j ==> hay@[i + m] == needle@[m],
            decreases needle.len() - j,
        {
            if hay[i + j] != needle[j] {
                same = false;
            }
            j = j + 1;
        }
        if same {
            assert(hay@.subrange(i as int, i + needle.len()) =~= needle@);
            return true;
        }
        proof {
            assert(!same);
            let m = choose|m: int| 0 <= m < j && hay@[i + m] != needle@[m];
            assert(hay@.subrange(i as int, i + needle.len())[m] != needle@[m]);
        }
        i = i + 1;
    }
    proof {
        assert forall|k: int|
            0 <= k && k + needle.len() <= hay.len() implies #[trigger] hay@.subrange(
            k,
            k + needle.len(),
        ) != needle@ by {
            assert(k < i);
        }
    }
    false
}

fn ordered_metric_matches(value: u64, operator: MetricFilterOperator, threshold: u64) -> (r: bool)
    ensures
        r == ordered_matches(value as int, operator, threshold as int),
        operator == MetricFilterOperator::Equal ==> (r <==> value == threshold),
        operator == MetricFilterOperator::GreaterThan ==> (r <==> value > threshold),
        operator == MetricFilterOperator::GreaterThanOrEqual ==> (r <==> value >= threshold),
        operator == MetricFilterOperator::LessThan ==> (r <==> value < threshold),
        operator == MetricFilterOperator::LessThanOrEqual ==> (r <==> value <= threshold),
{
    match operator {
        MetricFilterOperator::Equal => value == threshold,
        MetricFilterOperator::GreaterThan => value > threshold,
        MetricFilterOperator::GreaterThanOrEqual => value >= threshold,
        MetricFilterOperator::LessThan => value < threshold,
        MetricFilterOperator::LessThanOrEqual => value <= threshold,
    }
}

/// The value of a metric for a row.
pub fn metric_filter_value(field: MetricFilterField, row: &ProcessRow) -> (r: Option<
    MetricFilterValue,
>)
    ensures
        r == metric_value_spec(field, *row),
{
    match field {
        MetricFilterField::Rss => Some(MetricFilterValue::Bytes(row.rss_bytes)),
        MetricFilterField::Swap => Some(MetricFilterValue::Bytes(row.visible_swap_bytes())),
        MetricFilterField::Cpu => Some(MetricFilterValue::Percent(row.cpu_percent)),
        MetricFilterField::Uss => match row.uss_bytes {
            Some(v) => Some(MetricFilterValue::Bytes(v)),
            None => None,
        },
        MetricFilterField::Pss => match row.pss_bytes {
            Some(v) => Some(MetricFilterValue::Bytes(v)),
            None => None,
        },
    }
}

/// Whether a metric value passes the threshold.
pub fn metric_matches(
    value: Option<MetricFilterValue>,
    operator: MetricFilterOperator,
    threshold: MetricFilterValue,
) -> (r: bool)
    ensures
        r == metric_matches_spec(value, operator, threshold),
        value is None ==> !r,
        ({
            let (v, t, same_kind): (int, int, bool) = match (value, threshold) {
                (Some(MetricFilterValue::Bytes(v)), MetricFilterValue::Bytes(t)) => (
                    v as int,
                    t as int,
                    true,
                ),
                (Some(MetricFilterValue::Percent(v)), MetricFilterValue::Percent(t)) => (
                    v as int,
                    t as int,
                    true,
                ),
                _ => (0int, 0int, false),
            };
            &&& !same_kind ==> !r
            &&& same_kind && operator == MetricFilterOperator::Equal ==> (r <==> v == t)
            &&& same_kind && operator == MetricFilterOperator::GreaterThan ==> (r <==> v > t)
            &&& same_kind && operator == MetricFilterOperator::GreaterThanOrEqual ==> (r <==> v >= t)
            &&& same_kind && operator == MetricFilterOperator::LessThan ==> (r <==> v < t)
            &&& same_kind && operator == MetricFilterOperator::LessThanOrEqual ==> (r <==> v <= t)
        }),
{
    match (value, threshold) {
        (Some(MetricFilterValue::Bytes(v)), MetricFilterValue::Bytes(t)) => ordered_metric_matches(
            v,
            operator,
            t,
        ),
        (Some(MetricFilterValue::Percent(v)), MetricFilterValue::Percent(t)) => {
            ordered_metric_matches(v as u64, operator, t as u64)
        },
        _ => false,
    }
}

/// The lower-cased text of a field of a row.
fn lowered_field(field: TextFilterField, row: &ProcessRow) -> (r: Vec<char>)
    ensures
        r@ == lowercase(text_field_value(field, *row)),
{
    match field {
        TextFilterField::Name => chars_of(to_lowercase(row.name.as_str()).as_str()),
        TextFilterField::Command => chars_of(to_lowercase(row.command.as_str()).as_str()),
    }
}

impl FilterPredicate {
    /// Whether a row matches this predicate.
    pub fn matches(&self, row: &ProcessRow) -> (r: bool)
        ensures
            r == predicate_matches(self@, *row),
    {
        match self {
            FilterPredicate::Pid(pid) => row.pid == *pid,
            FilterPredicate::Ppid(ppid) => row.ppid == *ppid,
            FilterPredicate::Text { fields, query } => {
                let q = chars_of(query.as_str());
                let mut i: usize = 0;
                while i < fields.len()
                    invariant
                        i <= fields.len(),
                        q@ == query@,
                        self@ == (PredicateModel::Text { fields: fields@, query: query@ }),
                        forall|k: int|
                            0 <= k < i ==> !contains_seq(
                                lowercase(text_field_value(#[trigger] fields@[k], *row)),
                                query@,
                            ),
                    decreases fields.len() - i,
                {
                    let value = lowered_field(fields[i], row);
                    if contains_chars(value.as_slice(), q.as_slice()) {
                        assert(contains_seq(
                            lowercase(text_field_value(fields@[i as int], *row)),
                            query@,
                        ));
                        return true;
                    }
                    i = i + 1;
                }
                false
            },
            FilterPredicate::Metric { field, operator, value } => metric_matches(
                metric_filter_value(*field, row),
                *operator,
                *value,
            ),
        }
    }
}

/// A process filter: the rows it keeps match all of its predicates.
#[derive(Debug)]
pub struct ProcessFilter {
    predicates: Vec<FilterPredicate>,
}

impl View for ProcessFilter {
    type V = Seq<PredicateModel>;

    closed spec fn view(&self) -> Seq<PredicateModel> {
        predicates_view(self.predicates@)
    }
}

/// The indexes of the first `n` rows that match the predicates, in order.
pub open spec fn matching_spec(preds: Seq<PredicateModel>, rows: Seq<ProcessRow>, n: int) -> Seq<
    usize,
>
    decreases n,
{
    if n <= 0 {
        Seq::empty()
    } else if filter_matches(preds, rows[n - 1]) {
        matching_spec(preds, rows, n - 1).push((n - 1) as usize)
    } else {
        matching_spec(preds, rows, n - 1)
    }
}

/// Whether some predicate compares `field`.
pub open spec fn uses_metric(preds: Seq<PredicateModel>, field: MetricFilterField) -> bool {
    exists|i: int|
        0 <= i < preds.len() && (#[trigger] preds[i] matches PredicateModel::Metric { field: f, .. }
            && f == field)
}

impl Default for ProcessFilter {
    /// The filter without predicates, which keeps every row.
    fn default() -> (r: Self)
        ensures
            r@ == Seq::<PredicateModel>::empty(),
    {
        let r = ProcessFilter { predicates: Vec::new() };
        assert(r@ =~= Seq::<PredicateModel>::empty());
        r
    }
}

impl ProcessFilter {
    /// The filter made of `predicates`.
    pub fn from_predicates(predicates: Vec<FilterPredicate>) -> (r: Self)
        ensures
            r@ == predicates_view(predicates@),
    {
        ProcessFilter { predicates }
    }

    /// Whether the filter has any predicate.
    pub fn is_active(&self) -> (r: bool)
        ensures
            r == (self@.len() > 0),
    {
        self.predicates.len() > 0
    }

    /// Which detailed memory values the filter needs: those its metric
    /// predicates compare.
    pub fn detail_request(&self) -> (r: VisibleDetailRequest)
        ensures
            r.uss == uses_metric(self@, MetricFilterField::Uss),
            r.pss == uses_metric(self@, MetricFilterField::Pss),
    {
        let ghost preds = self@;
        let mut request = VisibleDetailRequest { uss: false, pss: false };
        let mut i: usize = 0;
        while i < self.predicates.len()
            invariant
                i <= self.predicates.len(),
                preds == predicates_view(self.predicates@),
                request.uss == exists|k: int|
                    0 <= k < i && (#[trigger] preds[k] matches PredicateModel::Metric { field: f, .. }
                        && f == MetricFilterField::Uss),
                request.pss == exists|k: int|
                    0 <= k < i && (#[trigger] preds[k] matches PredicateModel::Metric { field: f, .. }
                        && f == MetricFilterField::Pss),
            decreases self.predicates.len() - i,
        {
            match &self.predicates[i] {
                FilterPredicate::Metric { field, .. } => match field {
                    MetricFilterField::Uss => {
                        request.uss = true;
                    },
                    MetricFilterField::Pss => {
                        request.pss = true;
                    },
                    _ => {},
                },
                _ => {},
            }
            proof {
                assert(preds[i as int] == self.predicates@[i as int]@);
            }
            i = i + 1;
        }
        request
    }

    /// Whether a row matches every predicate.
    pub fn matches(&self, row: &ProcessRow) -> (r: bool)
        ensures
            r == filter_matches(self@, *row),
    {
        let ghost preds = self@;
        let mut i: usize = 0;
        while i < self.predicates.len()
            invariant
                i <= self.predicates.len(),
                preds == predicates_view(self.predicates@),
                forall|k: int| 0 <= k < i ==> predicate_matches(#[trigger] preds[k], *row),
            decreases self.predicates.len() - i,
        {
            if !self.predicates[i].matches(row) {
                assert(!predicate_matches(preds[i as int], *row));
                return false;
            }
            i = i + 1;
        }
        true
    }

    /// The indexes of the rows that match, in order.
    pub fn matching_indexes(&self, processes: &[ProcessRow]) -> (r: Vec<usize>)
        ensures
            r@ == matching_spec(self@, processes@, processes.len() as int),
            forall|i: int| 0 <= i < r@.len() ==> #[trigger] r@[i] < processes.len() && filter_matches(self@, processes@[r@[i] as int]),
            forall|k: int| 0 <= k < processes.len() && filter_matches(self@, #[trigger] processes@[k]) ==> r@.contains(k as usize),
            forall|i: int, j: int| 0 <= i < j < r@.len() ==> r@[i] < r@[j],
    {
        proof {
            lemma_matching_spec_meaning(self@, processes@, processes.len() as int);
        }
        let mut r: Vec<usize> = Vec::new();
        let mut i: usize = 0;
        while i < processes.len()
            invariant
                i <= processes.len(),
                r@ == matching_spec(self@, processes@, i as int),
            decreases processes.len() - i,
        {
            if self.matches(&processes[i]) {
                r.push(i);
            }
            i = i + 1;
        }
        r
    }
}

/// The matching indexes among the first `n` rows are exactly the rows that
/// match, in increasing order.
pub proof fn lemma_matching_spec_meaning(preds: Seq<PredicateModel>, rows: Seq<ProcessRow>, n: int)
    requires
        0 <= n <= rows.len(),
        n <= usize::MAX + 1,
    ensures
        forall|i: int| 0 <= i < matching_spec(preds, rows, n).len() ==> #[trigger] matching_spec(preds, rows, n)[i] < n && filter_matches(preds, rows[matching_spec(preds, rows, n)[i] as int]),
        forall|k: int| 0 <= k < n && filter_matches(preds, #[trigger] rows[k]) ==> matching_spec(preds, rows, n).contains(k as usize),
        forall|i: int, j: int| 0 <= i < j < matching_spec(preds, rows, n).len() ==> matching_spec(preds, rows, n)[i] < matching_spec(preds, rows, n)[j],
    decreases n,
{
    if n > 0 {
        lemma_matching_spec_meaning(preds, rows, n - 1);
        let prev = matching_spec(preds, rows, n - 1);
        let cur = matching_spec(preds, rows, n);
        if filter_matches(preds, rows[n - 1]) {
            assert(cur == prev.push((n - 1) as usize));
            assert(cur[prev.len() as int] == (n - 1) as usize);
            assert forall|k: int| 0 <= k < n && filter_matches(preds, #[trigger] rows[k]) implies cur.contains(k as usize) by {
                if k < n - 1 {
                    let w = choose|w: int| 0 <= w < prev.len() && prev[w] == k as usize;
                    assert(cur[w] == k as usize);
                }
            }
        } else {
            assert forall|k: int| 0 <= k < n && filter_matches(preds, #[trigger] rows[k]) implies cur.contains(k as usize) by {
                assert(k < n - 1);
            }
        }
    }
}

/// The filter without predicates keeps every row: its matching indexes are
/// all the indexes, in order.
pub proof fn lemma_empty_filter_keeps_all(rows: Seq<ProcessRow>, n: int)
    requires
        0 <= n <= rows.len(),
        n <= usize::MAX,
    ensures
        matching_spec(Seq::empty(), rows, n) == Seq::new(n as nat, |k: int| k as usize),
    decreases n,
{
    if n > 0 {
        lemma_empty_filter_keeps_all(rows, n - 1);
        assert(filter_matches(Seq::empty(), rows[n - 1]));
        assert(matching_spec(Seq::empty(), rows, n) =~= Seq::new(n as nat, |k: int| k as usize));
    } else {
        assert(matching_spec(Seq::empty(), rows, n) =~= Seq::new(n as nat, |k: int| k as usize));
    }
}

/// The rows of the filter modal, top to bottom.
#[derive(Debug, Clone, Copy, PartialEq, Eq, Structural)]
pub enum FilterRow {
    Pid,
    Ppid,
    Name,
    Command,
    Rss,
    Swap,
    Cpu,
    Uss,
    Pss,
}

/// The number of rows of the filter modal.
pub const FILTER_ROW_COUNT: usize = 9;

/// The rows of the filter modal in order.
pub open spec fn filter_rows() -> Seq<FilterRow> {
    seq![
        FilterRow::Pid,
        FilterRow::Ppid,
        FilterRow::Name,
        FilterRow::Command,
        FilterRow::Rss,
        FilterRow::Swap,
        FilterRow::Cpu,
        FilterRow::Uss,
        FilterRow::Pss,
    ]
}

/// The title shown for a filter modal row.
pub open spec fn filter_row_title(v: FilterRow) -> Seq<char> {
    match v {
        FilterRow::Pid => "PID"@,
        FilterRow::Ppid => "PPID"@,
        FilterRow::Name => "NAME"@,
        FilterRow::Command => "COMMAND"@,
        FilterRow::Rss => "RSS"@,
        FilterRow::Swap => "SWAP"@,
        FilterRow::Cpu => "CPU"@,
        FilterRow::Uss => "USS"@,
        FilterRow::Pss => "PSS"@,
    }
}

impl FilterRow {
    /// The row at `index`, if there is one.
    pub fn from_index(index: usize) -> (r: Option<FilterRow>)
        ensures
            r == (if index < 9 {
                Some(filter_rows()[index as int])
            } else {
                None
            }),
    {
        match index {
            0 => Some(FilterRow::Pid),
            1 => Some(FilterRow::Ppid),
            2 => Some(FilterRow::Name),
            3 => Some(FilterRow::Command),
            4 => Some(FilterRow::Rss),
            5 => Some(FilterRow::Swap),
            6 => Some(FilterRow::Cpu),
            7 => Some(FilterRow::Uss),
            8 => Some(FilterRow::Pss),
            _ => None,
        }
    }

    /// The title shown for the row.
    pub fn title(self) -> (r: &'static str)
        ensures
            r@ == filter_row_title(self),
    {
        match self {
            FilterRow::Pid => "PID",
            FilterRow::Ppid => "PPID",
            FilterRow::Name => "NAME",
            FilterRow::Command => "COMMAND",
            FilterRow::Rss => "RSS",
            FilterRow::Swap => "SWAP",
            FilterRow::Cpu => "CPU",
            FilterRow::Uss => "USS",
            FilterRow::Pss => "PSS",
        }
    }

    /// Whether the row holds a metric threshold, with an operator.
    pub fn is_metric(self) -> (r: bool)
        ensures
            r == (self is Rss || self is Swap || self is Cpu || self is Uss || self is Pss),
    {
        match self {
            FilterRow::Rss | FilterRow::Swap | FilterRow::Cpu | FilterRow::Uss | FilterRow::Pss => true,
            _ => false,
        }
    }
}

/// What the filter modal holds: whether it is open, the selected row,
/// whether that row is being edited, the last error, and the text and
/// operator of every row.
#[derive(Debug)]
pub struct FilterModalState {
    pub open: bool,
    pub selected: usize,
    pub editing: bool,
    pub error: Option<String>,
    pub pid: String,
    pub ppid: String,
    pub name: String,
    pub command: String,
    pub rss_op: MetricFilterOperator,
    pub rss_value: String,
    pub swap_op: MetricFilterOperator,
    pub swap_value: String,
    pub cpu_op: MetricFilterOperator,
    pub cpu_value: String,
    pub uss_op: MetricFilterOperator,
    pub uss_value: String,
    pub pss_op: MetricFilterOperator,
    pub pss_value: String,
}

impl Default for FilterModalState {
    /// A closed modal with empty rows and `>=` for every metric.
    fn default() -> (r: Self)
        ensures
            !r.open,
            r.selected == 0,
            !r.editing,
            r.error is None,
            r.pid@.len() == 0,
            r.ppid@.len() == 0,
            r.name@.len() == 0,
            r.command@.len() == 0,
            r.rss_op == MetricFilterOperator::GreaterThanOrEqual,
            r.rss_value@.len() == 0,
            r.swap_op == MetricFilterOperator::GreaterThanOrEqual,
            r.swap_value@.len() == 0,
            r.cpu_op == MetricFilterOperator::GreaterThanOrEqual,
            r.cpu_value@.len() == 0,
            r.uss_op == MetricFilterOperator::GreaterThanOrEqual,
            r.uss_value@.len() == 0,
            r.pss_op == MetricFilterOperator::GreaterThanOrEqual,
            r.pss_value@.len() == 0,
    {
        FilterModalState {
            open: false,
            selected: 0,
            editing: false,
            error: None,
            pid: String::new(),
            ppid: String::new(),
            name: String::new(),
            command: String::new(),
            rss_op: MetricFilterOperator::GreaterThanOrEqual,
            rss_value: String::new(),
            swap_op: MetricFilterOperator::GreaterThanOrEqual,
            swap_value: String::new(),
            cpu_op: MetricFilterOperator::GreaterThanOrEqual,
            cpu_value: String::new(),
            uss_op: MetricFilterOperator::GreaterThanOrEqual,
            uss_value: String::new(),
            pss_op: MetricFilterOperator::GreaterThanOrEqual,
            pss_value: String::new(),
        }
    }
}

/// The name of a metric, as error messages use it.
pub open spec fn metric_label_spec(field: MetricFilterField) -> Seq<char> {
    match field {
        MetricFilterField::Rss => "rss"@,
        MetricFilterField::Swap => "swap"@,
        MetricFilterField::Cpu => "cpu"@,
        MetricFilterField::Uss => "uss"@,
        MetricFilterField::Pss => "pss"@,
    }
}

/// The name of a metric, as error messages use it.
pub fn metric_field_label(field: MetricFilterField) -> (r: &'static str)
    ensures
        r@ == metric_label_spec(field),
{
    match field {
        MetricFilterField::Rss => "rss",
        MetricFilterField::Swap => "swap",
        MetricFilterField::Cpu => "cpu",
        MetricFilterField::Uss => "uss",
        MetricFilterField::Pss => "pss",
    }
}

/// The predicate an id row gives: the parsed id when the trimmed text is a
/// number.
pub open spec fn id_row_predicates(raw: Seq<char>, is_parent: bool) -> Seq<PredicateModel> {
    let t = trim_spec(raw);
    if t.len() == 0 {
        Seq::empty()
    } else {
        match parse_i32_spec(t) {
            Some(v) => seq![
                if is_parent {
                    PredicateModel::Ppid(v)
                } else {
                    PredicateModel::Pid(v)
                },
            ],
            None => Seq::empty(),
        }
    }
}

/// The error an id row gives: `message` when the trimmed text is not a
/// number.
pub open spec fn id_row_error(raw: Seq<char>, message: Seq<char>) -> Option<Seq<char>> {
    let t = trim_spec(raw);
    if t.len() > 0 && parse_i32_spec(t) is None {
        Some(message)
    } else {
        None
    }
}

/// The predicate a text row gives: a search of `field` for the trimmed,
/// lower-cased text.
pub open spec fn text_row_predicates(raw: Seq<char>, field: TextFilterField) -> Seq<PredicateModel> {
    let t = trim_spec(raw);
    if t.len() == 0 {
        Seq::empty()
    } else {
        seq![PredicateModel::Text { fields: seq![field], query: lowercase(t) }]
    }
}

/// The predicate a metric row gives, `parsed` being the value its trimmed
/// text was read as.
pub open spec fn metric_row_predicates(
    raw: Seq<char>,
    field: MetricFilterField,
    operator: MetricFilterOperator,
    parsed: Option<MetricFilterValue>,
) -> Seq<PredicateModel> {
    if trim_spec(raw).len() == 0 {
        Seq::empty()
    } else {
        match parsed {
            Some(v) => seq![PredicateModel::Metric { field, operator, value: v }],
            None => Seq::empty(),
        }
    }
}

/// The error a metric row gives when its text could not be read.
pub open spec fn metric_row_error(
    raw: Seq<char>,
    field: MetricFilterField,
    parsed: Option<MetricFilterValue>,
) -> Option<Seq<char>> {
    if trim_spec(raw).len() > 0 && parsed is None {
        Some("invalid "@ + metric_label_spec(field) + " value"@)
    } else {
        None
    }
}

/// The first error of a list, if any.
pub open spec fn first_error(errors: Seq<Option<Seq<char>>>) -> Option<Seq<char>>
    decreases errors.len(),
{
    if errors.len() == 0 {
        None
    } else if errors[0] is Some {
        errors[0]
    } else {
        first_error(errors.drop_first())
    }
}

/// What the modal's rows give, row by row: with every row empty, no
/// predicate and no error; a non-empty name or command row searches that
/// field for its trimmed, lower-cased text; a metric row whose text was
/// read as a value compares its metric with it by the row's operator; and a
/// non-empty metric row whose text could not be read shows an error.
pub open spec fn modal_rows_read(
    m: FilterModalState,
    parsed: Seq<Option<MetricFilterValue>>,
    preds: Seq<PredicateModel>,
    has_error: bool,
) -> bool {
    let texts = seq![
        m.pid@,
        m.ppid@,
        m.name@,
        m.command@,
        m.rss_value@,
        m.swap_value@,
        m.cpu_value@,
        m.uss_value@,
        m.pss_value@,
    ];
    let metric_texts = seq![m.rss_value@, m.swap_value@, m.cpu_value@, m.uss_value@, m.pss_value@];
    let fields = seq![
        MetricFilterField::Rss,
        MetricFilterField::Swap,
        MetricFilterField::Cpu,
        MetricFilterField::Uss,
        MetricFilterField::Pss,
    ];
    let ops = seq![m.rss_op, m.swap_op, m.cpu_op, m.uss_op, m.pss_op];
    &&& (forall|k: int| 0 <= k < 9 ==> trim_spec(#[trigger] texts[k]).len() == 0) ==> preds.len()
        == 0 && !has_error
    &&& trim_spec(m.name@).len() > 0 ==> preds.contains(
        PredicateModel::Text { fields: seq![TextFilterField::Name], query: lowercase(trim_spec(m.name@)) },
    )
    &&& trim_spec(m.command@).len() > 0 ==> preds.contains(
        PredicateModel::Text {
            fields: seq![TextFilterField::Command],
            query: lowercase(trim_spec(m.command@)),
        },
    )
    &&& forall|k: int|
        0 <= k < 5 && trim_spec(#[trigger] metric_texts[k]).len() > 0 ==> (match parsed[k] {
            Some(v) => preds.contains(
                PredicateModel::Metric { field: fields[k], operator: ops[k], value: v },
            ),
            None => has_error,
        })
}

/// A list of errors with an error in it has a first error.
proof fn lemma_first_error_some(errors: Seq<Option<Seq<char>>>, k: int)
    requires
        0 <= k < errors.len(),
        errors[k] is Some,
    ensures
        first_error(errors) is Some,
    decreases k,
{
    if errors[0] is None {
        lemma_first_error_some(errors.drop_first(), k - 1);
    }
}

/// What the rows give, as `modal_rows_read` states it.
proof fn lemma_modal_rows_read(m: FilterModalState, parsed: Seq<Option<MetricFilterValue>>)
    requires
        parsed.len() == 5,
    ensures
        modal_rows_read(m, parsed, modal_predicates(m, parsed), modal_error(m, parsed) is Some),
{
    let p1 = id_row_predicates(m.pid@, false);
    let p2 = id_row_predicates(m.ppid@, true);
    let p3 = text_row_predicates(m.name@, TextFilterField::Name);
    let p4 = text_row_predicates(m.command@, TextFilterField::Command);
    let p5 = metric_row_predicates(m.rss_value@, MetricFilterField::Rss, m.rss_op, parsed[0]);
    let p6 = metric_row_predicates(m.swap_value@, MetricFilterField::Swap, m.swap_op, parsed[1]);
    let p7 = metric_row_predicates(m.cpu_value@, MetricFilterField::Cpu, m.cpu_op, parsed[2]);
    let p8 = metric_row_predicates(m.uss_value@, MetricFilterField::Uss, m.uss_op, parsed[3]);
    let p9 = metric_row_predicates(m.pss_value@, MetricFilterField::Pss, m.pss_op, parsed[4]);
    let all = modal_predicates(m, parsed);
    assert(all == p1 + p2 + p3 + p4 + p5 + p6 + p7 + p8 + p9);
    let o3: int = (p1.len() + p2.len()) as int;
    let o4: int = o3 + p3.len();
    let o5: int = o4 + p4.len();
    let o6: int = o5 + p5.len();
    let o7: int = o6 + p6.len();
    let o8: int = o7 + p7.len();
    let o9: int = o8 + p8.len();
    if p3.len() > 0 {
        assert(all[o3] == p3[0]);
    }
    if p4.len() > 0 {
        assert(all[o4] == p4[0]);
    }
    if p5.len() > 0 {
        assert(all[o5] == p5[0]);
    }
    if p6.len() > 0 {
        assert(all[o6] == p6[0]);
    }
    if p7.len() > 0 {
        assert(all[o7] == p7[0]);
    }
    if p8.len() > 0 {
        assert(all[o8] == p8[0]);
    }
    if p9.len() > 0 {
        assert(all[o9] == p9[0]);
    }
    let errs = seq![
        id_row_error(m.pid@, "pid is not a number"@),
        id_row_error(m.ppid@, "ppid is not a number"@),
        metric_row_error(m.rss_value@, MetricFilterField::Rss, parsed[0]),
        metric_row_error(m.swap_value@, MetricFilterField::Swap, parsed[1]),
        metric_row_error(m.cpu_value@, MetricFilterField::Cpu, parsed[2]),
        metric_row_error(m.uss_value@, MetricFilterField::Uss, parsed[3]),
        metric_row_error(m.pss_value@, MetricFilterField::Pss, parsed[4]),
    ];
    assert(modal_error(m, parsed) == first_error(errs));
    let texts = seq![
        m.pid@,
        m.ppid@,
        m.name@,
        m.command@,
        m.rss_value@,
        m.swap_value@,
        m.cpu_value@,
        m.uss_value@,
        m.pss_value@,
    ];
    if forall|k: int| 0 <= k < 9 ==> trim_spec(#[trigger] texts[k]).len() == 0 {
        assert(trim_spec(texts[0]).len() == 0);
        assert(trim_spec(texts[1]).len() == 0);
        assert(trim_spec(texts[2]).len() == 0);
        assert(trim_spec(texts[3]).len() == 0);
        assert(trim_spec(texts[4]).len() == 0);
        assert(trim_spec(texts[5]).len() == 0);
        assert(trim_spec(texts[6]).len() == 0);
        assert(trim_spec(texts[7]).len() == 0);
        assert(trim_spec(texts[8]).len() == 0);
        reveal_with_fuel(first_error, 8);
        assert(errs.drop_first() =~= seq![errs[1], errs[2], errs[3], errs[4], errs[5], errs[6]]);
        assert(first_error(errs) is None);
    }
    let metric_texts = seq![m.rss_value@, m.swap_value@, m.cpu_value@, m.uss_value@, m.pss_value@];
    assert forall|k: int|
        0 <= k < 5 && trim_spec(#[trigger] metric_texts[k]).len() > 0 && parsed[k] is None implies first_error(
        errs,
    ) is Some by {
        lemma_first_error_some(errs, k + 2);
    }
}

/// The predicates the modal gives, row by row; `parsed` holds the values
/// the RSS, swap, CPU, USS and PSS texts were read as.
pub open spec fn modal_predicates(m: FilterModalState, parsed: Seq<Option<MetricFilterValue>>) -> Seq<
    PredicateModel,
> {
    id_row_predicates(m.pid@, false) + id_row_predicates(m.ppid@, true) + text_row_predicates(
        m.name@,
        TextFilterField::Name,
    ) + text_row_predicates(m.command@, TextFilterField::Command) + metric_row_predicates(
        m.rss_value@,
        MetricFilterField::Rss,
        m.rss_op,
        parsed[0],
    ) + metric_row_predicates(m.swap_value@, MetricFilterField::Swap, m.swap_op, parsed[1])
        + metric_row_predicates(m.cpu_value@, MetricFilterField::Cpu, m.cpu_op, parsed[2])
        + metric_row_predicates(m.uss_value@, MetricFilterField::Uss, m.uss_op, parsed[3])
        + metric_row_predicates(m.pss_value@, MetricFilterField::Pss, m.pss_op, parsed[4])
}

/// The first error of the modal's rows, top to bottom.
pub open spec fn modal_error(m: FilterModalState, parsed: Seq<Option<MetricFilterValue>>) -> Option<
    Seq<char>,
> {
    first_error(
        seq![
            id_row_error(m.pid@, "pid is not a number"@),
            id_row_error(m.ppid@, "ppid is not a number"@),
            metric_row_error(m.rss_value@, MetricFilterField::Rss, parsed[0]),
            metric_row_error(m.swap_value@, MetricFilterField::Swap, parsed[1]),
            metric_row_error(m.cpu_value@, MetricFilterField::Cpu, parsed[2]),
            metric_row_error(m.uss_value@, MetricFilterField::Uss, parsed[3]),
            metric_row_error(m.pss_value@, MetricFilterField::Pss, parsed[4]),
        ],
    )
}

/// The characters of an optional message.
pub open spec fn message_view(m: Option<String>) -> Option<Seq<char>> {
    match m {
        Some(s) => Some(s@),
        None => None,
    }
}

/// The text of a modal row with surrounding whitespace removed.
pub fn trimmed_text(raw: &str) -> (r: String)
    ensures
        r@ == trim_spec(raw@),
{
    let chars = chars_of(raw);
    let t = trim_chars(chars.as_slice());
    string_from_chars(t.as_slice())
}

fn push_id_row(
    predicates: &mut Vec<FilterPredicate>,
    error: &mut Option<String>,
    raw: &str,
    is_parent: bool,
    message: &str,
)
    ensures
        predicates_view(final(predicates)@) == predicates_view(old(predicates)@) + id_row_predicates(
            raw@,
            is_parent,
        ),
        message_view(*final(error)) == match message_view(*old(error)) {
            Some(e) => Some(e),
            None => id_row_error(raw@, message@),
        },
{
    let chars = chars_of(raw);
    let t = trim_chars(chars.as_slice());
    let ghost before = predicates_view(predicates@);
    if t.len() > 0 {
        match parse_i32(t.as_slice()) {
            Some(v) => {
                let p = if is_parent {
                    FilterPredicate::Ppid(v)
                } else {
                    FilterPredicate::Pid(v)
                };
                predicates.push(p);
                assert(predicates_view(predicates@) =~= before + id_row_predicates(raw@, is_parent));
            },
            None => {
                if error.is_none() {
                    let mut m = String::new();
                    push_str(&mut m, message);
                    *error = Some(m);
                }
                assert(predicates_view(predicates@) =~= before + id_row_predicates(raw@, is_parent));
            },
        }
    } else {
        assert(predicates_view(predicates@) =~= before + id_row_predicates(raw@, is_parent));
    }
}

fn push_text_row(predicates: &mut Vec<FilterPredicate>, raw: &str, field: TextFilterField)
    ensures
        predicates_view(final(predicates)@) == predicates_view(old(predicates)@)
            + text_row_predicates(raw@, field),
{
    let ghost before = predicates_view(predicates@);
    let t = trimmed_text(raw);
    if !t.as_str().is_empty() {
        let mut fields: Vec<TextFilterField> = Vec::new();
        fields.push(field);
        let query = to_lowercase(t.as_str());
        predicates.push(FilterPredicate::Text { fields, query });
        assert(fields@ =~= seq![field]);
    }
    assert(predicates_view(predicates@) =~= before + text_row_predicates(raw@, field));
}

fn push_metric_row(
    predicates: &mut Vec<FilterPredicate>,
    error: &mut Option<String>,
    raw: &str,
    field: MetricFilterField,
    operator: MetricFilterOperator,
    parsed: Option<MetricFilterValue>,
)
    ensures
        predicates_view(final(predicates)@) == predicates_view(old(predicates)@)
            + metric_row_predicates(raw@, field, operator, parsed),
        message_view(*final(error)) == match message_view(*old(error)) {
            Some(e) => Some(e),
            None => metric_row_error(raw@, field, parsed),
        },
{
    let ghost before = predicates_view(predicates@);
    let t = trimmed_text(raw);
    if !t.as_str().is_empty() {
        match parsed {
            Some(value) => {
                predicates.push(FilterPredicate::Metric { field, operator, value });
            },
            None => {
                if error.is_none() {
                    let mut m = String::new();
                    push_str(&mut m, "invalid ");
                    push_str(&mut m, metric_field_label(field));
                    push_str(&mut m, " value");
                    *error = Some(m);
                }
            },
        }
    }
    assert(predicates_view(predicates@) =~= before + metric_row_predicates(
        raw@,
        field,
        operator,
        parsed,
    ));
}

/// Builds the filter the modal describes, with the first error of its rows;
/// `parsed` holds the values the trimmed RSS, swap, CPU, USS and PSS texts
/// were read as (unread where a text is empty).
pub fn build_filter_from_modal(modal: &FilterModalState, parsed: [Option<MetricFilterValue>; 5]) -> (r: (
    ProcessFilter,
    Option<String>,
))
    ensures
        r.0@ == modal_predicates(*modal, parsed@),
        message_view(r.1) == modal_error(*modal, parsed@),
        modal_rows_read(*modal, parsed@, r.0@, r.1 is Some),
{
    proof {
        lemma_modal_rows_read(*modal, parsed@);
    }
    let mut predicates: Vec<FilterPredicate> = Vec::new();
    let mut error: Option<String> = None;
    push_id_row(&mut predicates, &mut error, modal.pid.as_str(), false, "pid is not a number");
    push_id_row(&mut predicates, &mut error, modal.ppid.as_str(), true, "ppid is not a number");
    push_text_row(&mut predicates, modal.name.as_str(), TextFilterField::Name);
    push_text_row(&mut predicates, modal.command.as_str(), TextFilterField::Command);
    push_metric_row(
        &mut predicates,
        &mut error,
        modal.rss_value.as_str(),
        MetricFilterField::Rss,
        modal.rss_op,
        parsed[0],
    );
    push_metric_row(
        &mut predicates,
        &mut error,
        modal.swap_value.as_str(),
        MetricFilterField::Swap,
        modal.swap_op,
        parsed[1],
    );
    push_metric_row(
        &mut predicates,
        &mut error,
        modal.cpu_value.as_str(),
        MetricFilterField::Cpu,
        modal.cpu_op,
        parsed[2],
    );
    push_metric_row(
        &mut predicates,
        &mut error,
        modal.uss_value.as_str(),
        MetricFilterField::Uss,
        modal.uss_op,
        parsed[3],
    );
    push_metric_row(
        &mut predicates,
        &mut error,
        modal.pss_value.as_str(),
        MetricFilterField::Pss,
        modal.pss_op,
        parsed[4],
    );
    proof {
        reveal_strlit("pid is not a number");
        reveal_strlit("ppid is not a number");
        let errs = seq![
            id_row_error(modal.pid@, "pid is not a number"@),
            id_row_error(modal.ppid@, "ppid is not a number"@),
            metric_row_error(modal.rss_value@, MetricFilterField::Rss, parsed@[0]),
            metric_row_error(modal.swap_value@, MetricFilterField::Swap, parsed@[1]),
            metric_row_error(modal.cpu_value@, MetricFilterField::Cpu, parsed@[2]),
            metric_row_error(modal.uss_value@, MetricFilterField::Uss, parsed@[3]),
            metric_row_error(modal.pss_value@, MetricFilterField::Pss, parsed@[4]),
        ];
        reveal_with_fuel(first_error, 8);
        assert(errs.drop_first() =~= seq![errs[1], errs[2], errs[3], errs[4], errs[5], errs[6]]);
    }
    (ProcessFilter::from_predicates(predicates), error)
}

/// Builds the filter the modal describes, with the first error of its
/// rows. `parse_value` reads the trimmed text of a metric row; it is asked
/// only for rows whose text is not empty.
pub fn try_build_filter_from_modal<F: Fn(MetricFilterField, &str) -> Option<MetricFilterValue>>(
    modal: &FilterModalState,
    parse_value: &F,
) -> (r: (ProcessFilter, Option<String>))
    requires
        forall|field: MetricFilterField, text: &str| #[trigger] parse_value.requires((field, text)),
    ensures
        exists|parsed: Seq<Option<MetricFilterValue>>|
            parsed.len() == 5 && r.0@ == modal_predicates(*modal, parsed) && message_view(r.1)
                == modal_error(*modal, parsed) && modal_values_read(parse_value, *modal, parsed),
{
    let rss = read_metric(parse_value, MetricFilterField::Rss, modal.rss_value.as_str());
    let swap = read_metric(parse_value, MetricFilterField::Swap, modal.swap_value.as_str());
    let cpu = read_metric(parse_value, MetricFilterField::Cpu, modal.cpu_value.as_str());
    let uss = read_metric(parse_value, MetricFilterField::Uss, modal.uss_value.as_str());
    let pss = read_metric(parse_value, MetricFilterField::Pss, modal.pss_value.as_str());
    let parsed = [rss, swap, cpu, uss, pss];
    let r = build_filter_from_modal(modal, parsed);
    assert(parsed@.len() == 5);
    assert(modal_values_read(parse_value, *modal, parsed@));
    r
}

/// Whether `v` is what `parse_value` reads from the trimmed `raw` for
/// `field`: none when the trimmed text is empty, else one of its results.
pub open spec fn metric_read<F: Fn(MetricFilterField, &str) -> Option<MetricFilterValue>>(
    parse_value: &F,
    field: MetricFilterField,
    raw: Seq<char>,
    v: Option<MetricFilterValue>,
) -> bool {
    if trim_spec(raw).len() == 0 {
        v is None
    } else {
        exists|t: &str| t@ == trim_spec(raw) && call_ensures(parse_value, (field, t), v)
    }
}

/// Whether `parsed` holds what `parse_value` reads from the RSS, swap,
/// CPU, USS and PSS rows of the modal, in that order.
pub open spec fn modal_values_read<F: Fn(MetricFilterField, &str) -> Option<MetricFilterValue>>(
    parse_value: &F,
    modal: FilterModalState,
    parsed: Seq<Option<MetricFilterValue>>,
) -> bool {
    &&& metric_read(parse_value, MetricFilterField::Rss, modal.rss_value@, parsed[0])
    &&& metric_read(parse_value, MetricFilterField::Swap, modal.swap_value@, parsed[1])
    &&& metric_read(parse_value, MetricFilterField::Cpu, modal.cpu_value@, parsed[2])
    &&& metric_read(parse_value, MetricFilterField::Uss, modal.uss_value@, parsed[3])
    &&& metric_read(parse_value, MetricFilterField::Pss, modal.pss_value@, parsed[4])
}

/// The value `parse_value` reads from the trimmed `raw`; none without
/// asking when the trimmed text is empty.
fn read_metric<F: Fn(MetricFilterField, &str) -> Option<MetricFilterValue>>(
    parse_value: &F,
    field: MetricFilterField,
    raw: &str,
) -> (r: Option<MetricFilterValue>)
    requires
        forall|field: MetricFilterField, text: &str| #[trigger] parse_value.requires((field, text)),
    ensures
        trim_spec(raw@).len() == 0 ==> r is None,
        trim_spec(raw@).len() > 0 ==> exists|t: &str|
            t@ == trim_spec(raw@) && call_ensures(parse_value, (field, t), r),
{
    let t = trimmed_text(raw);
    if t.as_str().is_empty() {
        None
    } else {
        let ts: &str = t.as_str();
        let r = parse_value(field, ts);
        assert(ts@ == trim_spec(raw@));
        r
    }
}

/// The first position at or after `i` where `pat` occurs in `s`.
pub open spec fn find_from(s: Seq<char>, pat: Seq<char>, i: int) -> Option<int>
    decreases s.len() + 1 - i,
{
    if i < 0 || i + pat.len() > s.len() {
        None
    } else if s.subrange(i, i + pat.len()) == pat {
        Some(i)
    } else {
        find_from(s, pat, i + 1)
    }
}

/// `s` split around the first occurrence of `pat`, as `str::split_once`
/// does.
pub open spec fn split_once_spec(s: Seq<char>, pat: Seq<char>) -> Option<(Seq<char>, Seq<char>)> {
    match find_from(s, pat, 0) {
        Some(k) => Some((s.take(k), s.skip(k + pat.len()))),
        None => None,
    }
}

/// Splits `token` around `pat` when both sides are non-empty.
pub open spec fn split_around(token: Seq<char>, pat: Seq<char>) -> Option<(Seq<char>, Seq<char>)> {
    match split_once_spec(token, pat) {
        Some((f, v)) => if f.len() > 0 && v.len() > 0 {
            Some((f, v))
        } else {
            None
        },
        None => None,
    }
}

/// A metric token split into field text, operator and value text: the
/// operators are tried in the order `>=`, `<=`, `>`, `<`, `=`.
pub open spec fn split_metric_spec(token: Seq<char>) -> Option<
    (Seq<char>, MetricFilterOperator, Seq<char>),
> {
    match split_around(token, ">="@) {
        Some((f, v)) => Some((f, MetricFilterOperator::GreaterThanOrEqual, v)),
        None => match split_around(token, "<="@) {
            Some((f, v)) => Some((f, MetricFilterOperator::LessThanOrEqual, v)),
            None => match split_around(token, ">"@) {
                Some((f, v)) => Some((f, MetricFilterOperator::GreaterThan, v)),
                None => match split_around(token, "<"@) {
                    Some((f, v)) => Some((f, MetricFilterOperator::LessThan, v)),
                    None => match split_around(token, "="@) {
                        Some((f, v)) => Some((f, MetricFilterOperator::Equal, v)),
                        None => None,
                    },
                },
            },
        },
    }
}

/// The first position where `pat` occurs in `s`.
pub fn find_chars(s: &[char], pat: &[char]) -> (r: Option<usize>)
    ensures
        match r {
            Some(k) => find_from(s@, pat@, 0) == Some(k as int) && k + pat.len() <= s.len(),
            None => find_from(s@, pat@, 0) is None,
        },
{
    if pat.len() > s.len() {
        return None;
    }
    if pat.len() == 0 {
        assert(s@.subrange(0, 0) =~= pat@);
        return Some(0);
    }
    let last = s.len() - pat.len();
    let mut i: usize = 0;
    while i <= last
        invariant
            pat.len() <= s.len(),
            last == s.len() - pat.len(),
            i <= last + 1,
            last < s.len(),
            find_from(s@, pat@, 0) == find_from(s@, pat@, i as int),
        decreases last + 1 - i,
    {
        let window = slice_range(s, i, i + pat.len());
        if chars_eq(window.as_slice(), pat) {
            return Some(i);
        }
        i = i + 1;
    }
    None
}

/// Splits `token` around `pat` when both sides are non-empty.
fn split_token_around(token: &[char], pat: &str) -> (r: Option<(Vec<char>, Vec<char>)>)
    ensures
        match r {
            Some((f, v)) => split_around(token@, pat@) == Some((f@, v@)),
            None => split_around(token@, pat@) is None,
        },
{
    let p = chars_of(pat);
    match find_chars(token, p.as_slice()) {
        Some(k) => {
            let f = slice_range(token, 0, k);
            let v = slice_range(token, k + p.len(), token.len());
            assert(f@ =~= token@.take(k as int));
            assert(v@ =~= token@.skip(k + p.len()));
            if f.len() > 0 && v.len() > 0 {
                Some((f, v))
            } else {
                None
            }
        },
        None => None,
    }
}

/// Where `find_from` finds `pat`, `pat` stands in `s`.
proof fn lemma_find_from_found(s: Seq<char>, pat: Seq<char>, i: int)
    ensures
        find_from(s, pat, i) matches Some(k) ==> i <= k && k + pat.len() <= s.len()
            && s.subrange(k, k + pat.len()) == pat,
    decreases s.len() + 1 - i,
{
    if i < 0 || i + pat.len() > s.len() {
    } else if s.subrange(i, i + pat.len()) == pat {
    } else {
        lemma_find_from_found(s, pat, i + 1);
    }
}

/// A token split around `pat` is the field text, `pat` and the value text,
/// both sides non-empty.
proof fn lemma_split_around_parts(token: Seq<char>, pat: Seq<char>)
    ensures
        split_around(token, pat) matches Some((f, v)) ==> f.len() > 0 && v.len() > 0 && token
            == f + pat + v,
{
    lemma_find_from_found(token, pat, 0);
    if let Some(k) = find_from(token, pat, 0) {
        assert(token =~= token.take(k) + token.subrange(k, k + pat.len()) + token.skip(
            k + pat.len(),
        ));
    }
}

/// A split metric token is its field text, its operator's symbol and its
/// value text, both texts non-empty.
proof fn lemma_split_metric_parts(token: Seq<char>)
    ensures
        split_metric_spec(token) is Some ==> ({
            let (f, op, v) = split_metric_spec(token)->0;
            f.len() > 0 && v.len() > 0 && token == f + match op {
                MetricFilterOperator::GreaterThanOrEqual => ">="@,
                MetricFilterOperator::LessThanOrEqual => "<="@,
                MetricFilterOperator::GreaterThan => ">"@,
                MetricFilterOperator::LessThan => "<"@,
                MetricFilterOperator::Equal => "="@,
            } + v
        }),
{
    lemma_split_around_parts(token, ">="@);
    lemma_split_around_parts(token, "<="@);
    lemma_split_around_parts(token, ">"@);
    lemma_split_around_parts(token, "<"@);
    lemma_split_around_parts(token, "="@);
}

/// Splits a metric token such as `rss>=100MB` into its field text, operator
/// and value text; none when no operator splits it into two non-empty
/// parts.
pub fn split_metric_filter_token(token: &str) -> (r: Option<(String, MetricFilterOperator, String)>)
    ensures
        match r {
            Some((f, op, v)) => split_metric_spec(token@) == Some((f@, op, v@)),
            None => split_metric_spec(token@) is None,
        },
        r matches Some((f, op, v)) ==> f@.len() > 0 && v@.len() > 0 && token@ == f@ + match op {
            MetricFilterOperator::GreaterThanOrEqual => ">="@,
            MetricFilterOperator::LessThanOrEqual => "<="@,
            MetricFilterOperator::GreaterThan => ">"@,
            MetricFilterOperator::LessThan => "<"@,
            MetricFilterOperator::Equal => "="@,
        } + v@,
{
    proof {
        lemma_split_metric_parts(token@);
    }
    let t = chars_of(token);
    let ops: [(&str, MetricFilterOperator); 5] = [
        (">=", MetricFilterOperator::GreaterThanOrEqual),
        ("<=", MetricFilterOperator::LessThanOrEqual),
        (">", MetricFilterOperator::GreaterThan),
        ("<", MetricFilterOperator::LessThan),
        ("=", MetricFilterOperator::Equal),
    ];
    let mut k: usize = 0;
    while k < 5
        invariant
            k <= 5,
            t@ == token@,
            ops@ == seq![
                (">=", MetricFilterOperator::GreaterThanOrEqual),
                ("<=", MetricFilterOperator::LessThanOrEqual),
                (">", MetricFilterOperator::GreaterThan),
                ("<", MetricFilterOperator::LessThan),
                ("=", MetricFilterOperator::Equal),
            ],
            forall|m: int| 0 <= m < k ==> split_around(token@, (#[trigger] ops@[m]).0@) is None,
        decreases 5 - k,
    {
        let (text, op) = ops[k];
        match split_token_around(t.as_slice(), text) {
            Some((f, v)) => {
                let fs = string_from_chars(f.as_slice());
                let vs = string_from_chars(v.as_slice());
                proof {
                    assert(ops@[0].0@ == ">="@);
                    assert(ops@[1].0@ == "<="@);
                    assert(ops@[2].0@ == ">"@);
                    assert(ops@[3].0@ == "<"@);
                    assert(split_metric_spec(token@) == Some((fs@, op, vs@)));
                    assert(fs@.len() > 0);
                    assert(vs@.len() > 0);
                    lemma_split_metric_parts(token@);
                    assert(split_metric_spec(token@)->0 == (fs@, op, vs@));
                    let sym = match op {
                        MetricFilterOperator::GreaterThanOrEqual => ">="@,
                        MetricFilterOperator::LessThanOrEqual => "<="@,
                        MetricFilterOperator::GreaterThan => ">"@,
                        MetricFilterOperator::LessThan => "<"@,
                        MetricFilterOperator::Equal => "="@,
                    };
                    assert(token@ == fs@ + sym + vs@);
                    assert(token@ == fs@ + match op {
                        MetricFilterOperator::GreaterThanOrEqual => ">="@,
                        MetricFilterOperator::LessThanOrEqual => "<="@,
                        MetricFilterOperator::GreaterThan => ">"@,
                        MetricFilterOperator::LessThan => "<"@,
                        MetricFilterOperator::Equal => "="@,
                    } + vs@);
                }
                return Some((fs, op, vs));
            },
            None => {},
        }
        k = k + 1;
    }
    proof {
        assert(split_around(token@, (ops@[0]).0@) is None);
        assert(split_around(token@, (ops@[1]).0@) is None);
        assert(split_around(token@, (ops@[2]).0@) is None);
        assert(split_around(token@, (ops@[3]).0@) is None);
        assert(split_around(token@, (ops@[4]).0@) is None);
    }
    None
}

/// The metric a field text names, compared without regard to ASCII case.
pub open spec fn metric_field_spec(field: Seq<char>) -> Option<MetricFilterField> {
    let l = ascii_lower_seq(field);
    if l == "rss"@ {
        Some(MetricFilterField::Rss)
    } else if l == "swap"@ {
        Some(MetricFilterField::Swap)
    } else if l == "cpu"@ {
        Some(MetricFilterField::Cpu)
    } else if l == "uss"@ {
        Some(MetricFilterField::Uss)
    } else if l == "pss"@ {
        Some(MetricFilterField::Pss)
    } else {
        None
    }
}

/// The metric a field text names, compared without regard to ASCII case.
pub fn parse_metric_field(field: &str) -> (r: Option<MetricFilterField>)
    ensures
        r == metric_field_spec(field@),
{
    let cs = chars_of(field);
    let mut lower: Vec<char> = Vec::new();
    let mut i: usize = 0;
    while i < cs.len()
        invariant
            i <= cs.len(),
            lower@ == ascii_lower_seq(cs@.take(i as int)),
        decreases cs.len() - i,
    {
        lower.push(ascii_lower(cs[i]));
        assert(ascii_lower_seq(cs@.take(i + 1)) =~= ascii_lower_seq(cs@.take(i as int)).push(
            crate::text::ascii_lower_spec(cs@[i as int]),
        ));
        i = i + 1;
    }
    assert(cs@.take(cs.len() as int) =~= cs@);
    let l = lower.as_slice();
    let rss = chars_of("rss");
    let swap = chars_of("swap");
    let cpu = chars_of("cpu");
    let uss = chars_of("uss");
    let pss = chars_of("pss");
    if chars_eq(l, rss.as_slice()) {
        Some(MetricFilterField::Rss)
    } else if chars_eq(l, swap.as_slice()) {
        Some(MetricFilterField::Swap)
    } else if chars_eq(l, cpu.as_slice()) {
        Some(MetricFilterField::Cpu)
    } else if chars_eq(l, uss.as_slice()) {
        Some(MetricFilterField::Uss)
    } else if chars_eq(l, pss.as_slice()) {
        Some(MetricFilterField::Pss)
    } else {
        None
    }
}

/// A token that searches names and command lines for its lower-case form.
pub fn text_predicate(query: &str) -> (r: FilterPredicate)
    ensures
        r@ == (PredicateModel::Text {
            fields: seq![TextFilterField::Name, TextFilterField::Command],
            query: lowercase(query@),
        }),
{
    let mut fields: Vec<TextFilterField> = Vec::new();
    fields.push(TextFilterField::Name);
    fields.push(TextFilterField::Command);
    assert(fields@ =~= seq![TextFilterField::Name, TextFilterField::Command]);
    FilterPredicate::Text { fields, query: to_lowercase(query) }
}

/// The metric part of a token: its field and operator and the value text,
/// when it splits around an operator and its field names a metric.
pub open spec fn metric_token_spec(token: Seq<char>) -> Option<
    (MetricFilterField, MetricFilterOperator, Seq<char>),
> {
    match split_metric_spec(token) {
        Some((f, op, v)) => match metric_field_spec(f) {
            Some(field) => Some((field, op, v)),
            None => None,
        },
        None => None,
    }
}

/// The metric part of a token: its field and operator and the value text.
pub fn metric_token_parts(token: &str) -> (r: Option<(MetricFilterField, MetricFilterOperator, String)>)
    ensures
        match r {
            Some((field, op, v)) => metric_token_spec(token@) == Some((field, op, v@)),
            None => metric_token_spec(token@) is None,
        },
{
    match split_metric_filter_token(token) {
        Some((f, op, v)) => match parse_metric_field(f.as_str()) {
            Some(field) => Some((field, op, v)),
            None => None,
        },
        None => None,
    }
}

/// The predicate of one query token: a metric comparison when the token
/// has a metric part and its value text was read as `value`, else a text
/// search for the token.
pub open spec fn token_predicate_spec(token: Seq<char>, value: Option<MetricFilterValue>) -> PredicateModel {
    match (metric_token_spec(token), value) {
        (Some((field, operator, _)), Some(v)) => PredicateModel::Metric { field, operator, value: v },
        _ => PredicateModel::Text {
            fields: seq![TextFilterField::Name, TextFilterField::Command],
            query: lowercase(token),
        },
    }
}

/// The predicate of one query token; `parse_value` reads the value text of
/// a metric token.
pub fn parse_filter_token<F: Fn(MetricFilterField, &str) -> Option<MetricFilterValue>>(
    token: &str,
    parse_value: &F,
) -> (r: FilterPredicate)
    requires
        forall|field: MetricFilterField, text: &str| #[trigger] parse_value.requires((field, text)),
    ensures
        is_token_predicate(r@, token@),
        match metric_token_spec(token@) {
            Some((field, operator, text)) => exists|t: &str, v: Option<MetricFilterValue>|
                t@ == text && call_ensures(parse_value, (field, t), v) && match v {
                    Some(value) => r@ == (PredicateModel::Metric { field, operator, value }),
                    None => r@ == (PredicateModel::Text {
                        fields: seq![TextFilterField::Name, TextFilterField::Command],
                        query: lowercase(token@),
                    }),
                },
            None => r@ == (PredicateModel::Text {
                fields: seq![TextFilterField::Name, TextFilterField::Command],
                query: lowercase(token@),
            }),
        },
{
    match metric_token_parts(token) {
        Some((field, operator, v)) => match parse_value(field, v.as_str()) {
            Some(value) => {
                let r = FilterPredicate::Metric { field, operator, value };
                assert(r@ == token_predicate_spec(token@, Some(value)));
                r
            },
            None => {
                let r = text_predicate(token);
                assert(r@ == token_predicate_spec(token@, None));
                r
            },
        },
        None => {
            let r = text_predicate(token);
            assert(r@ == token_predicate_spec(token@, None));
            r
        },
    }
}

/// The split of `s` into words in progress: the finished words and the word
/// being read.
pub open spec fn split_state(s: Seq<char>) -> (Seq<Seq<char>>, Seq<char>)
    decreases s.len(),
{
    if s.len() == 0 {
        (Seq::empty(), Seq::empty())
    } else {
        let (done, cur) = split_state(s.drop_last());
        let c = s.last();
        if is_whitespace_spec(c) {
            if cur.len() > 0 {
                (done.push(cur), Seq::empty())
            } else {
                (done, Seq::empty())
            }
        } else {
            (done, cur.push(c))
        }
    }
}

/// The maximal runs of non-whitespace characters of `s`, in order, as
/// `str::split_whitespace` yields them.
pub open spec fn words_spec(s: Seq<char>) -> Seq<Seq<char>> {
    let (done, cur) = split_state(s);
    if cur.len() > 0 {
        done.push(cur)
    } else {
        done
    }
}

/// The whitespace-separated words of `text`.
pub fn query_tokens(text: &str) -> (r: Vec<String>)
    ensures
        r@.map_values(|w: String| w@) == words_spec(text@),
{
    let cs = chars_of(text);
    let mut done: Vec<String> = Vec::new();
    let mut cur: Vec<char> = Vec::new();
    let mut i: usize = 0;
    while i < cs.len()
        invariant
            i <= cs.len(),
            cs@ == text@,
            (done@.map_values(|w: String| w@), cur@) == split_state(cs@.take(i as int)),
        decreases cs.len() - i,
    {
        let c = cs[i];
        proof {
            assert(cs@.take(i + 1).drop_last() =~= cs@.take(i as int));
        }
        if is_whitespace(c) {
            if cur.len() > 0 {
                let w = string_from_chars(cur.as_slice());
                done.push(w);
                cur = Vec::new();
            }
        } else {
            cur.push(c);
        }
        proof {
            assert(done@.map_values(|w: String| w@) =~= split_state(cs@.take(i + 1)).0);
            assert(cur@ =~= split_state(cs@.take(i + 1)).1);
        }
        i = i + 1;
    }
    assert(cs@.take(cs.len() as int) =~= cs@);
    if cur.len() > 0 {
        let w = string_from_chars(cur.as_slice());
        done.push(w);
    }
    assert(done@.map_values(|w: String| w@) =~= words_spec(text@));
    done
}

/// Whether `preds` holds one predicate per word, the predicate of that
/// word for some reading of its value text.
pub open spec fn is_query_filter(preds: Seq<PredicateModel>, words: Seq<Seq<char>>) -> bool {
    &&& preds.len() == words.len()
    &&& forall|i: int| 0 <= i < words.len() ==> is_token_predicate(#[trigger] preds[i], words[i])
}

/// Whether `p` is the predicate of `word` for some reading of its value
/// text.
pub open spec fn is_token_predicate(p: PredicateModel, word: Seq<char>) -> bool {
    exists|value: Option<MetricFilterValue>| p == token_predicate_spec(word, value)
}

impl ProcessFilter {
    /// The filter of a whitespace-separated query: a metric comparison per
    /// metric token such as `rss>=100MB`, a text search per other token,
    /// combined with and. `parse_value` reads the value text of a metric
    /// token. An empty query gives the filter without predicates.
    pub fn from_text_query<F: Fn(MetricFilterField, &str) -> Option<MetricFilterValue>>(
        query: &str,
        parse_value: &F,
    ) -> (r: Self)
        requires
            forall|field: MetricFilterField, text: &str| #[trigger] parse_value.requires((field, text)),
        ensures
            is_query_filter(r@, words_spec(trim_spec(query@))),
    {
        let trimmed = trimmed_text(query);
        let tokens = query_tokens(trimmed.as_str());
        let ghost words = words_spec(trim_spec(query@));
        let mut predicates: Vec<FilterPredicate> = Vec::new();
        let ghost mut values: Seq<Option<MetricFilterValue>> = Seq::empty();
        let mut i: usize = 0;
        while i < tokens.len()
            invariant
                i <= tokens.len(),
                tokens@.map_values(|w: String| w@) == words,
                forall|field: MetricFilterField, text: &str| #[trigger] parse_value.requires((field, text)),
                predicates@.len() == i,
                values.len() == i,
                forall|k: int|
                    0 <= k < i ==> (#[trigger] predicates@[k])@ == token_predicate_spec(
                        words[k],
                        values[k],
                    ),
            decreases tokens.len() - i,
        {
            let p = parse_filter_token(tokens[i].as_str(), parse_value);
            assert(tokens@[i as int]@ == words[i as int]);
            let ghost v = choose|value: Option<MetricFilterValue>|
                p@ == token_predicate_spec(tokens@[i as int]@, value);
            assert(p@ == token_predicate_spec(tokens@[i as int]@, v));
            predicates.push(p);
            proof {
                values = values.push(v);
            }
            i = i + 1;
        }
        let r = ProcessFilter::from_predicates(predicates);
        proof {
            assert(r@.len() == predicates@.len());
            assert(words.len() == tokens@.len());
            assert forall|k: int| 0 <= k < words.len() implies is_token_predicate(
                #[trigger] r@[k],
                words[k],
            ) by {
                assert(r@[k] == predicates@[k]@);
                assert(r@[k] == token_predicate_spec(words[k], values[k]));
            }
            assert(is_query_filter(r@, words));
        }
        r
    }
}

} // verus!
