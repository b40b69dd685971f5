//! The persisted view preferences: sort, view mode and filter texts, as the
//! identifiers stored in the configuration file. Unknown identifiers fall
//! back to defaults.
use crate::app_state::AppState;
use crate::collector::SystemCollector;
use crate::columns::{
    all_columns, column_ids, column_index, config_order, config_visible, owned_string,
    string_views, ColumnConfigV1, ColumnLayout, ProcessColumn,
};
use crate::filter::{
    message_view, modal_error, modal_predicates, try_build_filter_from_modal, MetricFilterField,
    MetricFilterValue,
};
use crate::filter::{operator_id_spec, FilterModalState, MetricFilterOperator};
use crate::snapshot::{
    default_direction_spec, sort_direction_id_spec, sort_key_id_spec, sort_key_seq,
    SortDirection, SortKey, SortState,
};
use crate::text::str_eq;
use crate::view::{view_mode_id_spec, ViewMode};
use vstd::prelude::*;

verus! {

/// The version of the configuration format.
pub fn config_version() -> (r: u8)
    ensures
        r == 1,
{
    1
}

/// The identifier of a sort key.
pub fn sort_key_id(key: SortKey) -> (r: &'static str)
    ensures
        r@ == sort_key_id_spec(key),
{
    key.id()
}

/// The identifier of a sort direction.
pub fn sort_direction_id(direction: SortDirection) -> (r: &'static str)
    ensures
        r@ == sort_direction_id_spec(direction),
{
    direction.id()
}

/// The identifier of a view mode.
pub fn view_mode_id(view_mode: ViewMode) -> (r: &'static str)
    ensures
        r@ == view_mode_id_spec(view_mode),
{
    view_mode.id()
}

/// The identifier of a metric operator.
pub fn metric_operator_id(operator: MetricFilterOperator) -> (r: &'static str)
    ensures
        r@ == operator_id_spec(operator),
{
    operator.id()
}

/// The sort key stored by default: RSS.
pub fn default_sort_key() -> (r: String)
    ensures
        r@ == sort_key_id_spec(SortKey::Rss),
{
    owned_string(sort_key_id(SortKey::Rss))
}

/// The sort direction stored by default: descending.
pub fn default_sort_direction() -> (r: String)
    ensures
        r@ == sort_direction_id_spec(SortDirection::Descending),
{
    owned_string(sort_direction_id(SortDirection::Descending))
}

/// The metric operator stored by default: `>=`.
pub fn default_filter_operator() -> (r: String)
    ensures
        r@ == operator_id_spec(MetricFilterOperator::GreaterThanOrEqual),
{
    owned_string(metric_operator_id(MetricFilterOperator::GreaterThanOrEqual))
}

/// The sort key an identifier names; RSS for an unknown identifier.
pub open spec fn parse_sort_key_spec(raw: Seq<char>) -> SortKey {
    if exists|k: int| 0 <= k < 8 && sort_key_id_spec(sort_key_seq()[k]) == raw {
        let k = choose|k: int| 0 <= k < 8 && sort_key_id_spec(sort_key_seq()[k]) == raw;
        sort_key_seq()[k]
    } else {
        SortKey::Rss
    }
}

proof fn lemma_sort_key_ids_distinct()
    ensures
        forall|a: int, b: int|
            0 <= a < 8 && 0 <= b < 8 && sort_key_id_spec(sort_key_seq()[a]) == sort_key_id_spec(
                sort_key_seq()[b],
            ) ==> a == b,
{
    reveal_strlit("pid");
    reveal_strlit("ppid");
    reveal_strlit("owner");
    reveal_strlit("name");
    reveal_strlit("command");
    reveal_strlit("rss");
    reveal_strlit("swap");
    reveal_strlit("cpu");
    assert forall|a: int, b: int|
        0 <= a < 8 && 0 <= b < 8 && sort_key_id_spec(sort_key_seq()[a]) == sort_key_id_spec(
            sort_key_seq()[b],
        ) implies a == b by {
        let x = sort_key_id_spec(sort_key_seq()[a]);
        let y = sort_key_id_spec(sort_key_seq()[b]);
        if a != b {
            assert(x.len() != y.len() || x[0] != y[0] || x[1] != y[1]);
        }
    }
}

/// The sort key an identifier names; RSS for an unknown identifier.
pub fn parse_sort_key(raw: &str) -> (r: SortKey)
    ensures
        r == parse_sort_key_spec(raw@),
{
    let keys = SortKey::all();
    let mut k: usize = 0;
    while k < keys.len()
        invariant
            k <= keys.len(),
            keys@ == sort_key_seq(),
            forall|m: int| 0 <= m < k ==> sort_key_id_spec(sort_key_seq()[m]) != raw@,
        decreases keys.len() - k,
    {
        if str_eq(sort_key_id(keys[k]), raw) {
            proof {
                lemma_sort_key_ids_distinct();
                let c = choose|c: int|
                    0 <= c < 8 && sort_key_id_spec(sort_key_seq()[c]) == raw@;
                assert(c == k);
            }
            return keys[k];
        }
        k = k + 1;
    }
    SortKey::Rss
}

/// The sort direction an identifier names, if any.
pub open spec fn parse_sort_direction_spec(raw: Seq<char>) -> Option<SortDirection> {
    if raw == sort_direction_id_spec(SortDirection::Ascending) {
        Some(SortDirection::Ascending)
    } else if raw == sort_direction_id_spec(SortDirection::Descending) {
        Some(SortDirection::Descending)
    } else {
        None
    }
}

/// The sort direction an identifier names, if any.
pub fn parse_sort_direction(raw: &str) -> (r: Option<SortDirection>)
    ensures
        r == parse_sort_direction_spec(raw@),
{
    if str_eq(sort_direction_id(SortDirection::Ascending), raw) {
        Some(SortDirection::Ascending)
    } else if str_eq(sort_direction_id(SortDirection::Descending), raw) {
        Some(SortDirection::Descending)
    } else {
        None
    }
}

/// The view mode an identifier names: the tree view for `tree`, the flat
/// view otherwise.
pub open spec fn parse_view_mode_spec(raw: Seq<char>) -> ViewMode {
    if raw == "tree"@ {
        ViewMode::Tree
    } else {
        ViewMode::Flat
    }
}

/// The view mode an identifier names: the tree view for `tree`, the flat
/// view otherwise.
pub fn parse_view_mode(raw: &str) -> (r: ViewMode)
    ensures
        r == parse_view_mode_spec(raw@),
{
    if str_eq(raw, "tree") {
        ViewMode::Tree
    } else {
        ViewMode::Flat
    }
}

/// The operator an identifier names; `>=` for an unknown identifier.
pub open spec fn parse_metric_operator_spec(raw: Seq<char>) -> MetricFilterOperator {
    if raw == operator_id_spec(MetricFilterOperator::Equal) {
        MetricFilterOperator::Equal
    } else if raw == operator_id_spec(MetricFilterOperator::GreaterThan) {
        MetricFilterOperator::GreaterThan
    } else if raw == operator_id_spec(MetricFilterOperator::GreaterThanOrEqual) {
        MetricFilterOperator::GreaterThanOrEqual
    } else if raw == operator_id_spec(MetricFilterOperator::LessThan) {
        MetricFilterOperator::LessThan
    } else if raw == operator_id_spec(MetricFilterOperator::LessThanOrEqual) {
        MetricFilterOperator::LessThanOrEqual
    } else {
        MetricFilterOperator::GreaterThanOrEqual
    }
}

/// The operator an identifier names; `>=` for an unknown identifier.
pub fn parse_metric_operator(raw: &str) -> (r: MetricFilterOperator)
    ensures
        r == parse_metric_operator_spec(raw@),
{
    if str_eq(raw, metric_operator_id(MetricFilterOperator::Equal)) {
        MetricFilterOperator::Equal
    } else if str_eq(raw, metric_operator_id(MetricFilterOperator::GreaterThan)) {
        MetricFilterOperator::GreaterThan
    } else if str_eq(raw, metric_operator_id(MetricFilterOperator::GreaterThanOrEqual)) {
        MetricFilterOperator::GreaterThanOrEqual
    } else if str_eq(raw, metric_operator_id(MetricFilterOperator::LessThan)) {
        MetricFilterOperator::LessThan
    } else if str_eq(raw, metric_operator_id(MetricFilterOperator::LessThanOrEqual)) {
        MetricFilterOperator::LessThanOrEqual
    } else {
        MetricFilterOperator::GreaterThanOrEqual
    }
}

/// Identifiers read back: every sort key, sort direction, view mode and
/// operator is read back from its identifier as itself.
pub proof fn lemma_identifier_roundtrip(
    key: SortKey,
    direction: SortDirection,
    view_mode: ViewMode,
    operator: MetricFilterOperator,
)
    ensures
        parse_sort_key_spec(sort_key_id_spec(key)) == key,
        parse_sort_direction_spec(sort_direction_id_spec(direction)) == Some(direction),
        parse_view_mode_spec(view_mode_id_spec(view_mode)) == view_mode,
        parse_metric_operator_spec(operator_id_spec(operator)) == operator,
{
    reveal_strlit("asc");
    reveal_strlit("desc");
    reveal_strlit("flat");
    reveal_strlit("tree");
    reveal_strlit("equal");
    reveal_strlit("greater_than");
    reveal_strlit("greater_than_or_equal");
    reveal_strlit("less_than");
    reveal_strlit("less_than_or_equal");
    lemma_sort_key_ids_distinct();
    assert("asc"@.len() != "desc"@.len());
    assert("flat"@[0] != "tree"@[0]);
    let k = match key {
        SortKey::Pid => 0int,
        SortKey::Ppid => 1,
        SortKey::Owner => 2,
        SortKey::Name => 3,
        SortKey::Command => 4,
        SortKey::Rss => 5,
        SortKey::Swap => 6,
        SortKey::Cpu => 7,
    };
    assert(sort_key_seq()[k] == key);
    let raw = sort_key_id_spec(key);
    let c = choose|c: int| 0 <= c < 8 && sort_key_id_spec(sort_key_seq()[c]) == raw;
    assert(c == k);
    let e = operator_id_spec(MetricFilterOperator::Equal);
    let g = operator_id_spec(MetricFilterOperator::GreaterThan);
    let ge = operator_id_spec(MetricFilterOperator::GreaterThanOrEqual);
    let l = operator_id_spec(MetricFilterOperator::LessThan);
    assert(e != g && e != ge && e != l && g != ge && g != l && ge != l) by {
        assert(e.len() != g.len() && e.len() != ge.len() && e.len() != l.len());
        assert(g.len() != ge.len() && g.len() != l.len() && ge.len() != l.len());
    }
    let le = operator_id_spec(MetricFilterOperator::LessThanOrEqual);
    assert(le != e && le != g && le != ge && le != l) by {
        assert(le.len() != e.len() && le.len() != g.len() && le.len() != l.len());
        assert(le[0] != ge[0]);
    }
}

/// Sort settings as they are stored in the configuration file.
#[derive(Debug)]
pub struct SortConfigV1 {
    pub key: String,
    pub direction: String,
}

impl Default for SortConfigV1 {
    /// RSS, descending.
    fn default() -> (r: Self)
        ensures
            r.key@ == sort_key_id_spec(SortKey::Rss),
            r.direction@ == sort_direction_id_spec(SortDirection::Descending),
    {
        SortConfigV1 { key: default_sort_key(), direction: default_sort_direction() }
    }
}

/// The sort state stored sort settings describe: the named key, in the
/// named direction or else the key's default direction.
pub open spec fn stored_sort_state(key: Seq<char>, direction: Seq<char>) -> SortState {
    let k = parse_sort_key_spec(key);
    SortState {
        key: k,
        direction: match parse_sort_direction_spec(direction) {
            Some(d) => d,
            None => default_direction_spec(k),
        },
    }
}

impl SortConfigV1 {
    /// The stored form of a sort state.
    pub fn from_sort_state(sort_state: SortState) -> (r: Self)
        ensures
            r.key@ == sort_key_id_spec(sort_state.key),
            r.direction@ == sort_direction_id_spec(sort_state.direction),
    {
        SortConfigV1 {
            key: owned_string(sort_key_id(sort_state.key)),
            direction: owned_string(sort_direction_id(sort_state.direction)),
        }
    }

    /// The sort state these settings describe.
    pub fn to_sort_state(&self) -> (r: SortState)
        ensures
            r == stored_sort_state(self.key@, self.direction@),
    {
        let key = parse_sort_key(self.key.as_str());
        let direction = match parse_sort_direction(self.direction.as_str()) {
            Some(d) => d,
            None => key.default_direction(),
        };
        SortState::new(key, direction)
    }
}

/// Sort settings read back: storing a sort state and reading it gives the
/// same state.
pub proof fn lemma_sort_config_roundtrip(state: SortState)
    ensures
        stored_sort_state(sort_key_id_spec(state.key), sort_direction_id_spec(state.direction))
            == state,
{
    lemma_identifier_roundtrip(state.key, state.direction, ViewMode::Flat, MetricFilterOperator::Equal);
}

/// Filter texts and operators as they are stored in the configuration file.
#[derive(Debug)]
pub struct FilterConfigV1 {
    pub pid: String,
    pub ppid: String,
    pub name: String,
    pub command: String,
    pub rss_op: String,
    pub rss_value: String,
    pub swap_op: String,
    pub swap_value: String,
    pub cpu_op: String,
    pub cpu_value: String,
    pub uss_op: String,
    pub uss_value: String,
    pub pss_op: String,
    pub pss_value: String,
}

/// Whether stored filter settings hold the texts and operator identifiers
/// of `modal`.
pub open spec fn filter_config_of(c: FilterConfigV1, modal: FilterModalState) -> bool {
    &&& c.pid@ == modal.pid@
    &&& c.ppid@ == modal.ppid@
    &&& c.name@ == modal.name@
    &&& c.command@ == modal.command@
    &&& c.rss_op@ == operator_id_spec(modal.rss_op)
    &&& c.rss_value@ == modal.rss_value@
    &&& c.swap_op@ == operator_id_spec(modal.swap_op)
    &&& c.swap_value@ == modal.swap_value@
    &&& c.cpu_op@ == operator_id_spec(modal.cpu_op)
    &&& c.cpu_value@ == modal.cpu_value@
    &&& c.uss_op@ == operator_id_spec(modal.uss_op)
    &&& c.uss_value@ == modal.uss_value@
    &&& c.pss_op@ == operator_id_spec(modal.pss_op)
    &&& c.pss_value@ == modal.pss_value@
}

/// Whether `modal` holds the stored settings `c`, closed and not editing,
/// without an error, on the first row.
pub open spec fn modal_of_config(modal: FilterModalState, c: FilterConfigV1) -> bool {
    &&& !modal.open
    &&& modal.selected == 0
    &&& !modal.editing
    &&& modal.error is None
    &&& modal.pid@ == c.pid@
    &&& modal.ppid@ == c.ppid@
    &&& modal.name@ == c.name@
    &&& modal.command@ == c.command@
    &&& modal.rss_op == parse_metric_operator_spec(c.rss_op@)
    &&& modal.rss_value@ == c.rss_value@
    &&& modal.swap_op == parse_metric_operator_spec(c.swap_op@)
    &&& modal.swap_value@ == c.swap_value@
    &&& modal.cpu_op == parse_metric_operator_spec(c.cpu_op@)
    &&& modal.cpu_value@ == c.cpu_value@
    &&& modal.uss_op == parse_metric_operator_spec(c.uss_op@)
    &&& modal.uss_value@ == c.uss_value@
    &&& modal.pss_op == parse_metric_operator_spec(c.pss_op@)
    &&& modal.pss_value@ == c.pss_value@
}

impl FilterConfigV1 {
    /// The stored form of the modal's texts and operators.
    pub fn from_modal(modal: &FilterModalState) -> (r: Self)
        ensures
            filter_config_of(r, *modal),
    {
        FilterConfigV1 {
            pid: owned_string(modal.pid.as_str()),
            ppid: owned_string(modal.ppid.as_str()),
            name: owned_string(modal.name.as_str()),
            command: owned_string(modal.command.as_str()),
            rss_op: owned_string(metric_operator_id(modal.rss_op)),
            rss_value: owned_string(modal.rss_value.as_str()),
            swap_op: owned_string(metric_operator_id(modal.swap_op)),
            swap_value: owned_string(modal.swap_value.as_str()),
            cpu_op: owned_string(metric_operator_id(modal.cpu_op)),
            cpu_value: owned_string(modal.cpu_value.as_str()),
            uss_op: owned_string(metric_operator_id(modal.uss_op)),
            uss_value: owned_string(modal.uss_value.as_str()),
            pss_op: owned_string(metric_operator_id(modal.pss_op)),
            pss_value: owned_string(modal.pss_value.as_str()),
        }
    }

    /// Loads the stored texts and operators into the modal, which is left
    /// closed, not editing, without an error, on the first row.
    pub fn apply_to_modal(&self, modal: &mut FilterModalState)
        ensures
            modal_of_config(*final(modal), *self),
    {
        modal.open = false;
        modal.selected = 0;
        modal.editing = false;
        modal.error = None;
        modal.pid = owned_string(self.pid.as_str());
        modal.ppid = owned_string(self.ppid.as_str());
        modal.name = owned_string(self.name.as_str());
        modal.command = owned_string(self.command.as_str());
        modal.rss_op = parse_metric_operator(self.rss_op.as_str());
        modal.rss_value = owned_string(self.rss_value.as_str());
        modal.swap_op = parse_metric_operator(self.swap_op.as_str());
        modal.swap_value = owned_string(self.swap_value.as_str());
        modal.cpu_op = parse_metric_operator(self.cpu_op.as_str());
        modal.cpu_value = owned_string(self.cpu_value.as_str());
        modal.uss_op = parse_metric_operator(self.uss_op.as_str());
        modal.uss_value = owned_string(self.uss_value.as_str());
        modal.pss_op = parse_metric_operator(self.pss_op.as_str());
        modal.pss_value = owned_string(self.pss_value.as_str());
    }
}

impl Default for FilterConfigV1 {
    /// The stored form of an empty modal: empty texts and `>=` everywhere.
    fn default() -> (r: Self)
        ensures
            r.pid@.len() == 0,
            r.ppid@.len() == 0,
            r.name@.len() == 0,
            r.command@.len() == 0,
            r.rss_op@ == operator_id_spec(MetricFilterOperator::GreaterThanOrEqual),
            r.rss_value@.len() == 0,
            r.swap_op@ == operator_id_spec(MetricFilterOperator::GreaterThanOrEqual),
            r.swap_value@.len() == 0,
            r.cpu_op@ == operator_id_spec(MetricFilterOperator::GreaterThanOrEqual),
            r.cpu_value@.len() == 0,
            r.uss_op@ == operator_id_spec(MetricFilterOperator::GreaterThanOrEqual),
            r.uss_value@.len() == 0,
            r.pss_op@ == operator_id_spec(MetricFilterOperator::GreaterThanOrEqual),
            r.pss_value@.len() == 0,
    {
        let modal = FilterModalState::default();
        FilterConfigV1::from_modal(&modal)
    }
}

/// Filter settings read back: storing the modal's texts and operators and
/// loading them again restores every text and operator.
pub proof fn lemma_filter_config_roundtrip(
    modal: FilterModalState,
    stored: FilterConfigV1,
    loaded: FilterModalState,
)
    requires
        filter_config_of(stored, modal),
        modal_of_config(loaded, stored),
    ensures
        loaded.pid@ == modal.pid@,
        loaded.ppid@ == modal.ppid@,
        loaded.name@ == modal.name@,
        loaded.command@ == modal.command@,
        loaded.rss_op == modal.rss_op,
        loaded.rss_value@ == modal.rss_value@,
        loaded.swap_op == modal.swap_op,
        loaded.swap_value@ == modal.swap_value@,
        loaded.cpu_op == modal.cpu_op,
        loaded.cpu_value@ == modal.cpu_value@,
        loaded.uss_op == modal.uss_op,
        loaded.uss_value@ == modal.uss_value@,
        loaded.pss_op == modal.pss_op,
        loaded.pss_value@ == modal.pss_value@,
{
    lemma_identifier_roundtrip(SortKey::Rss, SortDirection::Ascending, ViewMode::Flat, modal.rss_op);
    lemma_identifier_roundtrip(SortKey::Rss, SortDirection::Ascending, ViewMode::Flat, modal.swap_op);
    lemma_identifier_roundtrip(SortKey::Rss, SortDirection::Ascending, ViewMode::Flat, modal.cpu_op);
    lemma_identifier_roundtrip(SortKey::Rss, SortDirection::Ascending, ViewMode::Flat, modal.uss_op);
    lemma_identifier_roundtrip(SortKey::Rss, SortDirection::Ascending, ViewMode::Flat, modal.pss_op);
}

/// The persisted preferences: the column layout, the sort, the view mode
/// and the filter texts.
#[derive(Debug)]
pub struct AppConfigV1 {
    pub version: u8,
    pub columns: ColumnConfigV1,
    pub sort: SortConfigV1,
    pub view_mode: String,
    pub filter: FilterConfigV1,
}

impl Default for AppConfigV1 {
    /// Version 1, the default layout, RSS descending, the flat view and an
    /// empty filter.
    fn default() -> (r: Self)
        ensures
            r.version == 1,
            r.sort.key@ == sort_key_id_spec(SortKey::Rss),
            r.sort.direction@ == sort_direction_id_spec(SortDirection::Descending),
            r.view_mode@ == view_mode_id_spec(ViewMode::Flat),
    {
        AppConfigV1 {
            version: config_version(),
            columns: ColumnConfigV1::default(),
            sort: SortConfigV1::default(),
            view_mode: owned_string(view_mode_id(ViewMode::Flat)),
            filter: FilterConfigV1::default(),
        }
    }
}

/// Whether `c` is the stored form of the preferences of `app`.
pub open spec fn config_of_app<C: SystemCollector>(c: AppConfigV1, app: AppState<C>) -> bool {
    &&& c.version == 1
    &&& string_views(c.columns.order@) == column_ids(app.view.columns.order())
    &&& string_views(c.columns.hidden@) == column_ids(
        all_columns().filter(|col: ProcessColumn| !app.view.columns.visible()[column_index(col)]),
    )
    &&& c.sort.key@ == sort_key_id_spec(app.view.sort_state.key)
    &&& c.sort.direction@ == sort_direction_id_spec(app.view.sort_state.direction)
    &&& c.view_mode@ == view_mode_id_spec(app.view.view_mode)
    &&& filter_config_of(c.filter, app.view.filter_modal)
}

impl AppConfigV1 {
    /// The stored form of the preferences of `app`.
    pub fn from_app<C: SystemCollector>(app: &AppState<C>) -> (r: Self)
        ensures
            config_of_app(r, *app),
    {
        AppConfigV1 {
            version: config_version(),
            columns: app.view.columns.to_config_v1(),
            sort: SortConfigV1::from_sort_state(app.view.sort_state),
            view_mode: owned_string(view_mode_id(app.view.view_mode)),
            filter: FilterConfigV1::from_modal(&app.view.filter_modal),
        }
    }

    /// Loads the preferences into `app`: the layout, the sort and the view
    /// mode as stored (unknown identifiers fall back to defaults), the
    /// filter texts into the closed modal, the filter rebuilt from them
    /// (`parse_value` reads metric texts) with its error in the modal, and
    /// the column picker highlight kept within the columns.
    pub fn apply_to_app<C: SystemCollector, F: Fn(MetricFilterField, &str) -> Option<
        MetricFilterValue,
    >>(&self, app: &mut AppState<C>, parse_value: &F)
        requires
            forall|field: MetricFilterField, text: &str| #[trigger] parse_value.requires((field, text)),
        ensures
            final(app).view.columns.wf(),
            final(app).view.columns.order() == config_order(string_views(self.columns.order@)),
            final(app).view.columns.visible() == config_visible(string_views(self.columns.hidden@)),
            final(app).view.sort_state == stored_sort_state(self.sort.key@, self.sort.direction@),
            final(app).view.view_mode == parse_view_mode_spec(self.view_mode@),
            modal_of_config(
                (FilterModalState { error: None, ..final(app).view.filter_modal }),
                self.filter,
            ),
            exists|parsed: Seq<Option<MetricFilterValue>>|
                parsed.len() == 5 && final(app).view.filter@ == modal_predicates(
                    final(app).view.filter_modal,
                    parsed,
                ) && message_view(final(app).view.filter_modal.error) == modal_error(
                    final(app).view.filter_modal,
                    parsed,
                ),
            final(app).view.column_picker_index == if old(app).view.column_picker_index < 10 {
                old(app).view.column_picker_index
            } else {
                10
            },
            final(app).data == old(app).data,
            final(app).view.selected == old(app).view.selected,
            final(app).view.filtered_indexes == old(app).view.filtered_indexes,
    {
        app.view.columns = ColumnLayout::from_config(&self.columns);
        app.view.sort_state = self.sort.to_sort_state();
        app.view.view_mode = parse_view_mode(self.view_mode.as_str());
        self.filter.apply_to_modal(&mut app.view.filter_modal);
        let ghost loaded = app.view.filter_modal;
        let (filter, error) = try_build_filter_from_modal(&app.view.filter_modal, parse_value);
        app.view.filter = filter;
        app.view.filter_modal.error = error;
        assert((FilterModalState { error: None, ..app.view.filter_modal }) == loaded);
        let last = app.view.columns.ordered_columns().len() - 1;
        if app.view.column_picker_index > last {
            app.view.column_picker_index = last;
        }
    }
}

/// Preferences read back: storing the preferences of an application with a
/// well-formed layout and loading them into another restores the column
/// order and visibility, the sort, the view mode and every filter text and
/// operator.
pub proof fn lemma_app_config_roundtrip<C: SystemCollector, D: SystemCollector>(
    app: AppState<C>,
    stored: AppConfigV1,
    loaded: AppState<D>,
)
    requires
        app.view.columns.wf(),
        config_of_app(stored, app),
        loaded.view.columns.order() == config_order(string_views(stored.columns.order@)),
        loaded.view.columns.visible() == config_visible(string_views(stored.columns.hidden@)),
        loaded.view.sort_state == stored_sort_state(stored.sort.key@, stored.sort.direction@),
        loaded.view.view_mode == parse_view_mode_spec(stored.view_mode@),
        modal_of_config(
            (FilterModalState { error: None, ..loaded.view.filter_modal }),
            stored.filter,
        ),
    ensures
        loaded.view.columns.order() == app.view.columns.order(),
        loaded.view.columns.visible() == app.view.columns.visible(),
        loaded.view.sort_state == app.view.sort_state,
        loaded.view.view_mode == app.view.view_mode,
        loaded.view.filter_modal.pid@ == app.view.filter_modal.pid@,
        loaded.view.filter_modal.ppid@ == app.view.filter_modal.ppid@,
        loaded.view.filter_modal.name@ == app.view.filter_modal.name@,
        loaded.view.filter_modal.command@ == app.view.filter_modal.command@,
        loaded.view.filter_modal.rss_op == app.view.filter_modal.rss_op,
        loaded.view.filter_modal.rss_value@ == app.view.filter_modal.rss_value@,
        loaded.view.filter_modal.swap_op == app.view.filter_modal.swap_op,
        loaded.view.filter_modal.swap_value@ == app.view.filter_modal.swap_value@,
        loaded.view.filter_modal.cpu_op == app.view.filter_modal.cpu_op,
        loaded.view.filter_modal.cpu_value@ == app.view.filter_modal.cpu_value@,
        loaded.view.filter_modal.uss_op == app.view.filter_modal.uss_op,
        loaded.view.filter_modal.uss_value@ == app.view.filter_modal.uss_value@,
        loaded.view.filter_modal.pss_op == app.view.filter_modal.pss_op,
        loaded.view.filter_modal.pss_value@ == app.view.filter_modal.pss_value@,
{
    crate::columns::lemma_config_roundtrip(app.view.columns);
    lemma_sort_config_roundtrip(app.view.sort_state);
    lemma_identifier_roundtrip(
        app.view.sort_state.key,
        app.view.sort_state.direction,
        app.view.view_mode,
        MetricFilterOperator::Equal,
    );
    lemma_filter_config_roundtrip(
        app.view.filter_modal,
        stored.filter,
        FilterModalState { error: None, ..loaded.view.filter_modal },
    );
}

} // verus!
