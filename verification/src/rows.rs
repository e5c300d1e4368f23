//! The rows of the editor, and how they follow from the settings that an auto
//! splitter offers and from the values stored for them.

use vstd::prelude::*;
use vstd::std_specs::cmp::PartialEqSpec;

use crate::listing::{all_same, optional_text, same_optional_text, views, Same};
use crate::settings::{
    ChoiceOption, ChoiceOptionModel, FileFilter, FileFilterModel, SettingValue, SettingValueModel,
    SettingsMap, SettingsWidget, WidgetKind, WidgetKindModel, WidgetModel,
};

verus! {

/// What a row shows besides its description.
#[derive(Debug)]
pub enum SettingRowValue {
    Title { heading_level: u32 },
    Bool(bool),
    Choice { current: usize, options: Vec<ChoiceOption> },
    FileSelect {
        /// Current file path (empty string if none selected)
        path: String,
        /// File filters for the dialog
        filters: Vec<FileFilter>,
    },
}

#[verifier::ext_equal]
pub enum RowValueModel {
    Title { heading_level: nat },
    Bool(bool),
    Choice { current: nat, options: Seq<ChoiceOptionModel> },
    FileSelect { path: Seq<char>, filters: Seq<FileFilterModel> },
}

impl View for SettingRowValue {
    type V = RowValueModel;

    open spec fn view(&self) -> RowValueModel {
        match self {
            SettingRowValue::Title { heading_level } => RowValueModel::Title {
                heading_level: *heading_level as nat,
            },
            SettingRowValue::Bool(b) => RowValueModel::Bool(*b),
            SettingRowValue::Choice { current, options } => RowValueModel::Choice {
                current: *current as nat,
                options: views(options@),
            },
            SettingRowValue::FileSelect { path, filters } => RowValueModel::FileSelect {
                path: path@,
                filters: views(filters@),
            },
        }
    }
}

impl Clone for SettingRowValue {
    fn clone(&self) -> (r: Self)
        ensures
            r@ == self@,
    {
        match self {
            SettingRowValue::Title { heading_level } => SettingRowValue::Title {
                heading_level: *heading_level,
            },
            SettingRowValue::Bool(b) => SettingRowValue::Bool(*b),
            SettingRowValue::Choice { current, options } => {
                let copied = options.clone();
                assert(views(copied@) =~= views(options@));
                SettingRowValue::Choice { current: *current, options: copied }
            },
            SettingRowValue::FileSelect { path, filters } => {
                let copied = filters.clone();
                assert(views(copied@) =~= views(filters@));
                SettingRowValue::FileSelect { path: path.clone(), filters: copied }
            },
        }
    }
}

impl Same for SettingRowValue {
    fn same(&self, other: &Self) -> (r: bool) {
        match (self, other) {
            (
                SettingRowValue::Title { heading_level },
                SettingRowValue::Title { heading_level: other_level },
            ) => *heading_level == *other_level,
            (SettingRowValue::Bool(a), SettingRowValue::Bool(b)) => *a == *b,
            (
                SettingRowValue::Choice { current, options },
                SettingRowValue::Choice { current: other_current, options: other_options },
            ) => *current == *other_current && all_same(options, other_options),
            (
                SettingRowValue::FileSelect { path, filters },
                SettingRowValue::FileSelect { path: other_path, filters: other_filters },
            ) => path.same(other_path) && all_same(filters, other_filters),
            _ => false,
        }
    }
}

impl PartialEq for SettingRowValue {
    fn eq(&self, other: &Self) -> (r: bool) {
        self.same(other)
    }
}

impl vstd::std_specs::cmp::PartialEqSpecImpl for SettingRowValue {
    open spec fn obeys_eq_spec() -> bool {
        true
    }

    open spec fn eq_spec(&self, other: &Self) -> bool {
        self@ == other@
    }
}

/// A row of the editor: a title, or a setting with its current value.
#[derive(Debug)]
pub struct SettingRow {
    /// The position of the row.
    pub index: usize,
    pub key: String,
    pub description: String,
    pub tooltip: Option<String>,
    pub value: SettingRowValue,
    pub indent_level: u32,
}

#[verifier::ext_equal]
pub struct RowModel {
    pub index: nat,
    pub key: Seq<char>,
    pub description: Seq<char>,
    pub tooltip: Option<Seq<char>>,
    pub value: RowValueModel,
    pub indent_level: nat,
}

impl View for SettingRow {
    type V = RowModel;

    open spec fn view(&self) -> RowModel {
        RowModel {
            index: self.index as nat,
            key: self.key@,
            description: self.description@,
            tooltip: optional_text(self.tooltip),
            value: self.value@,
            indent_level: self.indent_level as nat,
        }
    }
}

impl Clone for SettingRow {
    fn clone(&self) -> (r: Self)
        ensures
            r@ == self@,
    {
        SettingRow {
            index: self.index,
            key: self.key.clone(),
            description: self.description.clone(),
            tooltip: self.tooltip.clone(),
            value: self.value.clone(),
            indent_level: self.indent_level,
        }
    }
}

impl Same for SettingRow {
    fn same(&self, other: &Self) -> (r: bool) {
        self.index == other.index && self.key.same(&other.key) && self.description.same(
            &other.description,
        ) && same_optional_text(&self.tooltip, &other.tooltip) && self.value.same(&other.value)
            && self.indent_level == other.indent_level
    }
}

impl PartialEq for SettingRow {
    fn eq(&self, other: &Self) -> (r: bool) {
        self.same(other)
    }
}

impl vstd::std_specs::cmp::PartialEqSpecImpl for SettingRow {
    open spec fn obeys_eq_spec() -> bool {
        true
    }

    open spec fn eq_spec(&self, other: &Self) -> bool {
        self@ == other@
    }
}

/// The heading level of the last title among the first `n` widgets.
pub open spec fn heading_before(widgets: Seq<WidgetModel>, n: int) -> Option<nat>
    decreases n,
{
    if n <= 0 {
        None
    } else {
        match widgets[n - 1].kind {
            WidgetKindModel::Title { heading_level } => Some(heading_level),
            _ => heading_before(widgets, n - 1),
        }
    }
}

/// How deep the row of a widget is indented: a title by its own level, a
/// setting one level deeper than the title above it, if there is one.
pub open spec fn indent_of(widgets: Seq<WidgetModel>, i: int) -> nat {
    match widgets[i].kind {
        WidgetKindModel::Title { heading_level } => heading_level,
        _ => match heading_before(widgets, i) {
            Some(heading_level) => heading_level + 1,
            None => 0,
        },
    }
}

/// Every row can be indented as deep as it has to be.
pub open spec fn indents_fit(widgets: Seq<WidgetModel>) -> bool {
    forall|i: int| 0 <= i < widgets.len() ==> #[trigger] indent_of(widgets, i) <= u32::MAX
}

/// The value that is stored under a key.
pub open spec fn stored(
    map: Option<Map<Seq<char>, SettingValueModel>>,
    key: Seq<char>,
) -> Option<SettingValueModel> {
    match map {
        Some(m) => if m.contains_key(key) {
            Some(m[key])
        } else {
            None
        },
        None => None,
    }
}

/// The first option from `from` on that has the given key.
pub open spec fn option_with_key(
    options: Seq<ChoiceOptionModel>,
    key: Seq<char>,
    from: nat,
) -> Option<nat>
    decreases options.len() - from,
{
    if from >= options.len() {
        None
    } else if options[from as int].key == key {
        Some(from)
    } else {
        option_with_key(options, key, from + 1)
    }
}

/// What a row shows for a kind of setting when the given value is stored for
/// it. A missing value, or one of another type, counts as the default.
pub open spec fn shown_value(
    kind: WidgetKindModel,
    value: Option<SettingValueModel>,
) -> RowValueModel {
    match kind {
        WidgetKindModel::Title { heading_level } => RowValueModel::Title { heading_level },
        WidgetKindModel::Bool { default_value } => RowValueModel::Bool(
            match value {
                Some(SettingValueModel::Bool(b)) => b,
                _ => default_value,
            },
        ),
        WidgetKindModel::Choice { default_option_key, options } => {
            let key = match value {
                Some(SettingValueModel::String(s)) => s,
                _ => default_option_key,
            };
            RowValueModel::Choice {
                current: match option_with_key(options, key, 0) {
                    Some(i) => i,
                    None => 0,
                },
                options,
            }
        },
        WidgetKindModel::FileSelect { filters } => RowValueModel::FileSelect {
            path: match value {
                Some(SettingValueModel::String(s)) => s,
                _ => Seq::empty(),
            },
            filters,
        },
    }
}

/// The row that shows a widget.
pub open spec fn row_of(
    widgets: Seq<WidgetModel>,
    map: Option<Map<Seq<char>, SettingValueModel>>,
    i: int,
) -> RowModel {
    RowModel {
        index: i as nat,
        key: widgets[i].key,
        description: widgets[i].description,
        tooltip: widgets[i].tooltip,
        value: shown_value(widgets[i].kind, stored(map, widgets[i].key)),
        indent_level: indent_of(widgets, i),
    }
}

/// The rows that show the widgets, one for each, in order.
pub open spec fn rows_of(
    widgets: Seq<WidgetModel>,
    map: Option<Map<Seq<char>, SettingValueModel>>,
) -> Seq<RowModel> {
    Seq::new(widgets.len(), |i: int| row_of(widgets, map, i))
}

/// What the view of an optional map is.
pub open spec fn map_view(map: Option<&SettingsMap>) -> Option<
    Map<Seq<char>, SettingValueModel>,
> {
    match map {
        Some(m) => Some(m@),
        None => None,
    }
}

/// The value that is stored under a key, if there is a map and it has one.
fn stored_value<'a>(map: Option<&'a SettingsMap>, key: &String) -> (r: Option<&'a SettingValue>)
    ensures
        match r {
            Some(value) => stored(map_view(map), key@) == Some(value@),
            None => stored(map_view(map), key@) is None,
        },
{
    match map {
        Some(m) => m.get(key),
        None => None,
    }
}

/// The position of the first option with the given key, or of the first option
/// if none has it.
pub fn option_position(options: &Vec<ChoiceOption>, key: &String) -> (r: usize)
    ensures
        r == match option_with_key(views(options@), key@, 0) {
            Some(i) => i,
            None => 0,
        },
{
    for i in 0..options.len()
        invariant
            option_with_key(views(options@), key@, 0) == option_with_key(
                views(options@),
                key@,
                i as nat,
            ),
    {
        if options[i].key.same(key) {
            return i;
        }
    }
    0
}

/// What a row shows for a kind of setting, given the value stored for it.
pub fn row_value(kind: &WidgetKind, value: Option<&SettingValue>) -> (r: SettingRowValue)
    ensures
        r@ == shown_value(
            kind@,
            match value {
                Some(v) => Some(v@),
                None => None,
            },
        ),
{
    match kind {
        WidgetKind::Title { heading_level } => SettingRowValue::Title {
            heading_level: *heading_level,
        },
        WidgetKind::Bool { default_value } => SettingRowValue::Bool(
            match value {
                Some(SettingValue::Bool(b)) => *b,
                _ => *default_value,
            },
        ),
        WidgetKind::Choice { default_option_key, options } => {
            let current_key = match value {
                Some(SettingValue::String(s)) => s,
                _ => default_option_key,
            };
            let current = option_position(options, current_key);
            let choice_options = options.clone();
            assert(views(choice_options@) =~= views(options@));
            SettingRowValue::Choice { current, options: choice_options }
        },
        WidgetKind::FileSelect { filters } => {
            let path = match value {
                Some(SettingValue::String(s)) => s.clone(),
                _ => String::new(),
            };
            let dialog_filters = filters.clone();
            assert(views(dialog_filters@) =~= views(filters@));
            SettingRowValue::FileSelect { path, filters: dialog_filters }
        },
    }
}

/// Tells whether every row can be indented as deep as it has to be. No setting
/// may stand under a title of the highest level that there is.
pub fn can_indent(widgets: &Vec<SettingsWidget>) -> (r: bool)
    ensures
        r == indents_fit(views(widgets@)),
{
    let ghost offered = views(widgets@);
    let mut current_heading_level: Option<u32> = None;
    for index in 0..widgets.len()
        invariant
            offered == views(widgets@),
            forall|i: int| 0 <= i < index ==> #[trigger] indent_of(offered, i) <= u32::MAX,
            heading_before(offered, index as int) == match current_heading_level {
                Some(h) => Some(h as nat),
                None => None,
            },
    {
        assert(offered[index as int] == widgets@[index as int]@);
        match &widgets[index].kind {
            WidgetKind::Title { heading_level } => {
                current_heading_level = Some(*heading_level);
            },
            _ => {
                if current_heading_level == Some(u32::MAX) {
                    assert(indent_of(offered, index as int) > u32::MAX);
                    return false;
                }
            },
        }
    }
    true
}

/// The rows that show the given widgets with the values stored for them.
pub fn build_rows(widgets: &Vec<SettingsWidget>, settings_map: Option<&SettingsMap>) -> (rows: Vec<
    SettingRow,
>)
    requires
        indents_fit(views(widgets@)),
    ensures
        views(rows@) == rows_of(views(widgets@), map_view(settings_map)),
{
    let ghost offered = views(widgets@);
    let ghost map = map_view(settings_map);
    let mut rows: Vec<SettingRow> = Vec::new();
    // Track the current heading level for indentation of subsequent settings
    let mut current_heading_level: Option<u32> = None;

    for index in 0..widgets.len()
        invariant
            offered == views(widgets@),
            map == map_view(settings_map),
            indents_fit(offered),
            rows.len() == index,
            forall|i: int| 0 <= i < index ==> (#[trigger] rows@[i])@ == row_of(offered, map, i),
            heading_before(offered, index as int) == match current_heading_level {
                Some(h) => Some(h as nat),
                None => None,
            },
    {
        let widget = &widgets[index];
        assert(offered[index as int] == widget@);
        assert(indent_of(offered, index as int) <= u32::MAX);
        let value = row_value(&widget.kind, stored_value(settings_map, &widget.key));
        let indent_level = match &widget.kind {
            WidgetKind::Title { heading_level } => {
                current_heading_level = Some(*heading_level);
                *heading_level
            },
            _ => match current_heading_level {
                // Indent one level deeper than the current title
                Some(h) => h + 1,
                None => 0,
            },
        };
        rows.push(
            SettingRow {
                index,
                key: widget.key.clone(),
                description: widget.description.clone(),
                tooltip: widget.tooltip.clone(),
                value,
                indent_level,
            },
        );
    }
    assert(views(rows@) =~= rows_of(offered, map));
    rows
}

/// The chosen option is one of the options, if there are any.
pub open spec fn choice_in_range(value: RowValueModel) -> bool {
    value matches RowValueModel::Choice { current, options } ==> current < options.len() || (
    options.len() == 0 && current == 0)
}

/// The option that is found has the key that was looked for, and no option
/// before it has it. If none is found, none has it.
pub proof fn lemma_option_with_key(options: Seq<ChoiceOptionModel>, key: Seq<char>, from: nat)
    ensures
        match option_with_key(options, key, from) {
            Some(i) => {
                &&& from <= i < options.len()
                &&& options[i as int].key == key
                &&& forall|j: int| from <= j < i ==> (#[trigger] options[j]).key != key
            },
            None => forall|j: int| from <= j < options.len() ==> (#[trigger] options[j]).key != key,
        },
    decreases options.len() - from,
{
    if from < options.len() {
        lemma_option_with_key(options, key, from + 1);
    }
}

/// A row shows one of the options of its setting as chosen, whatever is stored.
pub proof fn law_choices_in_range(kind: WidgetKindModel, value: Option<SettingValueModel>)
    ensures
        choice_in_range(shown_value(kind, value)),
{
    if let WidgetKindModel::Choice { default_option_key, options } = kind {
        let key = match value {
            Some(SettingValueModel::String(s)) => s,
            _ => default_option_key,
        };
        lemma_option_with_key(options, key, 0);
    }
}

/// A setting is indented one level deeper than the title under which it stands.
pub proof fn law_settings_stand_under_their_title(
    widgets: Seq<WidgetModel>,
    map: Option<Map<Seq<char>, SettingValueModel>>,
    title: int,
    i: int,
)
    requires
        0 <= title < i < widgets.len(),
        widgets[title].kind is Title,
        forall|j: int| title < j <= i ==> !((#[trigger] widgets[j]).kind is Title),
    ensures
        rows_of(widgets, map)[i].indent_level == rows_of(widgets, map)[title].indent_level + 1,
{
    lemma_heading_before(widgets, title, i);
}

proof fn lemma_heading_before(widgets: Seq<WidgetModel>, title: int, i: int)
    requires
        0 <= title < i <= widgets.len(),
        widgets[title].kind is Title,
        forall|j: int| title < j < i ==> !((#[trigger] widgets[j]).kind is Title),
    ensures
        heading_before(widgets, i) == Some(widgets[title].kind->Title_heading_level),
    decreases i,
{
    if i - 1 > title {
        lemma_heading_before(widgets, title, i - 1);
    }
}

/// Settings above which there is no title are not indented.
pub proof fn law_settings_without_title_are_not_indented(
    widgets: Seq<WidgetModel>,
    map: Option<Map<Seq<char>, SettingValueModel>>,
    i: int,
)
    requires
        0 <= i < widgets.len(),
        forall|j: int| 0 <= j <= i ==> !((#[trigger] widgets[j]).kind is Title),
    ensures
        rows_of(widgets, map)[i].indent_level == 0,
{
    lemma_no_heading_before(widgets, i);
}

proof fn lemma_no_heading_before(widgets: Seq<WidgetModel>, i: int)
    requires
        0 <= i <= widgets.len(),
        forall|j: int| 0 <= j < i ==> !((#[trigger] widgets[j]).kind is Title),
    ensures
        heading_before(widgets, i) is None,
    decreases i,
{
    if i > 0 {
        lemma_no_heading_before(widgets, i - 1);
    }
}

/// A row is described by all of its parts.
pub proof fn law_row_view(row: SettingRow)
    ensures
        row@.index == row.index,
        row@.key == row.key@,
        row@.description == row.description@,
        row@.tooltip is Some <==> row.tooltip is Some,
        row.tooltip matches Some(t) ==> row@.tooltip == Some(t@),
        row@.indent_level == row.indent_level,
        match row.value {
            SettingRowValue::Title { heading_level } => {
                &&& row@.value is Title
                &&& row@.value->heading_level == heading_level
            },
            SettingRowValue::Bool(b) => row@.value == RowValueModel::Bool(b),
            SettingRowValue::Choice { current, options } => {
                &&& row@.value is Choice
                &&& row@.value->current == current
                &&& row@.value->options.len() == options@.len()
                &&& forall|i: int|
                    0 <= i < options@.len() ==> #[trigger] row@.value->options[i] == options@[i]@
            },
            SettingRowValue::FileSelect { path, filters } => {
                &&& row@.value is FileSelect
                &&& row@.value->path == path@
                &&& row@.value->filters.len() == filters@.len()
                &&& forall|i: int|
                    0 <= i < filters@.len() ==> #[trigger] row@.value->filters[i] == filters@[i]@
            },
        },
{
}

/// Every widget, of whatever kind, has a row at its position, with its key, its
/// description and its tooltip.
pub proof fn law_rows_describe_their_widgets(
    widgets: Seq<WidgetModel>,
    map: Option<Map<Seq<char>, SettingValueModel>>,
)
    ensures
        rows_of(widgets, map).len() == widgets.len(),
        forall|i: int|
            0 <= i < widgets.len() ==> {
                let row = #[trigger] rows_of(widgets, map)[i];
                &&& row.index == i
                &&& row.key == widgets[i].key
                &&& row.description == widgets[i].description
                &&& row.tooltip == widgets[i].tooltip
            },
{
}

/// The row of a title shows its level and is indented by it, whatever is
/// stored.
pub proof fn law_title_rows(
    widgets: Seq<WidgetModel>,
    map: Option<Map<Seq<char>, SettingValueModel>>,
    i: int,
)
    requires
        0 <= i < widgets.len(),
        widgets[i].kind is Title,
    ensures
        rows_of(widgets, map)[i].value is Title,
        rows_of(widgets, map)[i].value->heading_level == widgets[i].kind->heading_level,
        rows_of(widgets, map)[i].indent_level == widgets[i].kind->heading_level,
{
}

/// A switch shows the boolean that is stored for it, and its default if nothing
/// is stored or if what is stored is no boolean.
pub proof fn law_switch_rows(
    widgets: Seq<WidgetModel>,
    map: Option<Map<Seq<char>, SettingValueModel>>,
    i: int,
    b: bool,
)
    requires
        0 <= i < widgets.len(),
        widgets[i].kind is Bool,
    ensures
        rows_of(widgets, map)[i].value is Bool,
        map matches Some(m) && m.contains_key(widgets[i].key) && m[widgets[i].key]
            == SettingValueModel::Bool(b) ==> rows_of(widgets, map)[i].value == RowValueModel::Bool(
            b,
        ),
        !(map matches Some(m) && m.contains_key(widgets[i].key) && m[widgets[i].key] is Bool)
            ==> rows_of(widgets, map)[i].value == RowValueModel::Bool(
            widgets[i].kind->default_value,
        ),
{
}

/// A choice shows the first of its options whose key is the string that is
/// stored for it, or the default key if no string is stored. If no option has
/// that key, it shows the first option.
pub proof fn law_choice_rows(
    widgets: Seq<WidgetModel>,
    map: Option<Map<Seq<char>, SettingValueModel>>,
    i: int,
    key: Seq<char>,
)
    requires
        0 <= i < widgets.len(),
        widgets[i].kind is Choice,
        if map matches Some(m) && m.contains_key(widgets[i].key) && m[widgets[i].key] is String {
            map->0[widgets[i].key] == SettingValueModel::String(key)
        } else {
            key == widgets[i].kind->default_option_key
        },
    ensures
        ({
            let value = rows_of(widgets, map)[i].value;
            let options = widgets[i].kind->options;
            &&& value is Choice
            &&& value->options == options
            &&& (exists|j: int| 0 <= j < options.len() && (#[trigger] options[j]).key == key) ==> {
                &&& value->current < options.len()
                &&& options[value->current as int].key == key
                &&& forall|j: int|
                    0 <= j < value->current ==> (#[trigger] options[j]).key != key
            }
            &&& (forall|j: int| 0 <= j < options.len() ==> (#[trigger] options[j]).key != key)
                ==> value->current == 0
        }),
{
    lemma_option_with_key(widgets[i].kind->options, key, 0);
}

/// A file select setting shows the string that is stored for it as its path. If
/// no string is stored, no file is selected.
pub proof fn law_file_rows(
    widgets: Seq<WidgetModel>,
    map: Option<Map<Seq<char>, SettingValueModel>>,
    i: int,
    path: Seq<char>,
)
    requires
        0 <= i < widgets.len(),
        widgets[i].kind is FileSelect,
    ensures
        rows_of(widgets, map)[i].value is FileSelect,
        rows_of(widgets, map)[i].value->filters == widgets[i].kind->filters,
        map matches Some(m) && m.contains_key(widgets[i].key) && m[widgets[i].key]
            == SettingValueModel::String(path) ==> rows_of(widgets, map)[i].value->path == path,
        !(map matches Some(m) && m.contains_key(widgets[i].key) && m[widgets[i].key] is String)
            ==> rows_of(widgets, map)[i].value->path.len() == 0,
{
}

/// What a row shows depends on nothing but its own widget and on what is stored
/// under the key of that widget.
pub proof fn law_rows_show_their_own_setting(
    widgets: Seq<WidgetModel>,
    map: Option<Map<Seq<char>, SettingValueModel>>,
    other_widgets: Seq<WidgetModel>,
    other_map: Option<Map<Seq<char>, SettingValueModel>>,
    i: int,
    j: int,
)
    requires
        0 <= i < widgets.len(),
        0 <= j < other_widgets.len(),
        widgets[i] == other_widgets[j],
        (map matches Some(m) && m.contains_key(widgets[i].key)) <==> (
        other_map matches Some(m) && m.contains_key(widgets[i].key)),
        map matches Some(m) && m.contains_key(widgets[i].key) ==> other_map->0[widgets[i].key]
            == map->0[widgets[i].key],
    ensures
        rows_of(widgets, map)[i].value == rows_of(other_widgets, other_map)[j].value,
{
}

/// What is shown for a stored value is what a row shows when that value is
/// stored for its widget.
pub proof fn law_shown_value(
    widget: WidgetModel,
    map: Map<Seq<char>, SettingValueModel>,
    value: SettingValueModel,
)
    ensures
        shown_value(widget.kind, Some(value)) == rows_of(
            seq![widget],
            Some(map.insert(widget.key, value)),
        )[0].value,
        shown_value(widget.kind, None) == rows_of(seq![widget], None)[0].value,
{
}

/// All rows can be indented if and only if none of them is indented deeper than
/// there is a number for.
pub proof fn law_indents_fit(
    widgets: Seq<WidgetModel>,
    map: Option<Map<Seq<char>, SettingValueModel>>,
)
    ensures
        indents_fit(widgets) <==> forall|i: int|
            0 <= i < widgets.len() ==> (#[trigger] rows_of(widgets, map)[i]).indent_level
                <= u32::MAX,
{
    if indents_fit(widgets) {
        assert forall|i: int| 0 <= i < widgets.len() implies (#[trigger] rows_of(
            widgets,
            map,
        )[i]).indent_level <= u32::MAX by {
            assert(indent_of(widgets, i) <= u32::MAX);
        }
    }
    if forall|i: int|
        0 <= i < widgets.len() ==> (#[trigger] rows_of(widgets, map)[i]).indent_level <= u32::MAX {
        assert forall|i: int| 0 <= i < widgets.len() implies #[trigger] indent_of(widgets, i)
            <= u32::MAX by {
            assert(rows_of(widgets, map)[i].indent_level <= u32::MAX);
        }
    }
}

/// Stored settings are looked at as they are.
pub proof fn law_map_view(map: Option<&SettingsMap>)
    ensures
        map_view(map) is Some <==> map is Some,
        map matches Some(m) ==> map_view(map) == Some(m@),
{
}

/// The value under a key is the one that the stored settings hold under it.
pub proof fn law_stored(map: Option<Map<Seq<char>, SettingValueModel>>, key: Seq<char>)
    ensures
        stored(map, key) is Some <==> (map matches Some(m) && m.contains_key(key)),
        map matches Some(m) && m.contains_key(key) ==> stored(map, key) == Some(map->0[key]),
{
}

/// A choice is in range if and only if the chosen option is there, or there is
/// none to choose and the first one is chosen.
pub proof fn law_choice_in_range(current: nat, options: Seq<ChoiceOptionModel>)
    ensures
        choice_in_range(RowValueModel::Choice { current, options }) <==> current < options.len()
            || current == 0 && options.len() == 0,
{
}

/// The values of two rows are equal if and only if they are of one kind and
/// show the same. Options and filters count, in their order.
pub proof fn law_row_value_equality(one: SettingRowValue, other: SettingRowValue)
    ensures
        SettingRowValue::obeys_eq_spec(),
        one.eq_spec(&other) <==> match (one, other) {
            (
                SettingRowValue::Title { heading_level: a },
                SettingRowValue::Title { heading_level: b },
            ) => a == b,
            (SettingRowValue::Bool(a), SettingRowValue::Bool(b)) => a == b,
            (
                SettingRowValue::Choice { current: a, options: s },
                SettingRowValue::Choice { current: b, options: t },
            ) => a == b && views(s@) == views(t@),
            (
                SettingRowValue::FileSelect { path: a, filters: s },
                SettingRowValue::FileSelect { path: b, filters: t },
            ) => a@ == b@ && views(s@) == views(t@),
            _ => false,
        },
{
}

/// Two rows are equal if and only if all of their parts are.
pub proof fn law_row_equality(one: SettingRow, other: SettingRow)
    ensures
        SettingRow::obeys_eq_spec(),
        one.eq_spec(&other) <==> {
            &&& one.index == other.index
            &&& one.key@ == other.key@
            &&& one.description@ == other.description@
            &&& optional_text(one.tooltip) == optional_text(other.tooltip)
            &&& one.value@ == other.value@
            &&& one.indent_level == other.indent_level
        },
{
}

} // verus!
