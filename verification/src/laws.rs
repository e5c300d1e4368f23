//! What holds of edits and syncs taken together.

use vstd::prelude::*;

use crate::edits::{changes_between, or_empty, setting_of, settings_after, written};
use crate::rows::{
    choice_in_range, lemma_option_with_key, row_of, rows_of, shown_value, stored, RowModel,
    RowValueModel,
};
use crate::settings::{SettingValueModel, WidgetKindModel, WidgetModel};
use crate::state::{after_sync, StateModel};
use crate::values::{with_choice, with_path, with_value};

verus! {

/// A value that the widget of a row can make of another one: a switch turns on
/// or off, a combo box chooses an option, a file button selects a file.
pub open spec fn is_edit(before: RowValueModel, after: RowValueModel) -> bool {
    ||| after == before
    ||| before is Bool && after is Bool
    ||| before is Choice && exists|position: nat| after == #[trigger] with_choice(before, position)
    ||| before is FileSelect && exists|path: Seq<char>| after == #[trigger] with_path(before, path)
}

/// The rows are those of the widgets, but for what has been edited in them.
pub open spec fn are_edited(before: Seq<RowModel>, after: Seq<RowModel>) -> bool {
    &&& after.len() == before.len()
    &&& forall|i: int|
        0 <= i < after.len() ==> {
            &&& #[trigger] after[i] == with_value(before[i], after[i].value)
            &&& is_edit(before[i].value, after[i].value)
        }
}

/// The value that the last of the first `n` changes with the given key stores.
pub open spec fn last_written(
    changes: Seq<(Seq<char>, RowValueModel)>,
    key: Seq<char>,
    n: int,
) -> Option<SettingValueModel>
    decreases n,
{
    if n <= 0 {
        None
    } else if changes[n - 1].0 == key && setting_of(changes[n - 1].1) is Some {
        setting_of(changes[n - 1].1)
    } else {
        last_written(changes, key, n - 1)
    }
}

/// The value that an edit stores under a key, if it stores one.
pub open spec fn written_under(
    before: Seq<RowModel>,
    after: Seq<RowModel>,
    key: Seq<char>,
) -> Option<SettingValueModel> {
    let changes = changes_between(before, after, after.len() as int);
    last_written(changes, key, changes.len() as int)
}

/// What an edit stores under the key of a row shows as the value of that row.
pub open spec fn shows_what_is_written(
    widgets: Seq<WidgetModel>,
    before: Seq<RowModel>,
    after: Seq<RowModel>,
    i: int,
) -> bool {
    match written_under(before, after, widgets[i].key) {
        Some(value) => shown_value(widgets[i].kind, Some(value)) == after[i].value,
        None => true,
    }
}

proof fn lemma_stored_after(
    map: Map<Seq<char>, SettingValueModel>,
    changes: Seq<(Seq<char>, RowValueModel)>,
    key: Seq<char>,
    n: int,
)
    ensures
        stored(Some(written(map, changes, n)), key) == match last_written(changes, key, n) {
            Some(value) => Some(value),
            None => stored(Some(map), key),
        },
    decreases n,
{
    if n > 0 {
        lemma_stored_after(map, changes, key, n - 1);
    }
}

proof fn lemma_last_written_of_prefix(
    changes: Seq<(Seq<char>, RowValueModel)>,
    change: (Seq<char>, RowValueModel),
    key: Seq<char>,
    n: int,
)
    requires
        n <= changes.len(),
    ensures
        last_written(changes.push(change), key, n) == last_written(changes, key, n),
    decreases n,
{
    if n > 0 {
        lemma_last_written_of_prefix(changes, change, key, n - 1);
    }
}

/// What is stored under a key is stored by a changed row with that key, and by
/// none if there is none.
proof fn lemma_writer(before: Seq<RowModel>, after: Seq<RowModel>, key: Seq<char>, n: int)
    requires
        0 <= n <= after.len(),
        after.len() == before.len(),
    ensures
        ({
            let changes = changes_between(before, after, n);
            match last_written(changes, key, changes.len() as int) {
                Some(value) => exists|j: int|
                    {
                        &&& 0 <= j < n
                        &&& (#[trigger] after[j]).value != before[j].value
                        &&& after[j].key == key
                        &&& setting_of(after[j].value) == Some(value)
                    },
                None => forall|j: int|
                    0 <= j < n && (#[trigger] after[j]).value != before[j].value && after[j].key
                        == key ==> setting_of(after[j].value) is None,
            }
        }),
    decreases n,
{
    if n > 0 {
        lemma_writer(before, after, key, n - 1);
        let earlier = changes_between(before, after, n - 1);
        let last = after[n - 1];
        if last.value != before[n - 1].value {
            lemma_last_written_of_prefix(
                earlier,
                (last.key, last.value),
                key,
                earlier.len() as int,
            );
            assert(after[n - 1].value != before[n - 1].value);
        }
    }
}

/// An edit stores the value of every row whose value it changes.
proof fn lemma_changed_rows_are_stored(before: RowValueModel, after: RowValueModel)
    requires
        is_edit(before, after),
        after != before,
    ensures
        setting_of(after) is Some,
{
}

/// After an edit, the next sync leaves the rows as they were edited, unless
/// what was stored for a row last does not show as the value of that row. That
/// can only be if two settings share a key, or two options of a choice do.
pub proof fn law_sync_after_edit(
    widgets: Seq<WidgetModel>,
    map: Option<Map<Seq<char>, SettingValueModel>>,
    edited: Seq<RowModel>,
)
    requires
        are_edited(rows_of(widgets, map), edited),
    ensures
        ({
            let before = rows_of(widgets, map);
            let synced = rows_of(widgets, Some(settings_after(map, before, edited)));
            synced == edited <==> forall|i: int|
                0 <= i < edited.len() ==> #[trigger] shows_what_is_written(
                    widgets,
                    before,
                    edited,
                    i,
                )
        }),
{
    let before = rows_of(widgets, map);
    let changes = changes_between(before, edited, edited.len() as int);
    let new_map = settings_after(map, before, edited);
    let synced = rows_of(widgets, Some(new_map));
    assert forall|i: int| 0 <= i < edited.len() implies (synced[i] == edited[i]
        <==> #[trigger] shows_what_is_written(widgets, before, edited, i)) by {
        let key = widgets[i].key;
        lemma_stored_after(or_empty(map), changes, key, changes.len() as int);
        lemma_writer(before, edited, key, edited.len() as int);
        assert(edited[i] == with_value(before[i], edited[i].value));
        assert(before[i] == row_of(widgets, map, i));
        assert(synced[i] == row_of(widgets, Some(new_map), i));
        assert(stored(Some(or_empty(map)), key) == stored(map, key));
        if edited[i].value != before[i].value {
            lemma_changed_rows_are_stored(before[i].value, edited[i].value);
        }
        assert(synced[i] == edited[i] <==> synced[i].value == edited[i].value);
    }
    if forall|i: int|
        0 <= i < edited.len() ==> #[trigger] shows_what_is_written(widgets, before, edited, i) {
        assert forall|i: int| 0 <= i < edited.len() implies synced[i] == edited[i] by {
            assert(shows_what_is_written(widgets, before, edited, i));
        }
        assert(synced =~= edited);
    }
}

/// No two settings have the same key.
pub open spec fn keys_differ(widgets: Seq<WidgetModel>) -> bool {
    forall|i: int, j: int|
        0 <= i < j < widgets.len() && !(widgets[i].kind is Title) && !(widgets[j].kind is Title)
            ==> (#[trigger] widgets[i]).key != (#[trigger] widgets[j]).key
}

/// No two options of a choice have the same key.
pub open spec fn option_keys_differ(widgets: Seq<WidgetModel>) -> bool {
    forall|i: int, a: int, b: int|
        0 <= i < widgets.len() && widgets[i].kind is Choice && 0 <= a < b
            < widgets[i].kind->Choice_options.len() ==> (
        #[trigger] widgets[i].kind->Choice_options[a]).key != (
        #[trigger] widgets[i].kind->Choice_options[b]).key
}

/// Where the keys of the settings differ, and those of the options of each
/// choice, the next sync never overwrites an edit.
pub proof fn law_sync_does_not_overwrite_edits(
    widgets: Seq<WidgetModel>,
    map: Option<Map<Seq<char>, SettingValueModel>>,
    edited: Seq<RowModel>,
)
    requires
        are_edited(rows_of(widgets, map), edited),
        keys_differ(widgets),
        option_keys_differ(widgets),
    ensures
        rows_of(widgets, Some(settings_after(map, rows_of(widgets, map), edited))) == edited,
{
    let before = rows_of(widgets, map);
    assert forall|i: int| 0 <= i < edited.len() implies #[trigger] shows_what_is_written(
        widgets,
        before,
        edited,
        i,
    ) by {
        let key = widgets[i].key;
        lemma_writer(before, edited, key, edited.len() as int);
        assert(edited[i] == with_value(before[i], edited[i].value));
        assert(before[i] == row_of(widgets, map, i));
        if let Some(value) = written_under(before, edited, key) {
            let j = choose|j: int|
                {
                    &&& 0 <= j < edited.len()
                    &&& (#[trigger] edited[j]).value != before[j].value
                    &&& edited[j].key == key
                    &&& setting_of(edited[j].value) == Some(value)
                };
            assert(edited[j] == with_value(before[j], edited[j].value));
            assert(before[j] == row_of(widgets, map, j));
            assert(!(widgets[j].kind is Title));
            if !(widgets[i].kind is Title) {
                assert(i == j) by {
                    assert(widgets[i].key == widgets[j].key);
                }
                if let WidgetKindModel::Choice { options, .. } = widgets[i].kind {
                    let current = edited[i].value->Choice_current;
                    lemma_option_with_key(options, options[current as int].key, 0);
                    assert(edited[i].value->Choice_options == options);
                }
            }
        }
    }
    law_sync_after_edit(widgets, map, edited);
}

/// An edit leaves what is stored for other settings as it was.
pub proof fn law_other_settings_stay(
    map: Option<Map<Seq<char>, SettingValueModel>>,
    before: Seq<RowModel>,
    after: Seq<RowModel>,
    key: Seq<char>,
)
    requires
        after.len() == before.len(),
        forall|i: int|
            0 <= i < after.len() && (#[trigger] after[i]).value != before[i].value ==> after[i].key
                != key,
    ensures
        stored(Some(settings_after(map, before, after)), key) == stored(map, key),
{
    let changes = changes_between(before, after, after.len() as int);
    lemma_stored_after(or_empty(map), changes, key, changes.len() as int);
    lemma_writer(before, after, key, after.len() as int);
    assert(stored(Some(or_empty(map)), key) == stored(map, key));
}

/// What a changed row shows is stored under its key, unless a later changed row
/// stores something under the same key.
pub proof fn law_edit_is_stored(
    map: Option<Map<Seq<char>, SettingValueModel>>,
    before: Seq<RowModel>,
    after: Seq<RowModel>,
    i: int,
)
    requires
        after.len() == before.len(),
        0 <= i < after.len(),
        after[i].value != before[i].value,
        setting_of(after[i].value) is Some,
        forall|j: int|
            i < j < after.len() && (#[trigger] after[j]).value != before[j].value && setting_of(
                after[j].value,
            ) is Some ==> after[j].key != after[i].key,
    ensures
        stored(Some(settings_after(map, before, after)), after[i].key) == setting_of(
            after[i].value,
        ),
{
    let changes = changes_between(before, after, after.len() as int);
    lemma_stored_after(or_empty(map), changes, after[i].key, changes.len() as int);
    lemma_last_writer(before, after, i, after.len() as int);
}

/// What is stored under the key of a changed row is what that row stores, if
/// none of the rows after it stores anything there.
proof fn lemma_last_writer(before: Seq<RowModel>, after: Seq<RowModel>, i: int, n: int)
    requires
        after.len() == before.len(),
        0 <= i < n <= after.len(),
        after[i].value != before[i].value,
        setting_of(after[i].value) is Some,
        forall|j: int|
            i < j < n && (#[trigger] after[j]).value != before[j].value && setting_of(
                after[j].value,
            ) is Some ==> after[j].key != after[i].key,
    ensures
        ({
            let changes = changes_between(before, after, n);
            last_written(changes, after[i].key, changes.len() as int) == setting_of(after[i].value)
        }),
    decreases n,
{
    let earlier = changes_between(before, after, n - 1);
    let last = after[n - 1];
    if last.value != before[n - 1].value {
        lemma_last_written_of_prefix(
            earlier,
            (last.key, last.value),
            after[i].key,
            earlier.len() as int,
        );
    }
    if n - 1 > i {
        lemma_last_writer(before, after, i, n - 1);
    }
}

/// Rows in which no value has changed store nothing.
pub proof fn law_no_edit_stores_nothing(
    map: Option<Map<Seq<char>, SettingValueModel>>,
    before: Seq<RowModel>,
    after: Seq<RowModel>,
)
    requires
        after.len() == before.len(),
    ensures
        changes_between(before, after, after.len() as int).len() == 0 <==> forall|i: int|
            0 <= i < after.len() ==> (#[trigger] after[i]).value == before[i].value,
        (forall|i: int| 0 <= i < after.len() ==> (#[trigger] after[i]).value == before[i].value)
            ==> settings_after(map, before, after) == or_empty(map),
{
    lemma_no_changes(before, after, after.len() as int);
}

proof fn lemma_no_changes(before: Seq<RowModel>, after: Seq<RowModel>, n: int)
    requires
        after.len() == before.len(),
        0 <= n <= after.len(),
    ensures
        changes_between(before, after, n).len() == 0 <==> forall|i: int|
            0 <= i < n ==> (#[trigger] after[i]).value == before[i].value,
    decreases n,
{
    if n > 0 {
        lemma_no_changes(before, after, n - 1);
        if changes_between(before, after, n).len() == 0 {
            assert(after[n - 1].value == before[n - 1].value);
        }
    }
}

/// An edit keeps the chosen option of a row among its options.
pub proof fn law_edits_keep_choices_in_range(before: RowValueModel, after: RowValueModel)
    requires
        choice_in_range(before),
        is_edit(before, after),
    ensures
        choice_in_range(after),
{
}

/// A sync that follows another one with the same settings changes nothing.
pub proof fn law_sync_is_idempotent(
    state: StateModel,
    widgets: Seq<WidgetModel>,
    map: Option<Map<Seq<char>, SettingValueModel>>,
)
    ensures
        after_sync(after_sync(state, widgets, map), widgets, map) == after_sync(
            state,
            widgets,
            map,
        ),
{
}

/// What a sync shows does not depend on what was shown before.
pub proof fn law_sync_forgets(
    state: StateModel,
    other: StateModel,
    widgets: Seq<WidgetModel>,
    map: Option<Map<Seq<char>, SettingValueModel>>,
)
    ensures
        after_sync(state, widgets, map).rows == after_sync(other, widgets, map).rows,
{
}

/// A value can be edited into another one if and only if it is the same, or
/// both are those of a switch, or of a choice among the same options of which
/// one is chosen, or of a file with the same filters.
pub proof fn law_is_edit(before: RowValueModel, after: RowValueModel)
    ensures
        is_edit(before, after) <==> {
            ||| after == before
            ||| before is Bool && after is Bool
            ||| before is Choice && after is Choice && after->options == before->options
                && after->current < after->options.len()
            ||| before is FileSelect && after is FileSelect && after->filters == before->filters
        },
{
    if before is Choice && after is Choice && after->options == before->options && after->current
        < after->options.len() {
        assert(after == with_choice(before, after->current));
    }
    if before is FileSelect && after is FileSelect && after->filters == before->filters {
        assert(after == with_path(before, after->path));
    }
}

/// Of what an edit stores under the key of a row that it changes, the last word
/// has the last such row: a switch stores whether it is on, a choice the key of
/// the chosen option, a file its path. Titles have no say, nor have choices of
/// an option that is not there.
pub proof fn law_edits_are_stored_as_shown(
    map: Option<Map<Seq<char>, SettingValueModel>>,
    before: Seq<RowModel>,
    after: Seq<RowModel>,
    i: int,
)
    requires
        after.len() == before.len(),
        0 <= i < after.len(),
        after[i].value != before[i].value,
        forall|j: int|
            i < j < after.len() && (#[trigger] after[j]).value != before[j].value && after[j].key
                == after[i].key ==> after[j].value is Title || after[j].value is Choice
                && after[j].value->current >= after[j].value->options.len(),
    ensures
        ({
            let key = after[i].key;
            let value = after[i].value;
            let stored_now = settings_after(map, before, after);
            &&& value matches RowValueModel::Bool(b) ==> stored_now.contains_key(key)
                && stored_now[key] == SettingValueModel::Bool(b)
            &&& value is Choice && value->current < value->options.len()
                ==> stored_now.contains_key(key) && stored_now[key] == SettingValueModel::String(
                value->options[value->current as int].key,
            )
            &&& value is FileSelect ==> stored_now.contains_key(key) && stored_now[key]
                == SettingValueModel::String(value->path)
        }),
{
    if setting_of(after[i].value) is Some {
        assert forall|j: int|
            i < j < after.len() && (#[trigger] after[j]).value != before[j].value && setting_of(
                after[j].value,
            ) is Some implies after[j].key != after[i].key by {}
        law_edit_is_stored(map, before, after, i);
    }
}

/// An edit leaves what is stored under a key as it was, be it there or not,
/// unless a changed row with that key is a switch, a file, or a choice of an
/// option that is there.
pub proof fn law_edits_store_nothing_else(
    map: Option<Map<Seq<char>, SettingValueModel>>,
    before: Seq<RowModel>,
    after: Seq<RowModel>,
    key: Seq<char>,
)
    requires
        after.len() == before.len(),
        forall|j: int|
            0 <= j < after.len() && (#[trigger] after[j]).value != before[j].value && after[j].key
                == key ==> after[j].value is Title || after[j].value is Choice
                && after[j].value->current >= after[j].value->options.len(),
    ensures
        ({
            let stored_now = settings_after(map, before, after);
            &&& stored_now.contains_key(key) <==> (map matches Some(m) && m.contains_key(key))
            &&& map is Some && map->0.contains_key(key) ==> stored_now[key] == map->0[key]
        }),
{
    let changes = changes_between(before, after, after.len() as int);
    lemma_stored_after(or_empty(map), changes, key, changes.len() as int);
    lemma_writer(before, after, key, after.len() as int);
    assert(stored(Some(settings_after(map, before, after)), key) == stored(
        Some(or_empty(map)),
        key,
    ));
}

/// A single edit survives the next sync, whatever else is stored: a switch
/// stays turned on or off, a choice stays with the option that was chosen if no
/// other one has its key, and a file stays selected, as long as no other
/// setting has the same key. Neither the other rows nor how the editor is being
/// closed change.
pub proof fn law_edit_survives_sync(
    state: StateModel,
    widgets: Seq<WidgetModel>,
    map: Option<Map<Seq<char>, SettingValueModel>>,
    i: int,
    value: RowValueModel,
)
    requires
        0 <= i < widgets.len(),
        forall|j: int|
            0 <= j < widgets.len() && j != i && !((#[trigger] widgets[j]).kind is Title)
                ==> widgets[j].key != widgets[i].key,
        ({
            let before = rows_of(widgets, map)[i].value;
            ||| before is Bool && value is Bool
            ||| {
                &&& before is Choice && value is Choice && value->options == before->options
                &&& value->current < value->options.len()
                &&& forall|k: int|
                    0 <= k < value->options.len() && k != value->current ==> (
                    #[trigger] value->options[k]).key != value->options[value->current as int].key
            }
            ||| before is FileSelect && value is FileSelect && value->filters == before->filters
        }),
        state.rows == rows_of(widgets, map).update(
            i,
            RowModel { value, ..rows_of(widgets, map)[i] },
        ),
    ensures
        after_sync(
            state,
            widgets,
            Some(settings_after(map, rows_of(widgets, map), state.rows)),
        ) == state,
{
    let before = rows_of(widgets, map);
    let edited = state.rows;
    law_is_edit(before[i].value, value);
    assert forall|j: int| 0 <= j < edited.len() implies {
        &&& #[trigger] edited[j] == with_value(before[j], edited[j].value)
        &&& is_edit(before[j].value, edited[j].value)
    } by {
        assert(j == i || edited[j] == before[j]);
    }
    assert forall|j: int| 0 <= j < edited.len() implies #[trigger] shows_what_is_written(
        widgets,
        before,
        edited,
        j,
    ) by {
        let key = widgets[j].key;
        lemma_writer(before, edited, key, edited.len() as int);
        assert(before[j] == row_of(widgets, map, j));
        assert(before[i] == row_of(widgets, map, i));
        if let Some(written_value) = written_under(before, edited, key) {
            let k = choose|k: int|
                {
                    &&& 0 <= k < edited.len()
                    &&& (#[trigger] edited[k]).value != before[k].value
                    &&& edited[k].key == key
                    &&& setting_of(edited[k].value) == Some(written_value)
                };
            assert(k == i);
            assert(widgets[i].key == key);
            if !(widgets[j].kind is Title) {
                assert(j == i);
                if let WidgetKindModel::Choice { options, .. } = widgets[i].kind {
                    lemma_option_with_key(options, options[value->current as int].key, 0);
                }
            }
        }
    }
    law_sync_after_edit(widgets, map, edited);
    assert(after_sync(
        state,
        widgets,
        Some(settings_after(map, before, edited)),
    ).rows == edited);
}

/// Any number of edits at once survive the next sync if no two settings have
/// the same key and no two options of a choice do.
pub proof fn law_edits_survive_sync(
    state: StateModel,
    widgets: Seq<WidgetModel>,
    map: Option<Map<Seq<char>, SettingValueModel>>,
)
    requires
        state.rows.len() == widgets.len(),
        forall|i: int|
            0 <= i < widgets.len() ==> {
                let before = rows_of(widgets, map)[i];
                let after = #[trigger] state.rows[i];
                &&& after == RowModel { value: after.value, ..before }
                &&& {
                    ||| after.value == before.value
                    ||| before.value is Bool && after.value is Bool
                    ||| before.value is Choice && after.value is Choice && after.value->options
                        == before.value->options && after.value->current
                        < after.value->options.len()
                    ||| before.value is FileSelect && after.value is FileSelect
                        && after.value->filters == before.value->filters
                }
            },
        forall|i: int, j: int|
            0 <= i < j < widgets.len() && !((#[trigger] widgets[i]).kind is Title) && !((
            #[trigger] widgets[j]).kind is Title) ==> widgets[i].key != widgets[j].key,
        forall|i: int, a: int, b: int|
            0 <= i < widgets.len() && widgets[i].kind is Choice && 0 <= a < b
                < widgets[i].kind->options.len() ==> (#[trigger] widgets[i].kind->options[a]).key
                != (#[trigger] widgets[i].kind->options[b]).key,
    ensures
        after_sync(
            state,
            widgets,
            Some(settings_after(map, rows_of(widgets, map), state.rows)),
        ) == state,
{
    let before = rows_of(widgets, map);
    assert forall|i: int| 0 <= i < state.rows.len() implies {
        &&& #[trigger] state.rows[i] == with_value(before[i], state.rows[i].value)
        &&& is_edit(before[i].value, state.rows[i].value)
    } by {
        law_is_edit(before[i].value, state.rows[i].value);
    }
    law_sync_does_not_overwrite_edits(widgets, map, state.rows);
}

} // verus!
