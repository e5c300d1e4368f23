//! What a change in the rows writes to the stored settings.

use vstd::prelude::*;

use crate::listing::{views, Same};
use crate::rows::{RowModel, RowValueModel, SettingRow, SettingRowValue};
use crate::settings::{SettingValue, SettingValueModel, SettingsMap};

verus! {

/// The value that is stored for what a row shows. Nothing is stored for a
/// title, nor for a choice that is none of the options.
pub open spec fn setting_of(value: RowValueModel) -> Option<SettingValueModel> {
    match value {
        RowValueModel::Title { .. } => None,
        RowValueModel::Bool(b) => Some(SettingValueModel::Bool(b)),
        RowValueModel::Choice { current, options } => if current < options.len() {
            Some(SettingValueModel::String(options[current as int].key))
        } else {
            None
        },
        RowValueModel::FileSelect { path, .. } => Some(SettingValueModel::String(path)),
    }
}

/// The keys and the new values of those of the first `n` rows whose value has
/// changed, in order.
pub open spec fn changes_between(before: Seq<RowModel>, after: Seq<RowModel>, n: int) -> Seq<
    (Seq<char>, RowValueModel),
>
    decreases n,
{
    if n <= 0 {
        Seq::empty()
    } else {
        let earlier = changes_between(before, after, n - 1);
        if after[n - 1].value != before[n - 1].value {
            earlier.push((after[n - 1].key, after[n - 1].value))
        } else {
            earlier
        }
    }
}

/// The stored settings after the first `n` changes have been written to them.
pub open spec fn written(
    map: Map<Seq<char>, SettingValueModel>,
    changes: Seq<(Seq<char>, RowValueModel)>,
    n: int,
) -> Map<Seq<char>, SettingValueModel>
    decreases n,
{
    if n <= 0 {
        map
    } else {
        let earlier = written(map, changes, n - 1);
        match setting_of(changes[n - 1].1) {
            Some(value) => earlier.insert(changes[n - 1].0, value),
            None => earlier,
        }
    }
}

/// The order of the keys after the first `n` changes have been written: keys
/// that were not there before follow in the order of the changes.
pub open spec fn keys_written(
    keys: Seq<Seq<char>>,
    map: Map<Seq<char>, SettingValueModel>,
    changes: Seq<(Seq<char>, RowValueModel)>,
    n: int,
) -> Seq<Seq<char>>
    decreases n,
{
    if n <= 0 {
        keys
    } else {
        let earlier = keys_written(keys, map, changes, n - 1);
        if setting_of(changes[n - 1].1) is Some && !written(map, changes, n - 1).contains_key(
            changes[n - 1].0,
        ) {
            earlier.push(changes[n - 1].0)
        } else {
            earlier
        }
    }
}

/// The stored settings from which a change starts. They are empty where there
/// are none.
pub open spec fn or_empty(map: Option<Map<Seq<char>, SettingValueModel>>) -> Map<
    Seq<char>,
    SettingValueModel,
> {
    match map {
        Some(m) => m,
        None => Map::empty(),
    }
}

/// The stored settings after the rows have been edited.
pub open spec fn settings_after(
    map: Option<Map<Seq<char>, SettingValueModel>>,
    before: Seq<RowModel>,
    after: Seq<RowModel>,
) -> Map<Seq<char>, SettingValueModel> {
    let changes = changes_between(before, after, after.len() as int);
    written(or_empty(map), changes, changes.len() as int)
}

/// The changes as their keys and the views of the new values.
pub open spec fn change_views(changes: Seq<(String, SettingRowValue)>) -> Seq<
    (Seq<char>, RowValueModel),
> {
    Seq::new(changes.len(), |i: int| (changes[i].0@, changes[i].1@))
}

impl SettingRowValue {
    /// The value that is stored for what the row shows, if any is.
    pub fn setting(&self) -> (r: Option<SettingValue>)
        ensures
            setting_of(self@) == match r {
                Some(value) => Some(value@),
                None => None,
            },
    {
        match self {
            SettingRowValue::Title { .. } => None,
            SettingRowValue::Bool(b) => Some(SettingValue::Bool(*b)),
            SettingRowValue::Choice { current, options } => {
                if *current < options.len() {
                    Some(SettingValue::String(options[*current].key.clone()))
                } else {
                    None
                }
            },
            SettingRowValue::FileSelect { path, .. } => Some(SettingValue::String(path.clone())),
        }
    }
}

/// The keys and the new values of the rows whose value has changed.
pub fn changed_rows(before: &Vec<SettingRow>, after: &Vec<SettingRow>) -> (r: Vec<
    (String, SettingRowValue),
>)
    requires
        before.len() == after.len(),
    ensures
        change_views(r@) == changes_between(views(before@), views(after@), after.len() as int),
{
    let mut changed: Vec<(String, SettingRowValue)> = Vec::new();
    for i in 0..after.len()
        invariant
            before.len() == after.len(),
            change_views(changed@) == changes_between(views(before@), views(after@), i as int),
    {
        let ghost earlier = changed@;
        assert(views(before@)[i as int] == before@[i as int]@);
        assert(views(after@)[i as int] == after@[i as int]@);
        if !after[i].value.same(&before[i].value) {
            changed.push((after[i].key.clone(), after[i].value.clone()));
            assert(change_views(changed@) =~= change_views(earlier).push(
                (after@[i as int].key@, after@[i as int].value@),
            ));
        }
    }
    changed
}

/// Writes the changed values to the stored settings.
pub fn write_changes(map: SettingsMap, changes: &Vec<(String, SettingRowValue)>) -> (r: SettingsMap)
    ensures
        r@ == written(map@, change_views(changes@), changes.len() as int),
        r.keys() == keys_written(map.keys(), map@, change_views(changes@), changes.len() as int),
{
    let mut new_map = map;
    for i in 0..changes.len()
        invariant
            new_map@ == written(map@, change_views(changes@), i as int),
            new_map.keys() == keys_written(map.keys(), map@, change_views(changes@), i as int),
    {
        assert(change_views(changes@)[i as int] == (changes@[i as int].0@, changes@[i as int].1@));
        match changes[i].1.setting() {
            Some(value) => {
                new_map.insert(changes[i].0.clone(), value);
            },
            None => {},
        }
    }
    new_map
}

/// A switch stores whether it is on, a choice the key of the chosen option, a
/// file its path. A title stores nothing, nor does a choice of an option that
/// is not there.
pub proof fn law_setting_of(value: RowValueModel)
    ensures
        value is Title ==> setting_of(value) is None,
        value matches RowValueModel::Bool(b) ==> setting_of(value) == Some(
            SettingValueModel::Bool(b),
        ),
        value is Choice && value->current < value->options.len() ==> setting_of(value) == Some(
            SettingValueModel::String(value->options[value->current as int].key),
        ),
        value is Choice && value->current >= value->options.len() ==> setting_of(value) is None,
        value is FileSelect ==> setting_of(value) == Some(SettingValueModel::String(value->path)),
{
}

/// The changes are exactly the rows whose value differs, in their order, with
/// the new key and the new value of each. Returns the positions of those rows.
pub proof fn law_changes_are_listed(before: Seq<RowModel>, after: Seq<RowModel>, n: int) -> (at:
    Seq<int>)
    requires
        0 <= n <= after.len(),
    ensures
        at.len() == changes_between(before, after, n).len(),
        forall|k: int|
            0 <= k < at.len() ==> {
                &&& 0 <= #[trigger] at[k] < n
                &&& after[at[k]].value != before[at[k]].value
                &&& changes_between(before, after, n)[k] == (after[at[k]].key, after[at[k]].value)
            },
        forall|k: int, l: int| 0 <= k < l < at.len() ==> #[trigger] at[k] < #[trigger] at[l],
        forall|i: int|
            0 <= i < n && (#[trigger] after[i]).value != before[i].value ==> at.contains(i),
    decreases n,
{
    if n <= 0 {
        Seq::empty()
    } else {
        let earlier = law_changes_are_listed(before, after, n - 1);
        if after[n - 1].value != before[n - 1].value {
            let at = earlier.push(n - 1);
            assert forall|i: int|
                0 <= i < n && (#[trigger] after[i]).value != before[i].value implies at.contains(
                i,
            ) by {
                if i == n - 1 {
                    assert(at[earlier.len() as int] == i);
                } else {
                    let k = earlier.index_of(i);
                    assert(at[k] == i);
                }
            }
            at
        } else {
            assert forall|i: int|
                0 <= i < n && (#[trigger] after[i]).value
                    != before[i].value implies earlier.contains(i) by {
                assert(i < n - 1);
            }
            earlier
        }
    }
}

/// A change stores something under a key.
pub open spec fn stores_under(
    changes: Seq<(Seq<char>, RowValueModel)>,
    i: int,
    key: Seq<char>,
) -> bool {
    0 <= i < changes.len() && changes[i].0 == key && setting_of(changes[i].1) is Some
}

/// A change stores something unless it is one of a title, or of a choice of an
/// option that is not there.
pub proof fn law_stores_under(changes: Seq<(Seq<char>, RowValueModel)>, i: int, key: Seq<char>)
    requires
        0 <= i < changes.len(),
    ensures
        stores_under(changes, i, key) <==> changes[i].0 == key && !(changes[i].1 is Title) && !(
        changes[i].1 is Choice && changes[i].1->current >= changes[i].1->options.len()),
{
}

/// The last change that stores something under a key decides what is stored
/// there.
pub proof fn law_last_change_is_stored(
    map: Map<Seq<char>, SettingValueModel>,
    changes: Seq<(Seq<char>, RowValueModel)>,
    i: int,
    n: int,
)
    requires
        0 <= i < n <= changes.len(),
        stores_under(changes, i, changes[i].0),
        forall|j: int| i < j < n ==> !#[trigger] stores_under(changes, j, changes[i].0),
    ensures
        written(map, changes, n).contains_key(changes[i].0),
        Some(written(map, changes, n)[changes[i].0]) == setting_of(changes[i].1),
    decreases n,
{
    if n - 1 > i {
        law_last_change_is_stored(map, changes, i, n - 1);
        assert(!stores_under(changes, n - 1, changes[i].0));
    }
}

/// Keys under which no change stores anything keep what is stored there.
pub proof fn law_unwritten_keys_stay(
    map: Map<Seq<char>, SettingValueModel>,
    changes: Seq<(Seq<char>, RowValueModel)>,
    key: Seq<char>,
    n: int,
)
    requires
        n <= changes.len(),
        forall|j: int| 0 <= j < n ==> !#[trigger] stores_under(changes, j, key),
    ensures
        written(map, changes, n).contains_key(key) <==> map.contains_key(key),
        map.contains_key(key) ==> written(map, changes, n)[key] == map[key],
    decreases n,
{
    if n > 0 {
        law_unwritten_keys_stay(map, changes, key, n - 1);
        assert(!stores_under(changes, n - 1, key));
    }
}

proof fn lemma_written_keys(
    map: Map<Seq<char>, SettingValueModel>,
    changes: Seq<(Seq<char>, RowValueModel)>,
    key: Seq<char>,
    j: int,
    n: int,
)
    requires
        0 <= j < n <= changes.len(),
        stores_under(changes, j, key),
    ensures
        written(map, changes, n).contains_key(key),
    decreases n,
{
    if n - 1 > j {
        lemma_written_keys(map, changes, key, j, n - 1);
    }
}

/// One of the first `n` changes stores something under a key.
pub open spec fn is_stored_by(
    changes: Seq<(Seq<char>, RowValueModel)>,
    n: int,
    key: Seq<char>,
) -> bool {
    exists|i: int| i < n && #[trigger] stores_under(changes, i, key)
}

/// One of the first `n` changes stores something under the key `first`, and no
/// change up to it stores anything under the key `second`.
pub open spec fn is_stored_first(
    changes: Seq<(Seq<char>, RowValueModel)>,
    n: int,
    first: Seq<char>,
    second: Seq<char>,
) -> bool {
    exists|i: int|
        i < n && #[trigger] stores_under(changes, i, first) && forall|j: int|
            j <= i ==> !#[trigger] stores_under(changes, j, second)
}

/// Keys that were stored before keep their places. Those that were not follow
/// in the order in which the changes first store something under them. No key
/// occurs twice, and the keys are those of the stored settings.
pub proof fn law_keys_written(
    keys: Seq<Seq<char>>,
    map: Map<Seq<char>, SettingValueModel>,
    changes: Seq<(Seq<char>, RowValueModel)>,
    n: int,
)
    requires
        0 <= n <= changes.len(),
        keys.no_duplicates(),
        forall|key: Seq<char>| #[trigger] keys.contains(key) <==> map.contains_key(key),
    ensures
        keys.is_prefix_of(keys_written(keys, map, changes, n)),
        keys_written(keys, map, changes, n).no_duplicates(),
        forall|key: Seq<char>| #[trigger]
            keys_written(keys, map, changes, n).contains(key) <==> written(
                map,
                changes,
                n,
            ).contains_key(key),
        forall|p: int|
            keys.len() <= p < keys_written(keys, map, changes, n).len() ==> is_stored_by(
                changes,
                n,
                #[trigger] keys_written(keys, map, changes, n)[p],
            ),
        forall|p: int, q: int|
            keys.len() <= p < q < keys_written(keys, map, changes, n).len() ==> is_stored_first(
                changes,
                n,
                #[trigger] keys_written(keys, map, changes, n)[p],
                #[trigger] keys_written(keys, map, changes, n)[q],
            ),
    decreases n,
{
    let all = keys_written(keys, map, changes, n);
    if n > 0 {
        law_keys_written(keys, map, changes, n - 1);
        let earlier = keys_written(keys, map, changes, n - 1);
        let before = written(map, changes, n - 1);
        let key = changes[n - 1].0;
        let adds = setting_of(changes[n - 1].1) is Some && !before.contains_key(key);
        assert(adds ==> all == earlier.push(key));
        assert(!adds ==> all == earlier);
        assert forall|other: Seq<char>| #[trigger] all.contains(other) <==> written(
            map,
            changes,
            n,
        ).contains_key(other) by {
            assert(earlier.contains(other) <==> before.contains_key(other));
            if adds {
                assert(all[earlier.len() as int] == key);
                if earlier.contains(other) {
                    assert(all[earlier.index_of(other)] == other);
                }
                if all.contains(other) && other != key {
                    assert(earlier[all.index_of(other)] == other);
                }
            }
        }
        assert(all.no_duplicates()) by {
            assert(adds ==> !earlier.contains(key));
        }
        assert forall|p: int| keys.len() <= p < all.len() implies is_stored_by(
            changes,
            n,
            #[trigger] all[p],
        ) by {
            if p < earlier.len() {
                assert(is_stored_by(changes, n - 1, earlier[p]));
                let i = choose|i: int| i < n - 1 && #[trigger] stores_under(changes, i, all[p]);
                assert(stores_under(changes, i, all[p]));
            } else {
                assert(stores_under(changes, n - 1, all[p]));
            }
        }
        assert forall|p: int, q: int| keys.len() <= p < q < all.len() implies is_stored_first(
            changes,
            n,
            #[trigger] all[p],
            #[trigger] all[q],
        ) by {
            if q < earlier.len() {
                assert(is_stored_first(changes, n - 1, earlier[p], earlier[q]));
                let i = choose|i: int|
                    i < n - 1 && #[trigger] stores_under(changes, i, all[p]) && forall|j: int|
                        j <= i ==> !#[trigger] stores_under(changes, j, all[q]);
                assert(stores_under(changes, i, all[p]));
            } else {
                assert(is_stored_by(changes, n - 1, earlier[p]));
                let i = choose|i: int| i < n - 1 && #[trigger] stores_under(changes, i, all[p]);
                assert(stores_under(changes, i, all[p]));
                assert forall|j: int| j <= i implies !#[trigger] stores_under(
                    changes,
                    j,
                    all[q],
                ) by {
                    if stores_under(changes, j, all[q]) {
                        lemma_written_keys(map, changes, key, j, n - 1);
                    }
                }
            }
        }
    }
}

/// Changes are looked at as their keys and new values, one for each, in order.
pub proof fn law_change_views(changes: Seq<(String, SettingRowValue)>)
    ensures
        change_views(changes).len() == changes.len(),
        forall|i: int|
            0 <= i < changes.len() ==> {
                &&& (#[trigger] change_views(changes)[i]).0 == changes[i].0@
                &&& change_views(changes)[i].1 == changes[i].1@
            },
{
}

/// A change starts from what is stored, and from nothing if nothing is.
pub proof fn law_or_empty(map: Option<Map<Seq<char>, SettingValueModel>>, key: Seq<char>)
    ensures
        or_empty(map).contains_key(key) <==> (map matches Some(m) && m.contains_key(key)),
        map matches Some(m) ==> or_empty(map) == m,
{
}

} // verus!
