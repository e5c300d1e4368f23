//! The state of the editor.

use vstd::prelude::*;

use crate::edits::{
    changed_rows, changes_between, keys_written, or_empty, settings_after, write_changes,
};
use crate::listing::{all_same, views};
use crate::rows::{build_rows, indents_fit, map_view, rows_of, RowModel, SettingRow};
use crate::settings::{SettingValueModel, SettingsMap, SettingsWidget, WidgetModel};

verus! {

/// What the editor shows and how it was closed.
#[derive(Debug)]
pub struct State {
    pub rows: Vec<SettingRow>,
    pub closed_with_ok: bool,
}

#[verifier::ext_equal]
pub struct StateModel {
    pub rows: Seq<RowModel>,
    pub closed_with_ok: bool,
}

impl View for State {
    type V = StateModel;

    open spec fn view(&self) -> StateModel {
        StateModel { rows: views(self.rows@), closed_with_ok: self.closed_with_ok }
    }
}

impl Clone for State {
    fn clone(&self) -> (r: Self)
        ensures
            r@ == self@,
    {
        State { rows: self.rows_to_edit(), closed_with_ok: self.closed_with_ok }
    }
}

/// The widgets that an auto splitter offers. One that is not loaded offers none.
pub open spec fn offered(widgets: Option<&Vec<SettingsWidget>>) -> Seq<WidgetModel> {
    match widgets {
        Some(w) => views(w@),
        None => Seq::empty(),
    }
}

/// The view of an optional map that is handed over.
pub open spec fn owned_map_view(map: Option<SettingsMap>) -> Option<
    Map<Seq<char>, SettingValueModel>,
> {
    match map {
        Some(m) => Some(m@),
        None => None,
    }
}

/// The order of the keys in the stored settings from which a change starts.
pub open spec fn base_keys(map: Option<SettingsMap>) -> Seq<Seq<char>> {
    match map {
        Some(m) => m.keys(),
        None => Seq::empty(),
    }
}

/// The state after it has been synced with the settings.
pub open spec fn after_sync(
    state: StateModel,
    widgets: Seq<WidgetModel>,
    map: Option<Map<Seq<char>, SettingValueModel>>,
) -> StateModel {
    StateModel { rows: rows_of(widgets, map), closed_with_ok: state.closed_with_ok }
}

fn current_rows(
    widgets: Option<&Vec<SettingsWidget>>,
    settings_map: Option<&SettingsMap>,
) -> (rows: Vec<SettingRow>)
    requires
        indents_fit(offered(widgets)),
    ensures
        views(rows@) == rows_of(offered(widgets), map_view(settings_map)),
{
    match widgets {
        Some(w) => build_rows(w, settings_map),
        None => {
            let rows: Vec<SettingRow> = Vec::new();
            assert(views(rows@) =~= rows_of(offered(widgets), map_view(settings_map)));
            rows
        },
    }
}

impl State {
    /// The state of an editor that has just been opened on the settings of an
    /// auto splitter.
    pub fn new(
        widgets: Option<&Vec<SettingsWidget>>,
        settings_map: Option<&SettingsMap>,
    ) -> (r: Self)
        requires
            indents_fit(offered(widgets)),
        ensures
            r@.rows == rows_of(offered(widgets), map_view(settings_map)),
            !r@.closed_with_ok,
    {
        State { rows: current_rows(widgets, settings_map), closed_with_ok: false }
    }

    /// Sync UI state with the runtime's current settings.
    /// Returns true if the state was updated.
    pub fn sync_from_runtime(
        &mut self,
        widgets: Option<&Vec<SettingsWidget>>,
        settings_map: Option<&SettingsMap>,
    ) -> (updated: bool)
        requires
            indents_fit(offered(widgets)),
        ensures
            final(self)@ == after_sync(old(self)@, offered(widgets), map_view(settings_map)),
            updated == (final(self)@ != old(self)@),
    {
        let new_rows = current_rows(widgets, settings_map);
        if !all_same(&self.rows, &new_rows) {
            self.rows = new_rows;
            true
        } else {
            false
        }
    }

    /// Takes over the rows as they are after an edit. If the value of a row has
    /// changed, returns the settings that are to be stored from now on, so that
    /// the next sync does not undo the edit. If none has, the state stays as it
    /// was.
    pub fn apply_edits(
        &mut self,
        edited: Vec<SettingRow>,
        settings_map: Option<SettingsMap>,
    ) -> (r: Option<SettingsMap>)
        requires
            edited.len() == old(self)@.rows.len(),
        ensures
            final(self)@.closed_with_ok == old(self)@.closed_with_ok,
            ({
                let changes = changes_between(old(self)@.rows, views(edited@), edited.len() as int);
                match r {
                    Some(map) => {
                        &&& changes.len() > 0
                        &&& map@ == settings_after(
                            owned_map_view(settings_map),
                            old(self)@.rows,
                            views(edited@),
                        )
                        &&& map.keys() == keys_written(
                            base_keys(settings_map),
                            or_empty(owned_map_view(settings_map)),
                            changes,
                            changes.len() as int,
                        )
                        &&& final(self)@.rows == views(edited@)
                    },
                    None => changes.len() == 0 && final(self)@.rows == old(self)@.rows,
                }
            }),
    {
        let changed = changed_rows(&self.rows, &edited);
        if changed.len() == 0 {
            return None;
        }
        let map = match settings_map {
            Some(m) => m,
            None => SettingsMap::new(),
        };
        let new_map = write_changes(map, &changed);
        self.rows = edited;
        Some(new_map)
    }

    /// The number of rows.
    pub fn data_len(&self) -> (r: usize)
        ensures
            r == self@.rows.len(),
    {
        self.rows.len()
    }

    /// The row at a position.
    pub fn row(&self, index: usize) -> (r: &SettingRow)
        requires
            index < self@.rows.len(),
        ensures
            r@ == self@.rows[index as int],
    {
        &self.rows[index]
    }

    /// A copy of the rows, to be edited.
    pub fn rows_to_edit(&self) -> (r: Vec<SettingRow>)
        ensures
            views(r@) == self@.rows,
    {
        let copied = self.rows.clone();
        assert(views(copied@) =~= views(self.rows@));
        copied
    }

    /// Notes that the editor is being closed with OK.
    pub fn accept(&mut self)
        ensures
            final(self)@.rows == old(self)@.rows,
            final(self)@.closed_with_ok,
    {
        self.closed_with_ok = true;
    }
}

/// The state of the editor is its rows and how it was closed.
pub proof fn law_state_view(state: State)
    ensures
        state@.closed_with_ok == state.closed_with_ok,
        state@.rows.len() == state.rows@.len(),
        forall|i: int|
            0 <= i < state.rows@.len() ==> #[trigger] state@.rows[i] == state.rows@[i]@,
{
}

/// An auto splitter that is loaded offers its widgets, in order. One that is
/// not offers none.
pub proof fn law_offered(widgets: Option<&Vec<SettingsWidget>>)
    ensures
        match widgets {
            Some(w) => {
                &&& offered(widgets).len() == w@.len()
                &&& forall|i: int|
                    0 <= i < w@.len() ==> #[trigger] offered(widgets)[i] == w@[i]@
            },
            None => offered(widgets).len() == 0,
        },
{
}

/// Stored settings that are handed over are looked at as they are.
pub proof fn law_owned_map(map: Option<SettingsMap>)
    ensures
        owned_map_view(map) is Some <==> map is Some,
        map matches Some(m) ==> owned_map_view(map) == Some(m@) && base_keys(map) == m.keys(),
        map is None ==> base_keys(map).len() == 0,
{
}

/// After a sync the editor shows what one that is newly opened on the same
/// widgets and stored settings shows, whatever it showed before. How it is
/// being closed does not change.
pub proof fn law_sync_shows_the_settings(
    state: StateModel,
    widgets: Seq<WidgetModel>,
    map: Option<Map<Seq<char>, SettingValueModel>>,
)
    ensures
        after_sync(state, widgets, map).rows == rows_of(widgets, map),
        after_sync(state, widgets, map).closed_with_ok == state.closed_with_ok,
{
}

} // verus!
