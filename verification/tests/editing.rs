//! Edits in the rows, what they store, and syncs.

use autosplitter_editor::edits::{changed_rows, write_changes};
use autosplitter_editor::rows::{SettingRow, SettingRowValue};
use autosplitter_editor::settings::{
    ChoiceOption, FileFilter, SettingValue, SettingsMap, SettingsWidget, WidgetKind,
};
use autosplitter_editor::state::State;
use autosplitter_editor::sync::{FrameRequests, SyncController};
use autosplitter_editor::values::ValueEditor;

fn widget(key: &str, kind: WidgetKind) -> SettingsWidget {
    SettingsWidget {
        key: key.to_string(),
        description: format!("about {key}"),
        tooltip: None,
        kind,
    }
}

fn options(keys: &[&str]) -> Vec<ChoiceOption> {
    keys.iter()
        .map(|key| ChoiceOption {
            key: key.to_string(),
            description: format!("option {key}"),
        })
        .collect()
}

/// A title, a switch, a choice and a file.
fn widgets() -> Vec<SettingsWidget> {
    vec![
        widget("title", WidgetKind::Title { heading_level: 0 }),
        widget("switch", WidgetKind::Bool { default_value: false }),
        widget(
            "choice",
            WidgetKind::Choice {
                default_option_key: "x".to_string(),
                options: options(&["x", "y", "z"]),
            },
        ),
        widget(
            "file",
            WidgetKind::FileSelect {
                filters: vec![FileFilter::MimeType("text/plain".to_string())],
            },
        ),
    ]
}

fn text(value: &str) -> SettingValue {
    SettingValue::String(value.to_string())
}

fn entries(map: &SettingsMap) -> Vec<(String, String)> {
    (0..map.len())
        .map(|i| {
            let (key, value) = map.entry(i);
            (key.clone(), format!("{:?}", value))
        })
        .collect()
}

fn edit(state: &State, change: impl Fn(&mut Vec<SettingRow>)) -> Vec<SettingRow> {
    let mut rows = state.rows_to_edit();
    change(&mut rows);
    rows
}

#[test]
fn editor_opens_on_the_settings() {
    let state = State::new(Some(&widgets()), None);
    assert_eq!(state.data_len(), 4);
    assert!(!state.closed_with_ok);
    assert_eq!(state.row(1).value, SettingRowValue::Bool(false));
    let empty = State::new(None, None);
    assert_eq!(empty.data_len(), 0);
}

#[test]
fn editor_is_closed_with_ok() {
    let mut state = State::new(Some(&widgets()), None);
    let rows = state.rows_to_edit();
    state.accept();
    assert!(state.closed_with_ok);
    assert_eq!(state.rows, rows);
}

#[test]
fn no_edit_stores_nothing() {
    let mut state = State::new(Some(&widgets()), None);
    let rows = state.rows_to_edit();
    assert!(state.apply_edits(rows.clone(), None).is_none());
    assert_eq!(state.rows, rows);
}

#[test]
fn edits_of_other_fields_are_dropped() {
    let mut state = State::new(Some(&widgets()), None);
    let rows = state.rows_to_edit();
    let edited = edit(&state, |rows| rows[1].description = "other".to_string());
    assert!(state.apply_edits(edited, None).is_none());
    assert_eq!(state.rows, rows);
}

#[test]
fn every_kind_of_edit_is_stored() {
    let mut state = State::new(Some(&widgets()), None);
    let edited = edit(&state, |rows| {
        rows[3].file_selected(Some("/tmp/a.txt".to_string()));
        rows[2].choose_option(2);
        rows[1].set_switch(true);
    });
    let map = state.apply_edits(edited.clone(), None).unwrap();
    assert_eq!(
        entries(&map),
        vec![
            ("switch".to_string(), "Bool(true)".to_string()),
            ("choice".to_string(), "String(\"z\")".to_string()),
            ("file".to_string(), "String(\"/tmp/a.txt\")".to_string()),
        ]
    );
    assert_eq!(state.rows, edited);
}

#[test]
fn other_settings_stay() {
    let mut stored = SettingsMap::new();
    stored.insert("number".to_string(), SettingValue::Other(3));
    stored.insert("choice".to_string(), text("y"));
    let mut state = State::new(Some(&widgets()), Some(&stored));
    assert_eq!(state.row(2).chosen(), 1);
    let edited = edit(&state, |rows| rows[1].set_switch(true));
    let map = state.apply_edits(edited, Some(stored)).unwrap();
    assert_eq!(
        entries(&map),
        vec![
            ("number".to_string(), "Other(3)".to_string()),
            ("choice".to_string(), "String(\"y\")".to_string()),
            ("switch".to_string(), "Bool(true)".to_string()),
        ]
    );
}

#[test]
fn titles_and_missing_options_store_nothing() {
    let mut state = State::new(Some(&widgets()), None);
    let edited = edit(&state, |rows| {
        rows[0].value = SettingRowValue::Title { heading_level: 5 };
        rows[2].value = SettingRowValue::Choice {
            current: 3,
            options: options(&["x", "y", "z"]),
        };
    });
    let map = state.apply_edits(edited.clone(), None).unwrap();
    assert_eq!(map.len(), 0);
    assert_eq!(state.rows, edited);
    assert_eq!(SettingRowValue::Title { heading_level: 5 }.setting(), None);
    assert_eq!(
        SettingRowValue::Choice { current: 0, options: vec![] }.setting(),
        None
    );
}

#[test]
fn sync_does_not_overwrite_edits() {
    let mut state = State::new(Some(&widgets()), None);
    let edited = edit(&state, |rows| {
        rows[1].set_switch(true);
        rows[2].choose_option(1);
        rows[3].file_selected(Some("b.txt".to_string()));
    });
    let map = state.apply_edits(edited.clone(), None).unwrap();
    assert!(!state.sync_from_runtime(Some(&widgets()), Some(&map)));
    assert_eq!(state.rows, edited);
}

#[test]
fn settings_that_share_a_key_change_together() {
    let twice = || {
        vec![
            widget("a", WidgetKind::Bool { default_value: false }),
            widget("a", WidgetKind::Bool { default_value: false }),
        ]
    };
    let mut state = State::new(Some(&twice()), None);
    let edited = edit(&state, |rows| rows[0].set_switch(true));
    let map = state.apply_edits(edited, None).unwrap();
    assert!(state.sync_from_runtime(Some(&twice()), Some(&map)));
    assert_eq!(state.row(0).value, SettingRowValue::Bool(true));
    assert_eq!(state.row(1).value, SettingRowValue::Bool(true));
}

#[test]
fn options_that_share_a_key_show_as_the_first() {
    let twice = || {
        vec![widget(
            "a",
            WidgetKind::Choice {
                default_option_key: "x".to_string(),
                options: options(&["x", "y", "y"]),
            },
        )]
    };
    let mut state = State::new(Some(&twice()), None);
    let edited = edit(&state, |rows| rows[0].choose_option(2));
    let map = state.apply_edits(edited, None).unwrap();
    assert!(state.sync_from_runtime(Some(&twice()), Some(&map)));
    assert_eq!(state.row(0).chosen(), 1);
}

#[test]
fn last_change_under_a_key_counts() {
    let mut state = State::new(
        Some(&vec![
            widget("a", WidgetKind::Bool { default_value: false }),
            widget("a", WidgetKind::FileSelect { filters: vec![] }),
        ]),
        None,
    );
    let edited = edit(&state, |rows| {
        rows[0].set_switch(true);
        rows[1].file_selected(Some("f".to_string()));
    });
    let map = state.apply_edits(edited, None).unwrap();
    assert_eq!(map.get(&"a".to_string()), Some(&text("f")));
}

#[test]
fn sync_tells_whether_anything_changed() {
    let mut state = State::new(Some(&widgets()), None);
    state.accept();
    assert!(!state.sync_from_runtime(Some(&widgets()), None));
    let mut stored = SettingsMap::new();
    stored.insert("switch".to_string(), SettingValue::Bool(true));
    assert!(state.sync_from_runtime(Some(&widgets()), Some(&stored)));
    assert_eq!(state.row(1).value, SettingRowValue::Bool(true));
    assert!(!state.sync_from_runtime(Some(&widgets()), Some(&stored)));
    assert!(state.closed_with_ok);
    assert!(state.sync_from_runtime(None, Some(&stored)));
    assert_eq!(state.data_len(), 0);
}

#[test]
fn every_frame_asks_for_another_one() {
    let mut state = State::new(Some(&widgets()), None);
    assert_eq!(
        SyncController.widget_added(),
        FrameRequests { update: false, anim_frame: true }
    );
    assert_eq!(
        SyncController.anim_frame(&mut state, Some(&widgets()), None),
        FrameRequests { update: false, anim_frame: true }
    );
    assert_eq!(
        SyncController.anim_frame(&mut state, None, None),
        FrameRequests { update: true, anim_frame: true }
    );
    assert_eq!(state.data_len(), 0);
}

#[test]
fn changes_are_listed_with_their_new_keys() {
    let state = State::new(Some(&widgets()), None);
    let edited = edit(&state, |rows| {
        rows[1].set_switch(true);
        rows[1].key = "renamed".to_string();
        rows[2].key = "not listed".to_string();
    });
    let changed = changed_rows(&state.rows, &edited);
    assert_eq!(
        changed,
        vec![("renamed".to_string(), SettingRowValue::Bool(true))]
    );
    let map = write_changes(SettingsMap::new(), &changed);
    assert_eq!(map.get(&"renamed".to_string()), Some(&SettingValue::Bool(true)));
    assert_eq!(map.len(), 1);
}

#[test]
fn rows_have_the_right_editors() {
    let state = State::new(Some(&widgets()), None);
    let editors: Vec<ValueEditor> = state.rows.iter().map(|row| row.value_editor()).collect();
    assert_eq!(
        editors,
        vec![
            ValueEditor::Empty,
            ValueEditor::Switch,
            ValueEditor::ComboBox,
            ValueEditor::FileButton
        ]
    );
    let titles: Vec<bool> = state.rows.iter().map(|row| row.is_title()).collect();
    assert_eq!(titles, vec![true, false, false, false]);
}

#[test]
fn shades_alternate() {
    let state = State::new(Some(&widgets()), None);
    let shades: Vec<u8> = state.rows.iter().map(|row| row.shade()).collect();
    assert_eq!(shades, vec![0x20, 0x0b, 0x14, 0x0b]);
}

#[test]
fn switch_reads_what_it_wrote() {
    let state = State::new(Some(&widgets()), None);
    let mut row = state.row(1).clone();
    assert!(!row.switch_on());
    row.set_switch(true);
    assert!(row.switch_on());
    row.set_switch(false);
    assert!(!row.switch_on());
    assert!(!state.row(0).switch_on());
}

#[test]
fn choice_reads_what_it_wrote() {
    let state = State::new(Some(&widgets()), None);
    let mut row = state.row(2).clone();
    row.choose_option(2);
    assert_eq!(row.chosen(), 2);
    row.choose_option(3);
    assert_eq!(row.chosen(), 2);
    let mut other = state.row(1).clone();
    other.choose_option(1);
    assert_eq!(other, *state.row(1));
    assert_eq!(other.chosen(), 0);
}

#[test]
fn options_are_labelled_by_their_description() {
    assert_eq!(options(&["x"])[0].label(), "option x");
}

#[test]
fn cancelled_dialog_changes_nothing() {
    let state = State::new(Some(&widgets()), None);
    let mut row = state.row(3).clone();
    row.file_selected(None);
    assert_eq!(row, *state.row(3));
    let mut other = state.row(1).clone();
    other.file_selected(Some("a".to_string()));
    assert_eq!(other, *state.row(1));
}

#[test]
fn cloned_state_is_independent() {
    let state = State::new(Some(&widgets()), None);
    let mut copy = state.clone();
    copy.accept();
    assert_eq!(copy.rows, state.rows);
    assert!(!state.closed_with_ok);
}

#[test]
fn edit_is_stored_unless_a_later_one_stores_something() {
    let shared = || {
        vec![
            widget("a", WidgetKind::Bool { default_value: false }),
            widget("a", WidgetKind::FileSelect { filters: vec![] }),
            widget(
                "a",
                WidgetKind::Choice {
                    default_option_key: "x".to_string(),
                    options: options(&["x"]),
                },
            ),
        ]
    };
    let mut state = State::new(Some(&shared()), None);
    let edited = edit(&state, |rows| {
        rows[0].set_switch(true);
        rows[1].file_selected(Some("f".to_string()));
        // An option that is not there stores nothing.
        rows[2].value = SettingRowValue::Choice {
            current: 4,
            options: options(&["x"]),
        };
    });
    let map = state.apply_edits(edited, None).unwrap();
    assert_eq!(map.get(&"a".to_string()), Some(&text("f")));
}
