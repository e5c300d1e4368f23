//! The rows that are built from the settings of an auto splitter.

use autosplitter_editor::listing::Same;
use autosplitter_editor::rows::{
    build_rows, can_indent, option_position, row_value, SettingRow, SettingRowValue,
};
use autosplitter_editor::settings::{
    ChoiceOption, FileFilter, SettingValue, SettingsMap, SettingsWidget, WidgetKind,
};

fn widget(key: &str, kind: WidgetKind) -> SettingsWidget {
    SettingsWidget {
        key: key.to_string(),
        description: format!("about {key}"),
        tooltip: None,
        kind,
    }
}

fn title(key: &str, heading_level: u32) -> SettingsWidget {
    widget(key, WidgetKind::Title { heading_level })
}

fn switch(key: &str, default_value: bool) -> SettingsWidget {
    widget(key, WidgetKind::Bool { default_value })
}

fn options(keys: &[&str]) -> Vec<ChoiceOption> {
    keys.iter()
        .map(|key| ChoiceOption {
            key: key.to_string(),
            description: format!("option {key}"),
        })
        .collect()
}

fn choice(key: &str, default: &str, keys: &[&str]) -> SettingsWidget {
    widget(
        key,
        WidgetKind::Choice {
            default_option_key: default.to_string(),
            options: options(keys),
        },
    )
}

fn filters() -> Vec<FileFilter> {
    vec![
        FileFilter::Name {
            description: Some("Texts".to_string()),
            pattern: "*.txt".to_string(),
        },
        FileFilter::MimeType("image/png".to_string()),
    ]
}

fn map(entries: Vec<(&str, SettingValue)>) -> SettingsMap {
    let mut map = SettingsMap::new();
    for (key, value) in entries {
        map.insert(key.to_string(), value);
    }
    map
}

fn text(value: &str) -> SettingValue {
    SettingValue::String(value.to_string())
}

#[test]
fn no_widgets_no_rows() {
    assert_eq!(build_rows(&vec![], None), vec![]);
}

#[test]
fn rows_copy_what_is_shown() {
    let mut shown = switch("a", true);
    shown.tooltip = Some("more about a".to_string());
    let rows = build_rows(&vec![title("t", 2), shown], None);
    assert_eq!(
        rows,
        vec![
            SettingRow {
                index: 0,
                key: "t".to_string(),
                description: "about t".to_string(),
                tooltip: None,
                value: SettingRowValue::Title { heading_level: 2 },
                indent_level: 2,
            },
            SettingRow {
                index: 1,
                key: "a".to_string(),
                description: "about a".to_string(),
                tooltip: Some("more about a".to_string()),
                value: SettingRowValue::Bool(true),
                indent_level: 3,
            },
        ]
    );
}

#[test]
fn indentation_follows_the_last_title() {
    let widgets = vec![
        switch("a", false),
        title("t", 0),
        switch("b", false),
        title("u", 3),
        choice("c", "x", &["x"]),
        widget("d", WidgetKind::FileSelect { filters: vec![] }),
        title("v", 1),
        switch("e", false),
    ];
    let levels: Vec<u32> = build_rows(&widgets, None)
        .iter()
        .map(|row| row.indent_level)
        .collect();
    assert_eq!(levels, vec![0, 0, 1, 3, 4, 4, 1, 2]);
}

#[test]
fn deepest_title_cannot_be_indented_under() {
    assert!(can_indent(&vec![title("t", u32::MAX)]));
    assert!(can_indent(&vec![
        title("t", u32::MAX),
        title("u", 0),
        switch("a", true)
    ]));
    assert!(can_indent(&vec![title("t", u32::MAX - 1), switch("a", true)]));
    assert!(!can_indent(&vec![title("t", u32::MAX), switch("a", true)]));
    let rows = build_rows(&vec![title("t", u32::MAX - 1), switch("a", true)], None);
    assert_eq!(rows[1].indent_level, u32::MAX);
}

#[test]
fn stored_bool_counts_if_it_is_one() {
    let widgets = vec![switch("a", true), switch("b", true), switch("c", true), switch("d", false)];
    let stored = map(vec![
        ("a", SettingValue::Bool(false)),
        ("b", text("false")),
        ("d", SettingValue::Other(1)),
    ]);
    let rows = build_rows(&widgets, Some(&stored));
    assert_eq!(rows[0].value, SettingRowValue::Bool(false));
    assert_eq!(rows[1].value, SettingRowValue::Bool(true));
    assert_eq!(rows[2].value, SettingRowValue::Bool(true));
    assert_eq!(rows[3].value, SettingRowValue::Bool(false));
}

#[test]
fn stored_choice_is_found_by_its_key() {
    let widgets = vec![
        choice("stored", "x", &["x", "y", "z"]),
        choice("default", "z", &["x", "y", "z"]),
        choice("wrong type", "y", &["x", "y", "z"]),
        choice("unknown", "y", &["x", "y", "z"]),
        choice("unknown default", "w", &["x", "y", "z"]),
        choice("twice", "x", &["x", "y", "y"]),
        choice("empty", "x", &[]),
    ];
    let stored = map(vec![
        ("stored", text("y")),
        ("wrong type", SettingValue::Bool(true)),
        ("unknown", text("w")),
        ("twice", text("y")),
        ("empty", text("x")),
    ]);
    let chosen: Vec<usize> = build_rows(&widgets, Some(&stored))
        .iter()
        .map(|row| row.chosen())
        .collect();
    assert_eq!(chosen, vec![1, 2, 1, 0, 0, 1, 0]);
    assert_eq!(
        build_rows(&widgets, None)[0].value,
        SettingRowValue::Choice {
            current: 0,
            options: options(&["x", "y", "z"]),
        }
    );
}

#[test]
fn stored_path_is_shown() {
    let widgets = vec![
        widget("a", WidgetKind::FileSelect { filters: filters() }),
        widget("b", WidgetKind::FileSelect { filters: filters() }),
        widget("c", WidgetKind::FileSelect { filters: vec![] }),
    ];
    let stored = map(vec![("a", text("/tmp/a.txt")), ("b", SettingValue::Bool(true))]);
    let rows = build_rows(&widgets, Some(&stored));
    assert_eq!(
        rows[0].value,
        SettingRowValue::FileSelect {
            path: "/tmp/a.txt".to_string(),
            filters: filters(),
        }
    );
    assert_eq!(
        rows[1].value,
        SettingRowValue::FileSelect {
            path: String::new(),
            filters: filters(),
        }
    );
    assert_eq!(
        rows[2].value,
        SettingRowValue::FileSelect {
            path: String::new(),
            filters: vec![],
        }
    );
}

#[test]
fn titles_ignore_what_is_stored() {
    assert_eq!(
        row_value(&WidgetKind::Title { heading_level: 7 }, Some(&text("x"))),
        SettingRowValue::Title { heading_level: 7 }
    );
}

#[test]
fn first_option_with_the_key_is_found() {
    let found = options(&["a", "b", "b"]);
    assert_eq!(option_position(&found, &"b".to_string()), 1);
    assert_eq!(option_position(&found, &"a".to_string()), 0);
    assert_eq!(option_position(&found, &"c".to_string()), 0);
    assert_eq!(option_position(&vec![], &"a".to_string()), 0);
}

#[test]
fn choices_are_always_in_range() {
    let kind = choice("c", "b", &["a", "b"]).kind;
    for stored in [text("a"), text("b"), text("c"), SettingValue::Other(9)] {
        match row_value(&kind, Some(&stored)) {
            SettingRowValue::Choice { current, options } => assert!(current < options.len()),
            other => panic!("{:?}", other),
        }
    }
}

#[test]
fn options_are_the_same_if_key_and_description_are() {
    let a = &options(&["a"])[0];
    let mut b = a.clone();
    assert!(a.same(&b));
    b.description = "other".to_string();
    assert!(!a.same(&b));
    b = a.clone();
    b.key = "other".to_string();
    assert!(!a.same(&b));
}

#[test]
fn filters_are_the_same_if_all_of_them_is() {
    let all = filters();
    assert!(all[0].same(&all[0].clone()));
    assert!(all[1].same(&all[1].clone()));
    assert!(!all[0].same(&all[1]));
    assert!(!all[0].same(&FileFilter::Name {
        description: None,
        pattern: "*.txt".to_string(),
    }));
    assert!(!all[1].same(&FileFilter::MimeType("image/jpeg".to_string())));
}

#[test]
fn rows_differ_in_any_field() {
    let row = build_rows(&vec![switch("a", true)], None).remove(0);
    assert_eq!(row, row.clone());
    let mut other = row.clone();
    other.index = 5;
    assert_ne!(row, other);
    let mut other = row.clone();
    other.key = "b".to_string();
    assert_ne!(row, other);
    let mut other = row.clone();
    other.description = "b".to_string();
    assert_ne!(row, other);
    let mut other = row.clone();
    other.tooltip = Some(String::new());
    assert_ne!(row, other);
    let mut other = row.clone();
    other.value = SettingRowValue::Bool(false);
    assert_ne!(row, other);
    let mut other = row.clone();
    other.indent_level = 1;
    assert_ne!(row, other);
}

#[test]
fn map_keeps_the_first_place_and_the_last_value() {
    let mut map = map(vec![
        ("b", SettingValue::Bool(true)),
        ("a", text("x")),
        ("c", SettingValue::Other(4)),
    ]);
    map.insert("b".to_string(), text("y"));
    assert_eq!(map.len(), 3);
    assert_eq!(map.entry(0), (&"b".to_string(), &text("y")));
    assert_eq!(map.entry(1), (&"a".to_string(), &text("x")));
    assert_eq!(map.entry(2), (&"c".to_string(), &SettingValue::Other(4)));
    assert_eq!(map.get(&"a".to_string()), Some(&text("x")));
    assert_eq!(map.get(&"d".to_string()), None);
}
