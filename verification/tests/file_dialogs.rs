//! The button and the dialog of a file select setting.

use autosplitter_editor::dialog::{
    collect_extensions, dialog_answer, dialog_request, extensions_of_mime, extensions_of_pattern, prepare_dialog,
};
use autosplitter_editor::rows::{SettingRow, SettingRowValue};
use autosplitter_editor::settings::FileFilter;
use autosplitter_editor::values::label_for;
use autosplitter_editor::words::{characters, split_words};

fn name(pattern: &str) -> FileFilter {
    FileFilter::Name {
        description: None,
        pattern: pattern.to_string(),
    }
}

fn mime(mime: &str) -> FileFilter {
    FileFilter::MimeType(mime.to_string())
}

fn row(path: &str) -> SettingRow {
    SettingRow {
        index: 0,
        key: "key".to_string(),
        description: String::new(),
        tooltip: None,
        value: SettingRowValue::FileSelect {
            path: path.to_string(),
            filters: vec![],
        },
        indent_level: 0,
    }
}

#[test]
fn patterns_give_their_extensions() {
    assert_eq!(
        extensions_of_pattern(&"*.txt *.log".to_string()),
        vec!["txt", "log"]
    );
    assert_eq!(
        extensions_of_pattern(&"  *.tar.gz\t*.*\n*. readme *txt .md".to_string()),
        vec!["tar.gz", "*", ""]
    );
    assert!(extensions_of_pattern(&String::new()).is_empty());
    assert_eq!(extensions_of_pattern(&"*.ä".to_string()), vec!["ä"]);
    assert_eq!(extensions_of_pattern(&"**.a a*.b".to_string()), Vec::<String>::new());
}

#[test]
fn common_mime_types_give_their_extensions() {
    let of = |mime: &str| extensions_of_mime(&mime.to_string());
    assert_eq!(of("image/*"), vec!["png", "jpg", "jpeg", "gif", "bmp", "webp"]);
    assert_eq!(of("image/png"), vec!["png"]);
    assert_eq!(of("image/jpeg"), vec!["jpg", "jpeg"]);
    assert_eq!(of("text/*"), vec!["txt", "log", "md"]);
    assert_eq!(of("text/plain"), vec!["txt"]);
    assert_eq!(of("application/json"), vec!["json"]);
    assert_eq!(of("application/xml"), vec!["xml"]);
    assert!(of("image/gif").is_empty());
    assert!(of("").is_empty());
}

#[test]
fn extensions_occur_once_in_order() {
    assert_eq!(
        collect_extensions(&vec![
            name("*.log *.png *.log"),
            mime("image/jpeg"),
            mime("image/*"),
            mime("video/*"),
            name("*.txt *.jpg"),
        ]),
        vec!["log", "png", "jpg", "jpeg", "gif", "bmp", "webp", "txt"]
    );
    assert!(collect_extensions(&vec![]).is_empty());
}

#[test]
fn words_are_separated_by_unicode_white_space() {
    let white: Vec<u32> = (0x09..=0x0d)
        .chain([0x20, 0x85, 0xa0, 0x1680])
        .chain(0x2000..=0x200a)
        .chain([0x2028, 0x2029, 0x202f, 0x205f, 0x3000])
        .collect();
    for code in 0..=0x10ffff {
        if let Some(c) = char::from_u32(code) {
            let words = split_words(&format!("a{c}b"));
            assert_eq!(words.len(), if white.contains(&code) { 2 } else { 1 }, "{:x}", code);
        }
    }
}

#[test]
fn words_are_maximal_and_not_empty() {
    assert_eq!(split_words(" ab  c\u{3000}d "), vec!["ab", "c", "d"]);
    assert!(split_words("").is_empty());
    assert!(split_words(" \t").is_empty());
    assert_eq!(split_words("x"), vec!["x"]);
    assert_eq!(characters("aß"), vec!['a', 'ß']);
}

#[test]
fn button_shows_the_file_name() {
    assert_eq!(row("").file_label(), "Browse...");
    assert_eq!(row("/usr/bin/tool").file_label(), "tool");
    assert_eq!(row("tmp/foo.txt").file_label(), "foo.txt");
    assert_eq!(row("foo.txt").file_label(), "foo.txt");
    assert_eq!(row("/usr/bin/").file_label(), "bin");
    assert_eq!(row("foo.txt/.").file_label(), "foo.txt");
    assert_eq!(row("a//b").file_label(), "b");
    assert_eq!(row("a/b ä.txt").file_label(), "b ä.txt");
}

#[test]
fn button_shows_the_path_without_a_file_name() {
    assert_eq!(row("/").file_label(), "/");
    assert_eq!(row("foo.txt/..").file_label(), "foo.txt/..");
    assert_eq!(row("..").file_label(), "..");
    assert_eq!(row(".").file_label(), ".");
}

#[test]
fn other_rows_have_no_file_name() {
    let mut other = row("/a/b");
    other.value = SettingRowValue::Bool(true);
    assert_eq!(other.file_label(), "Browse...");
    assert_eq!(other.start_dir(), None);
}

#[test]
fn label_follows_from_path_and_name() {
    let path = "some/path".to_string();
    assert_eq!(label_for(&path, Some("path".to_string())), "path");
    assert_eq!(label_for(&path, None), "some/path");
    assert_eq!(label_for(&String::new(), Some("x".to_string())), "Browse...");
    assert_eq!(label_for(&String::new(), None), "Browse...");
}

#[test]
fn dialog_starts_where_the_file_is() {
    let dir = |path: &str| row(path).start_dir();
    assert_eq!(dir(""), None);
    assert_eq!(dir("/"), None);
    assert_eq!(dir("/foo/bar"), Some("/foo".to_string()));
    assert_eq!(dir("/foo"), Some("/".to_string()));
    assert_eq!(dir("foo/bar"), Some("foo".to_string()));
    assert_eq!(dir("foo"), Some(String::new()));
    assert_eq!(dir("a/b/"), Some("a".to_string()));
    assert_eq!(dir("a/.."), Some("a".to_string()));
    assert_eq!(dir("."), Some(String::new()));
}

#[test]
fn dialog_is_requested_with_the_filters() {
    let request = row("/foo/bar.txt").file_dialog(&vec![name("*.txt"), mime("text/*")]);
    assert_eq!(request.extensions, vec!["txt", "log", "md"]);
    assert_eq!(request.location, Some("/foo".to_string()));
    let request = row("").file_dialog(&vec![]);
    assert!(request.extensions.is_empty());
    assert_eq!(request.location, None);
}

#[test]
fn dialog_has_one_filter_with_all_extensions() {
    let request = dialog_request(
        &vec![name("*.txt *.log"), mime("image/png")],
        Some("/tmp".to_string()),
    );
    let refs = request.extension_refs();
    assert_eq!(refs, vec!["txt", "log", "png"]);
    let dialog = prepare_dialog(&refs, request.location.as_deref());
    let shown = format!("{:?}", dialog);
    assert!(
        shown.contains(
            "filters: [Filter { description: \"Supported Files\", extensions: [\"txt\", \"log\", \"png\"] }]"
        ),
        "{}",
        shown
    );
    assert!(shown.contains("location: Some(\"/tmp\")"), "{}", shown);
}

#[test]
fn dialog_without_extensions_has_no_filter() {
    let refs = vec![];
    let shown = format!("{:?}", prepare_dialog(&refs, None));
    assert!(shown.contains("filters: []"), "{}", shown);
    assert!(shown.contains("location: None"), "{}", shown);
}

#[test]
fn absolute_paths_may_hold_colons() {
    assert_eq!(row("/ab:c/x.dat").file_label(), "x.dat");
    assert_eq!(row("/ab:c/x.dat").start_dir(), Some("/ab:c".to_string()));
    assert_eq!(row("/x:y").file_label(), "x:y");
    assert_eq!(row("/x:y").start_dir(), Some("/".to_string()));
}

#[test]
fn other_paths_are_read_in_one_of_two_ways() {
    for (path, by_slashes, after_drive) in [
        ("C:\\dir\\x.dat", "C:\\dir\\x.dat", "x.dat"),
        ("C:/dir/x.dat", "x.dat", "x.dat"),
        ("C:x.dat", "C:x.dat", "x.dat"),
        ("dir\\x.dat", "dir\\x.dat", "x.dat"),
        ("dir/a\\b", "a\\b", "b"),
    ] {
        let label = row(path).file_label();
        assert!(label == by_slashes || label == after_drive, "{}", label);
    }
    for (path, by_slashes, after_drive) in [
        ("C:\\dir\\x.dat", "", "C:\\dir"),
        ("C:/dir/x.dat", "C:/dir", "C:/dir"),
        ("C:x.dat", "", "C:"),
        ("dir\\x.dat", "", "dir"),
    ] {
        let dir = row(path).start_dir().unwrap();
        assert!(dir == by_slashes || dir == after_drive, "{}", dir);
    }
}

#[test]
fn dialog_answers_with_the_selected_file() {
    assert_eq!(dialog_answer(Ok(Some("f".to_string()))), Some("f".to_string()));
    assert_eq!(dialog_answer(Ok(None)), None);
    assert_eq!(dialog_answer(Err(())), None);
}

#[test]
fn shares_are_read_in_one_of_two_ways() {
    for (path, by_slashes, by_both) in [
        ("\\\\server\\share\\saves\\x.dat", "\\\\server\\share\\saves\\x.dat", "x.dat"),
        ("//home/u/x.dat", "x.dat", "x.dat"),
        ("//server/share", "share", "//server/share"),
        ("//x", "x", "x"),
    ] {
        let label = row(path).file_label();
        assert!(label == by_slashes || label == by_both, "{}", label);
    }
    for (path, by_slashes, by_both) in [
        (
            "\\\\server\\share\\saves\\x.dat",
            Some(""),
            Some("\\\\server\\share\\saves"),
        ),
        ("//home/u/d/x.dat", Some("//home/u/d"), Some("//home/u/d")),
        ("//server/share", Some("//server"), None),
    ] {
        let dir = row(path).start_dir();
        assert!(
            dir.as_deref() == by_slashes || dir.as_deref() == by_both,
            "{:?}",
            dir
        );
    }
}

#[test]
fn drive_with_a_dot_is_read_in_one_of_three_ways() {
    let dir = row("C:.").start_dir();
    assert!([None, Some(""), Some("C:")].contains(&dir.as_deref()), "{:?}", dir);
}
