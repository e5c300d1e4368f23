//! How the widgets of a row read and change what the row shows.

use vstd::prelude::*;

use crate::dialog::{all_extensions, dialog_request, DialogRequest};
use crate::listing::{optional_text, views};
use crate::paths::{
    begins_with_two_separators, file_name, final_name, final_name_after_drive, is_parent,
    is_part_of, is_share_name, is_slash_parent, is_slash_path, is_verbatim,
    law_slash_paths_have_one_name, law_slash_paths_have_one_parent, parent,
};
use crate::rows::{rows_of, RowModel, RowValueModel, SettingRow, SettingRowValue};
use crate::settings::{ChoiceOption, FileFilter, SettingValueModel, WidgetModel};

verus! {

/// The grey level behind a title.
pub const TITLE_SHADE: u8 = 0x20;

/// The grey level behind a setting at an even position.
pub const EVEN_SHADE: u8 = 0x14;

/// The grey level behind a setting at an odd position.
pub const ODD_SHADE: u8 = 0x0b;

/// The widget with which the value of a row is edited.
#[derive(Debug, Clone, Copy, PartialEq, Eq, Structural)]
pub enum ValueEditor {
    /// Titles have no value.
    Empty,
    Switch,
    ComboBox,
    FileButton,
}

/// The widget with which a value is edited.
pub open spec fn editor_of(value: RowValueModel) -> ValueEditor {
    match value {
        RowValueModel::Title { .. } => ValueEditor::Empty,
        RowValueModel::Bool(_) => ValueEditor::Switch,
        RowValueModel::Choice { .. } => ValueEditor::ComboBox,
        RowValueModel::FileSelect { .. } => ValueEditor::FileButton,
    }
}

/// A value after one of the options has been chosen. A position that is none
/// of an option changes nothing.
pub open spec fn with_choice(value: RowValueModel, position: nat) -> RowValueModel {
    match value {
        RowValueModel::Choice { options, .. } if position < options.len() => RowValueModel::Choice {
            current: position,
            options,
        },
        _ => value,
    }
}

/// A value after a file has been selected.
pub open spec fn with_path(value: RowValueModel, path: Seq<char>) -> RowValueModel {
    match value {
        RowValueModel::FileSelect { filters, .. } => RowValueModel::FileSelect { path, filters },
        _ => value,
    }
}

/// A row with another value.
pub open spec fn with_value(row: RowModel, value: RowValueModel) -> RowModel {
    RowModel { value, ..row }
}

/// The grey level behind a row.
pub open spec fn shade_of(row: RowModel) -> u8 {
    if row.value is Title {
        TITLE_SHADE
    } else if row.index % 2 == 0 {
        EVEN_SHADE
    } else {
        ODD_SHADE
    }
}

/// The label of the button of a file select setting: the name of the file, or
/// the whole path where it has none, or a prompt where no file is selected.
pub open spec fn button_label(path: Seq<char>, name: Option<Seq<char>>) -> Seq<char> {
    if path.len() == 0 {
        "Browse..."@
    } else {
        match name {
            Some(n) => n,
            None => path,
        }
    }
}

/// The label of the button of a file select setting, given the file name in
/// its path.
pub fn label_for(path: &String, name: Option<String>) -> (r: String)
    ensures
        r@ == button_label(path@, optional_text(name)),
{
    if path.as_str().is_empty() {
        "Browse...".to_string()
    } else {
        match name {
            // Show just the filename, not the full path
            Some(n) => n,
            None => path.clone(),
        }
    }
}

impl ChoiceOption {
    /// What is shown for the option.
    pub fn label(&self) -> (r: &String)
        ensures
            r@ == self@.description,
    {
        &self.description
    }
}

impl SettingRow {
    /// Tells whether the row is a title.
    pub fn is_title(&self) -> (r: bool)
        ensures
            r == (self@.value is Title),
    {
        match self.value {
            SettingRowValue::Title { .. } => true,
            _ => false,
        }
    }

    /// The widget with which the value of the row is edited.
    pub fn value_editor(&self) -> (r: ValueEditor)
        ensures
            r == editor_of(self@.value),
    {
        match self.value {
            SettingRowValue::Title { .. } => ValueEditor::Empty,
            SettingRowValue::Bool(_) => ValueEditor::Switch,
            SettingRowValue::Choice { .. } => ValueEditor::ComboBox,
            SettingRowValue::FileSelect { .. } => ValueEditor::FileButton,
        }
    }

    /// The grey level behind the row.
    pub fn shade(&self) -> (r: u8)
        ensures
            r == shade_of(self@),
    {
        if self.is_title() {
            TITLE_SHADE
        } else if self.index % 2 == 0 {
            EVEN_SHADE
        } else {
            ODD_SHADE
        }
    }

    /// Tells whether the switch of the row is on.
    pub fn switch_on(&self) -> (r: bool)
        ensures
            r == (self@.value == RowValueModel::Bool(true)),
    {
        match self.value {
            SettingRowValue::Bool(b) => b,
            _ => false,
        }
    }

    /// Turns the switch of the row on or off.
    pub fn set_switch(&mut self, on: bool)
        ensures
            final(self)@ == with_value(old(self)@, RowValueModel::Bool(on)),
    {
        self.value = SettingRowValue::Bool(on);
    }

    /// The position of the chosen option.
    pub fn chosen(&self) -> (r: usize)
        ensures
            r == match self@.value {
                RowValueModel::Choice { current, .. } => current,
                _ => 0,
            },
    {
        match &self.value {
            SettingRowValue::Choice { current, .. } => *current,
            _ => 0,
        }
    }

    /// Chooses the option at a position.
    pub fn choose_option(&mut self, position: usize)
        ensures
            final(self)@ == with_value(
                old(self)@,
                with_choice(old(self)@.value, position as nat),
            ),
    {
        if let SettingRowValue::Choice { current, options } = &mut self.value {
            if position < options.len() {
                *current = position;
            }
        }
    }

    /// The label of the button with which a file is selected. Where the path
    /// is not a slash path, how it is read depends on the platform, and so does
    /// whether it names a share or a device.
    pub fn file_label(&self) -> (r: String)
        ensures
            match self@.value {
                RowValueModel::FileSelect { path, .. } => {
                    &&& path.len() == 0 ==> r@ == "Browse..."@
                    &&& is_slash_path(path) ==> r@ == button_label(path, final_name(path))
                    &&& !begins_with_two_separators(path) ==> r@ == button_label(
                        path,
                        final_name(path),
                    ) || r@ == button_label(path, final_name_after_drive(path))
                    &&& begins_with_two_separators(path) && !is_verbatim(path) ==> exists|
                        name: Option<Seq<char>>,
                    | #[trigger]
                        is_share_name(name, path) && r@ == button_label(path, name)
                    &&& path.len() > 0 ==> r@.len() > 0 && is_part_of(r@, path)
                },
                _ => r@ == "Browse..."@,
            },
    {
        match &self.value {
            SettingRowValue::FileSelect { path, .. } => {
                proof {
                    assert(path@ =~= path@.subrange(0, path@.len() as int));
                    if is_slash_path(path@) {
                        law_slash_paths_have_one_name(path@);
                    }
                }
                let name = file_name(path.as_str());
                let ghost found = optional_text(name);
                let label = label_for(path, name);
                assert(is_share_name(found, path@) ==> label@ == button_label(path@, found));
                label
            },
            _ => "Browse...".to_string(),
        }
    }

    /// The directory in which the file dialog starts: that of the selected
    /// file, if there is one. Where the path is not a slash path, how it is read
    /// depends on the platform, and so does whether it names a share or a
    /// device.
    pub fn start_dir(&self) -> (r: Option<String>)
        ensures
            match self@.value {
                RowValueModel::FileSelect { path, .. } => {
                    &&& is_parent(optional_text(r), path)
                    &&& is_slash_path(path) ==> is_slash_parent(optional_text(r), path)
                },
                _ => r is None,
            },
    {
        match &self.value {
            SettingRowValue::FileSelect { path, .. } => {
                let dir = if path.as_str().is_empty() {
                    assert(path@.skip(0) =~= Seq::empty());
                    None
                } else {
                    parent(path.as_str())
                };
                proof {
                    if is_slash_path(path@) {
                        law_slash_paths_have_one_parent(optional_text(dir), path@);
                    }
                }
                dir
            },
            _ => None,
        }
    }

    /// Prepares the file dialog that a click on the button opens.
    pub fn file_dialog(&self, filters: &Vec<FileFilter>) -> (r: DialogRequest)
        ensures
            match self@.value {
                RowValueModel::FileSelect { path, .. } => {
                    &&& is_parent(optional_text(r.location), path)
                    &&& is_slash_path(path) ==> is_slash_parent(optional_text(r.location), path)
                },
                _ => r.location is None,
            },
            views(r.extensions@) == all_extensions(views(filters@), filters.len() as int),
    {
        dialog_request(filters, self.start_dir())
    }

    /// Takes over the file that was selected in the dialog. A dialog that was
    /// cancelled changes nothing.
    pub fn file_selected(&mut self, selected: Option<String>)
        ensures
            final(self)@ == match selected {
                Some(path) => with_value(old(self)@, with_path(old(self)@.value, path@)),
                None => old(self)@,
            },
    {
        if let Some(selected_path) = selected {
            if let SettingRowValue::FileSelect { path, .. } = &mut self.value {
                *path = selected_path;
            }
        }
    }
}

/// Settings that follow each other have different shades behind them.
pub proof fn law_shades_alternate(
    widgets: Seq<WidgetModel>,
    map: Option<Map<Seq<char>, SettingValueModel>>,
    i: int,
)
    requires
        0 <= i < widgets.len() - 1,
        !(widgets[i].kind is Title),
        !(widgets[i + 1].kind is Title),
    ensures
        shade_of(rows_of(widgets, map)[i]) != shade_of(rows_of(widgets, map)[i + 1]),
{
}

/// What has been chosen is what is shown as chosen, among the same options. A
/// position that is none of an option changes nothing.
pub proof fn law_choice_is_kept(value: RowValueModel, position: nat)
    requires
        value is Choice,
    ensures
        ({
            let options = value->Choice_options;
            let after = with_choice(value, position);
            &&& after is Choice
            &&& after->Choice_options == options
            &&& position < options.len() ==> after->Choice_current == position
            &&& position >= options.len() ==> after == value
        }),
{
}

/// The last of two choices, or of two selected files, counts.
pub proof fn law_last_edit_counts(
    value: RowValueModel,
    first: nat,
    second: nat,
    path: Seq<char>,
    later: Seq<char>,
)
    requires
        value matches RowValueModel::Choice { options, .. } ==> second < options.len(),
    ensures
        with_choice(with_choice(value, first), second) == with_choice(value, second),
        with_path(with_path(value, path), later) == with_path(value, later),
{
}

/// An edit does not change with what a row is edited.
pub proof fn law_editor_stays(value: RowValueModel, on: bool, position: nat, path: Seq<char>)
    ensures
        editor_of(with_choice(value, position)) == editor_of(value),
        editor_of(with_path(value, path)) == editor_of(value),
        value is Bool ==> editor_of(RowValueModel::Bool(on)) == editor_of(value),
{
}

/// Titles are not edited, booleans are edited with a switch, choices with a
/// combo box and files with a button.
pub proof fn law_editor_of(value: RowValueModel)
    ensures
        editor_of(value) == ValueEditor::Empty <==> value is Title,
        editor_of(value) == ValueEditor::Switch <==> value is Bool,
        editor_of(value) == ValueEditor::ComboBox <==> value is Choice,
        editor_of(value) == ValueEditor::FileButton <==> value is FileSelect,
{
}

/// An edit of the value of a row leaves the rest of the row as it was.
pub proof fn law_with_value(row: RowModel, value: RowValueModel)
    ensures
        with_value(row, value).value == value,
        with_value(row, value).index == row.index,
        with_value(row, value).key == row.key,
        with_value(row, value).description == row.description,
        with_value(row, value).tooltip == row.tooltip,
        with_value(row, value).indent_level == row.indent_level,
{
}

/// What is no choice cannot be chosen from.
pub proof fn law_only_choices_are_chosen_from(value: RowValueModel, position: nat)
    requires
        !(value is Choice),
    ensures
        with_choice(value, position) == value,
{
}

/// The selected file is the one that is shown, with the same filters. What is
/// no file select setting stays as it was.
pub proof fn law_file_is_kept(value: RowValueModel, path: Seq<char>)
    ensures
        value is FileSelect ==> {
            &&& with_path(value, path) is FileSelect
            &&& with_path(value, path)->path == path
            &&& with_path(value, path)->filters == value->filters
        },
        !(value is FileSelect) ==> with_path(value, path) == value,
{
}

/// Titles have the grey level 0x20 behind them, settings at even positions
/// 0x14, and those at odd positions 0x0b.
pub proof fn law_shades(row: RowModel)
    ensures
        row.value is Title ==> shade_of(row) == 0x20,
        !(row.value is Title) && row.index % 2 == 0 ==> shade_of(row) == 0x14,
        !(row.value is Title) && row.index % 2 == 1 ==> shade_of(row) == 0x0b,
{
}

/// A button shows the name of the selected file, or its path if it has no name.
/// It shows a prompt if no file is selected.
pub proof fn law_button_label(path: Seq<char>, name: Option<Seq<char>>)
    ensures
        path.len() == 0 ==> button_label(path, name) == "Browse..."@,
        path.len() > 0 && name is None ==> button_label(path, name) == path,
        path.len() > 0 ==> (name matches Some(n) ==> button_label(path, name) == n),
{
}

} // verus!
