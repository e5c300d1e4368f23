//! The settings that an auto splitter offers, and the values stored for them.

use vstd::prelude::*;
use vstd::std_specs::cmp::PartialEqSpec;

use crate::listing::{optional_text, same_optional_text, views, Same};

verus! {

/// A filter for the files that a file select setting accepts.
#[derive(Debug)]
pub enum FileFilter {
    /// Files whose name matches one of the patterns in a white space separated
    /// list, such as `*.txt *.log`.
    Name { description: Option<String>, pattern: String },
    /// Files of a MIME type, such as `image/png` or `text/*`.
    MimeType(String),
}

#[verifier::ext_equal]
pub enum FileFilterModel {
    Name { description: Option<Seq<char>>, pattern: Seq<char> },
    MimeType(Seq<char>),
}

impl View for FileFilter {
    type V = FileFilterModel;

    open spec fn view(&self) -> FileFilterModel {
        match self {
            FileFilter::Name { description, pattern } => FileFilterModel::Name {
                description: optional_text(*description),
                pattern: pattern@,
            },
            FileFilter::MimeType(mime) => FileFilterModel::MimeType(mime@),
        }
    }
}

impl Clone for FileFilter {
    fn clone(&self) -> (r: Self)
        ensures
            r@ == self@,
    {
        match self {
            FileFilter::Name { description, pattern } => FileFilter::Name {
                description: description.clone(),
                pattern: pattern.clone(),
            },
            FileFilter::MimeType(mime) => FileFilter::MimeType(mime.clone()),
        }
    }
}

impl Same for FileFilter {
    fn same(&self, other: &Self) -> (r: bool) {
        match (self, other) {
            (
                FileFilter::Name { description, pattern },
                FileFilter::Name { description: other_description, pattern: other_pattern },
            ) => same_optional_text(description, other_description) && pattern.same(other_pattern),
            (FileFilter::MimeType(mime), FileFilter::MimeType(other_mime)) => mime.same(
                other_mime,
            ),
            _ => false,
        }
    }
}

impl PartialEq for FileFilter {
    fn eq(&self, other: &Self) -> (r: bool) {
        self.same(other)
    }
}

impl vstd::std_specs::cmp::PartialEqSpecImpl for FileFilter {
    open spec fn obeys_eq_spec() -> bool {
        true
    }

    open spec fn eq_spec(&self, other: &Self) -> bool {
        self@ == other@
    }
}

/// One of the options of a choice setting.
#[derive(Debug)]
pub struct ChoiceOption {
    /// What is stored when the option is chosen.
    pub key: String,
    /// What is shown to the user.
    pub description: String,
}

#[verifier::ext_equal]
pub struct ChoiceOptionModel {
    pub key: Seq<char>,
    pub description: Seq<char>,
}

impl View for ChoiceOption {
    type V = ChoiceOptionModel;

    open spec fn view(&self) -> ChoiceOptionModel {
        ChoiceOptionModel { key: self.key@, description: self.description@ }
    }
}

impl Clone for ChoiceOption {
    fn clone(&self) -> (r: Self)
        ensures
            r@ == self@,
    {
        ChoiceOption { key: self.key.clone(), description: self.description.clone() }
    }
}

impl Same for ChoiceOption {
    fn same(&self, other: &Self) -> (r: bool) {
        self.key.same(&other.key) && self.description.same(&other.description)
    }
}

impl PartialEq for ChoiceOption {
    fn eq(&self, other: &Self) -> (r: bool) {
        self.same(other)
    }
}

impl vstd::std_specs::cmp::PartialEqSpecImpl for ChoiceOption {
    open spec fn obeys_eq_spec() -> bool {
        true
    }

    open spec fn eq_spec(&self, other: &Self) -> bool {
        self@ == other@
    }
}

/// What kind of setting a widget stands for.
#[derive(Debug)]
pub enum WidgetKind {
    /// A title, under which the settings that follow it are shown.
    Title { heading_level: u32 },
    /// A setting that is on or off.
    Bool { default_value: bool },
    /// A setting that is one of several options.
    Choice { default_option_key: String, options: Vec<ChoiceOption> },
    /// A setting that is the path of a file.
    FileSelect { filters: Vec<FileFilter> },
}

#[verifier::ext_equal]
pub enum WidgetKindModel {
    Title { heading_level: nat },
    Bool { default_value: bool },
    Choice { default_option_key: Seq<char>, options: Seq<ChoiceOptionModel> },
    FileSelect { filters: Seq<FileFilterModel> },
}

impl View for WidgetKind {
    type V = WidgetKindModel;

    open spec fn view(&self) -> WidgetKindModel {
        match self {
            WidgetKind::Title { heading_level } => WidgetKindModel::Title {
                heading_level: *heading_level as nat,
            },
            WidgetKind::Bool { default_value } => WidgetKindModel::Bool {
                default_value: *default_value,
            },
            WidgetKind::Choice { default_option_key, options } => WidgetKindModel::Choice {
                default_option_key: default_option_key@,
                options: views(options@),
            },
            WidgetKind::FileSelect { filters } => WidgetKindModel::FileSelect {
                filters: views(filters@),
            },
        }
    }
}

/// A title or a setting that an auto splitter wants to have shown.
#[derive(Debug)]
pub struct SettingsWidget {
    /// The key under which the value of the setting is stored.
    pub key: String,
    /// What is shown to the user.
    pub description: String,
    /// A longer explanation that is shown on demand.
    pub tooltip: Option<String>,
    pub kind: WidgetKind,
}

#[verifier::ext_equal]
pub struct WidgetModel {
    pub key: Seq<char>,
    pub description: Seq<char>,
    pub tooltip: Option<Seq<char>>,
    pub kind: WidgetKindModel,
}

impl View for SettingsWidget {
    type V = WidgetModel;

    open spec fn view(&self) -> WidgetModel {
        WidgetModel {
            key: self.key@,
            description: self.description@,
            tooltip: optional_text(self.tooltip),
            kind: self.kind@,
        }
    }
}

/// A value that is stored for a setting.
#[derive(Debug)]
pub enum SettingValue {
    Bool(bool),
    String(String),
    /// A value that no row of the editor shows, such as a number or a list. The
    /// number tells it apart from the other values of this kind.
    Other(u64),
}

#[verifier::ext_equal]
pub enum SettingValueModel {
    Bool(bool),
    String(Seq<char>),
    Other(u64),
}

impl View for SettingValue {
    type V = SettingValueModel;

    open spec fn view(&self) -> SettingValueModel {
        match self {
            SettingValue::Bool(b) => SettingValueModel::Bool(*b),
            SettingValue::String(s) => SettingValueModel::String(s@),
            SettingValue::Other(n) => SettingValueModel::Other(*n),
        }
    }
}

impl Same for SettingValue {
    fn same(&self, other: &Self) -> (r: bool) {
        match (self, other) {
            (SettingValue::Bool(a), SettingValue::Bool(b)) => *a == *b,
            (SettingValue::String(a), SettingValue::String(b)) => a.same(b),
            (SettingValue::Other(a), SettingValue::Other(b)) => *a == *b,
            _ => false,
        }
    }
}

impl PartialEq for SettingValue {
    fn eq(&self, other: &Self) -> (r: bool) {
        self.same(other)
    }
}

impl vstd::std_specs::cmp::PartialEqSpecImpl for SettingValue {
    open spec fn obeys_eq_spec() -> bool {
        true
    }

    open spec fn eq_spec(&self, other: &Self) -> bool {
        self@ == other@
    }
}

/// The stored values of the settings, by key. The entries stay in the order in
/// which their keys were first inserted.
#[derive(Debug)]
pub struct SettingsMap {
    entries: Vec<(String, SettingValue)>,
}

spec fn holds_key(entries: Seq<(String, SettingValue)>, key: Seq<char>, i: int) -> bool {
    0 <= i < entries.len() && entries[i].0@ == key
}

impl View for SettingsMap {
    type V = Map<Seq<char>, SettingValueModel>;

    closed spec fn view(&self) -> Map<Seq<char>, SettingValueModel> {
        Map::new(
            |key: Seq<char>| exists|i: int| holds_key(self.entries@, key, i),
            |key: Seq<char>|
                {
                    let i = choose|i: int| holds_key(self.entries@, key, i);
                    self.entries@[i].1@
                },
        )
    }
}

impl SettingsMap {
    /// The keys, in the order in which they were first inserted.
    pub closed spec fn keys(self) -> Seq<Seq<char>> {
        Seq::new(self.entries@.len(), |i: int| self.entries@[i].0@)
    }

    /// No key occurs twice.
    #[verifier::type_invariant]
    spec fn keys_differ(self) -> bool {
        forall|i: int, j: int|
            0 <= i < j < self.entries@.len() ==> (#[trigger] self.entries@[i]).0@
                != (#[trigger] self.entries@[j]).0@
    }

    proof fn lemma_entry(&self, i: int)
        requires
            self.keys_differ(),
            0 <= i < self.entries@.len(),
        ensures
            self@.contains_key(self.entries@[i].0@),
            self@[self.entries@[i].0@] == self.entries@[i].1@,
    {
        let key = self.entries@[i].0@;
        assert(holds_key(self.entries@, key, i));
        let k = choose|k: int| holds_key(self.entries@, key, k);
        assert(holds_key(self.entries@, key, k));
    }

    /// The index of the entry with the given key.
    fn position(entries: &Vec<(String, SettingValue)>, key: &String) -> (r: Option<usize>)
        ensures
            match r {
                Some(i) => holds_key(entries@, key@, i as int),
                None => forall|i: int| !holds_key(entries@, key@, i),
            },
    {
        for i in 0..entries.len()
            invariant
                forall|j: int| 0 <= j < i ==> !holds_key(entries@, key@, j),
        {
            if entries[i].0.same(key) {
                return Some(i);
            }
        }
        None
    }

    /// A map that holds no value.
    pub fn new() -> (r: Self)
        ensures
            r@ == Map::<Seq<char>, SettingValueModel>::empty(),
            r.keys() == Seq::<Seq<char>>::empty(),
    {
        let r = SettingsMap { entries: Vec::new() };
        proof {
            assert(r@ =~= Map::<Seq<char>, SettingValueModel>::empty()) by {
                assert forall|key: Seq<char>| !(#[trigger] r@.contains_key(key)) by {
                    assert(forall|i: int| !holds_key(r.entries@, key, i));
                }
            }
        }
        r
    }

    /// The value that is stored under a key.
    pub fn get(&self, key: &String) -> (r: Option<&SettingValue>)
        ensures
            match r {
                Some(value) => self@.contains_key(key@) && self@[key@] == value@,
                None => !self@.contains_key(key@),
            },
    {
        proof {
            use_type_invariant(self);
        }
        match Self::position(&self.entries, key) {
            Some(i) => {
                proof {
                    self.lemma_entry(i as int);
                }
                Some(&self.entries[i].1)
            },
            None => None,
        }
    }

    /// Stores a value under a key, in place of the one that is there, if any.
    pub fn insert(&mut self, key: String, value: SettingValue)
        ensures
            final(self)@ == old(self)@.insert(key@, value@),
            final(self).keys() == if old(self)@.contains_key(key@) {
                old(self).keys()
            } else {
                old(self).keys().push(key@)
            },
    {
        proof {
            use_type_invariant(&*self);
        }
        let ghost before = *self;
        let ghost key_text = key@;
        let ghost value_model = value@;
        let mut entries: Vec<(String, SettingValue)> = Vec::new();
        std::mem::swap(&mut entries, &mut self.entries);
        let place = Self::position(&entries, &key);
        match place {
            Some(i) => {
                entries.set(i, (key, value));
            },
            None => {
                entries.push((key, value));
            },
        }
        proof {
            let gone = before.entries@;
            assert forall|i: int, j: int| 0 <= i < j < entries@.len() implies (
            #[trigger] entries@[i]).0@ != (#[trigger] entries@[j]).0@ by {
                assert(!holds_key(gone, key_text, i) || place == Some(i as usize));
                assert(!holds_key(gone, key_text, j) || place == Some(j as usize));
            }
        }
        self.entries = entries;
        proof {
            let at = match place {
                Some(i) => i as int,
                None => before.entries@.len() as int,
            };
            self.lemma_entry(at);
            assert(place is Some ==> before@.contains_key(key_text)) by {
                if place is Some {
                    before.lemma_entry(at);
                }
            }
            let want = before@.insert(key_text, value_model);
            assert forall|other: Seq<char>| #[trigger]
                want.contains_key(other) implies self@.contains_key(other) && self@[other]
                == want[other] by {
                if other != key_text {
                    let i = choose|i: int| holds_key(before.entries@, other, i);
                    before.lemma_entry(i);
                    self.lemma_entry(i);
                }
            }
            assert forall|other: Seq<char>| #[trigger]
                self@.contains_key(other) implies want.contains_key(other) by {
                if other != key_text {
                    let i = choose|i: int| holds_key(self.entries@, other, i);
                    assert(holds_key(before.entries@, other, i));
                }
            }
            assert(self@ =~= want);
            assert(self.keys() =~= if before@.contains_key(key_text) {
                before.keys()
            } else {
                before.keys().push(key_text)
            });
        }
    }

    /// The number of stored values. Each has a key of its own.
    pub fn len(&self) -> (r: usize)
        ensures
            r == self.keys().len(),
            self.keys().no_duplicates(),
            forall|key: Seq<char>| #[trigger]
                self@.contains_key(key) <==> self.keys().contains(key),
    {
        proof {
            use_type_invariant(self);
            assert forall|key: Seq<char>| #[trigger]
                self@.contains_key(key) <==> self.keys().contains(key) by {
                if self@.contains_key(key) {
                    let i = choose|i: int| holds_key(self.entries@, key, i);
                    assert(self.keys()[i] == key);
                }
                if self.keys().contains(key) {
                    let i = self.keys().index_of(key);
                    self.lemma_entry(i);
                }
            }
        }
        self.entries.len()
    }

    /// The key and the value of an entry.
    pub fn entry(&self, index: usize) -> (r: (&String, &SettingValue))
        requires
            index < self.keys().len(),
        ensures
            r.0@ == self.keys()[index as int],
            self@.contains_key(r.0@),
            self@[r.0@] == r.1@,
    {
        proof {
            use_type_invariant(self);
            self.lemma_entry(index as int);
        }
        let entry = &self.entries[index];
        (&entry.0, &entry.1)
    }
}

/// A filter is described by all of its parts.
pub proof fn law_filter_view(filter: FileFilter)
    ensures
        match filter {
            FileFilter::Name { description, pattern } => {
                &&& filter@ is Name
                &&& filter@->pattern == pattern@
                &&& filter@->description is Some <==> description is Some
                &&& description matches Some(d) ==> filter@->description == Some(d@)
            },
            FileFilter::MimeType(mime) => filter@ == FileFilterModel::MimeType(mime@),
        },
{
}

/// An option is described by its key and its description.
pub proof fn law_option_view(option: ChoiceOption)
    ensures
        option@.key == option.key@,
        option@.description == option.description@,
{
}

/// A widget is described by all of its parts.
pub proof fn law_widget_view(widget: SettingsWidget)
    ensures
        widget@.key == widget.key@,
        widget@.description == widget.description@,
        widget@.tooltip is Some <==> widget.tooltip is Some,
        widget.tooltip matches Some(t) ==> widget@.tooltip == Some(t@),
        match widget.kind {
            WidgetKind::Title { heading_level } => {
                &&& widget@.kind is Title
                &&& widget@.kind->heading_level == heading_level
            },
            WidgetKind::Bool { default_value } => {
                &&& widget@.kind is Bool
                &&& widget@.kind->default_value == default_value
            },
            WidgetKind::Choice { default_option_key, options } => {
                &&& widget@.kind is Choice
                &&& widget@.kind->default_option_key == default_option_key@
                &&& widget@.kind->options.len() == options@.len()
                &&& forall|i: int|
                    0 <= i < options@.len() ==> #[trigger] widget@.kind->options[i] == options@[i]@
            },
            WidgetKind::FileSelect { filters } => {
                &&& widget@.kind is FileSelect
                &&& widget@.kind->filters.len() == filters@.len()
                &&& forall|i: int|
                    0 <= i < filters@.len() ==> #[trigger] widget@.kind->filters[i] == filters@[i]@
            },
        },
{
}

/// Stored values are told apart by their type and by what they hold.
pub proof fn law_value_view(value: SettingValue)
    ensures
        match value {
            SettingValue::Bool(b) => value@ == SettingValueModel::Bool(b),
            SettingValue::String(s) => value@ == SettingValueModel::String(s@),
            SettingValue::Other(n) => value@ == SettingValueModel::Other(n),
        },
{
}

/// Two filters are equal if and only if they are of one kind and have the same
/// texts.
pub proof fn law_filter_equality(one: FileFilter, other: FileFilter)
    ensures
        FileFilter::obeys_eq_spec(),
        one.eq_spec(&other) <==> match (one, other) {
            (
                FileFilter::Name { description: d, pattern: p },
                FileFilter::Name { description: e, pattern: q },
            ) => p@ == q@ && match (d, e) {
                (Some(s), Some(t)) => s@ == t@,
                (None, None) => true,
                _ => false,
            },
            (FileFilter::MimeType(m), FileFilter::MimeType(n)) => m@ == n@,
            _ => false,
        },
{
}

/// Two options are equal if and only if they have the same key and the same
/// description.
pub proof fn law_option_equality(one: ChoiceOption, other: ChoiceOption)
    ensures
        ChoiceOption::obeys_eq_spec(),
        one.eq_spec(&other) <==> one.key@ == other.key@ && one.description@ == other.description@,
{
}

/// Two stored values are equal if and only if they are of one kind and hold the
/// same.
pub proof fn law_value_equality(one: SettingValue, other: SettingValue)
    ensures
        SettingValue::obeys_eq_spec(),
        one.eq_spec(&other) <==> match (one, other) {
            (SettingValue::Bool(a), SettingValue::Bool(b)) => a == b,
            (SettingValue::String(a), SettingValue::String(b)) => a@ == b@,
            (SettingValue::Other(a), SettingValue::Other(b)) => a == b,
            _ => false,
        },
{
}

} // verus!
