//! The file dialog of a file select setting.

use vstd::prelude::*;

use crate::listing::{optional_text, views, Same};
use crate::settings::{FileFilter, FileFilterModel};
use crate::words::{split_words, words};

verus! {

/// The extension in a pattern such as `*.txt`.
pub open spec fn pattern_extension(pattern: Seq<char>) -> Option<Seq<char>> {
    if pattern.len() >= 2 && pattern[0] == '*' && pattern[1] == '.' {
        Some(pattern.skip(2))
    } else {
        None
    }
}

/// The extensions in a list of patterns, in order.
pub open spec fn pattern_extensions(patterns: Seq<Seq<char>>, n: int) -> Seq<Seq<char>>
    decreases n,
{
    if n <= 0 {
        Seq::empty()
    } else {
        let earlier = pattern_extensions(patterns, n - 1);
        match pattern_extension(patterns[n - 1]) {
            Some(extension) => earlier.push(extension),
            None => earlier,
        }
    }
}

/// The extensions of the files of a common MIME type.
pub open spec fn mime_extensions(mime: Seq<char>) -> Seq<Seq<char>> {
    if mime == "image/*"@ {
        seq!["png"@, "jpg"@, "jpeg"@, "gif"@, "bmp"@, "webp"@]
    } else if mime == "image/png"@ {
        seq!["png"@]
    } else if mime == "image/jpeg"@ {
        seq!["jpg"@, "jpeg"@]
    } else if mime == "text/*"@ {
        seq!["txt"@, "log"@, "md"@]
    } else if mime == "text/plain"@ {
        seq!["txt"@]
    } else if mime == "application/json"@ {
        seq!["json"@]
    } else if mime == "application/xml"@ {
        seq!["xml"@]
    } else {
        Seq::empty()
    }
}

/// The extensions that a filter lets through, in order.
pub open spec fn filter_extensions(filter: FileFilterModel) -> Seq<Seq<char>> {
    match filter {
        FileFilterModel::Name { pattern, .. } => pattern_extensions(
            words(pattern),
            words(pattern).len() as int,
        ),
        FileFilterModel::MimeType(mime) => mime_extensions(mime),
    }
}

/// A list followed by those of the first `n` items of another one that it does
/// not hold yet.
pub open spec fn with_new(list: Seq<Seq<char>>, more: Seq<Seq<char>>, n: int) -> Seq<Seq<char>>
    decreases n,
{
    if n <= 0 {
        list
    } else {
        let earlier = with_new(list, more, n - 1);
        if earlier.contains(more[n - 1]) {
            earlier
        } else {
            earlier.push(more[n - 1])
        }
    }
}

/// The extensions that any of the first `n` filters lets through, each once,
/// in the order in which they first occur.
pub open spec fn all_extensions(filters: Seq<FileFilterModel>, n: int) -> Seq<Seq<char>>
    decreases n,
{
    if n <= 0 {
        Seq::empty()
    } else {
        let more = filter_extensions(filters[n - 1]);
        with_new(all_extensions(filters, n - 1), more, more.len() as int)
    }
}

/// Tells whether a list holds a text.
fn holds(list: &Vec<String>, text: &String) -> (r: bool)
    ensures
        r == views(list@).contains(text@),
{
    for i in 0..list.len()
        invariant
            forall|j: int| 0 <= j < i ==> list@[j]@ != text@,
    {
        if list[i].same(text) {
            assert(views(list@)[i as int] == text@);
            return true;
        }
    }
    false
}

/// Adds the items of a list that another one does not hold yet.
fn add_new(list: Vec<String>, more: Vec<String>) -> (r: Vec<String>)
    ensures
        views(r@) == with_new(views(list@), views(more@), more.len() as int),
{
    let mut result = list;
    for i in 0..more.len()
        invariant
            views(result@) == with_new(views(list@), views(more@), i as int),
    {
        assert(views(more@)[i as int] == more@[i as int]@);
        if !holds(&result, &more[i]) {
            let ghost earlier = result@;
            result.push(more[i].clone());
            assert(views(result@) =~= views(earlier).push(more@[i as int]@));
        }
    }
    result
}

/// The extensions in a white space separated list of patterns, such as `txt`
/// and `log` in `*.txt *.log`.
pub fn extensions_of_pattern(pattern: &String) -> (r: Vec<String>)
    ensures
        views(r@) == pattern_extensions(words(pattern@), words(pattern@).len() as int),
{
    let patterns = split_words(pattern.as_str());
    let mut extensions: Vec<String> = Vec::new();
    for i in 0..patterns.len()
        invariant
            views(patterns@) == words(pattern@),
            views(extensions@) == pattern_extensions(words(pattern@), i as int),
    {
        let word = patterns[i].as_str();
        assert(words(pattern@)[i as int] == word@);
        let len: usize = word.unicode_len();
        if len >= 2 && word.get_char(0) == '*' && word.get_char(1) == '.' {
            let ghost earlier = extensions@;
            extensions.push(word.substring_char(2, len).to_string());
            assert(word@.subrange(2, len as int) =~= word@.skip(2));
            assert(views(extensions@) =~= views(earlier).push(word@.skip(2)));
        }
    }
    extensions
}

/// The extensions of the files of a common MIME type. None is known for the
/// other types.
pub fn extensions_of_mime(mime: &String) -> (r: Vec<String>)
    ensures
        views(r@) == mime_extensions(mime@),
{
    let r: Vec<String> = if *mime == "image/*".to_string() {
        vec![
            "png".to_string(),
            "jpg".to_string(),
            "jpeg".to_string(),
            "gif".to_string(),
            "bmp".to_string(),
            "webp".to_string(),
        ]
    } else if *mime == "image/png".to_string() {
        vec!["png".to_string()]
    } else if *mime == "image/jpeg".to_string() {
        vec!["jpg".to_string(), "jpeg".to_string()]
    } else if *mime == "text/*".to_string() {
        vec!["txt".to_string(), "log".to_string(), "md".to_string()]
    } else if *mime == "text/plain".to_string() {
        vec!["txt".to_string()]
    } else if *mime == "application/json".to_string() {
        vec!["json".to_string()]
    } else if *mime == "application/xml".to_string() {
        vec!["xml".to_string()]
    } else {
        Vec::new()
    };
    assert(views(r@) =~= mime_extensions(mime@));
    r
}

/// Collects the extensions that any of the filters lets through.
pub fn collect_extensions(filters: &Vec<FileFilter>) -> (r: Vec<String>)
    ensures
        views(r@) == all_extensions(views(filters@), filters.len() as int),
{
    let mut extensions: Vec<String> = Vec::new();
    assert(views(extensions@) =~= Seq::empty());
    for i in 0..filters.len()
        invariant
            views(extensions@) == all_extensions(views(filters@), i as int),
    {
        assert(views(filters@)[i as int] == filters@[i as int]@);
        let more = match &filters[i] {
            FileFilter::Name { pattern, .. } => extensions_of_pattern(pattern),
            FileFilter::MimeType(mime) => extensions_of_mime(mime),
        };
        extensions = add_new(extensions, more);
    }
    extensions
}

/// What a file dialog is opened with.
#[derive(Debug)]
pub struct DialogRequest {
    /// The extensions of the files to choose from. Without any, all files are
    /// shown.
    pub extensions: Vec<String>,
    /// The directory to start in.
    pub location: Option<String>,
}

/// Gathers what a file dialog for the given filters is opened with.
pub fn dialog_request(filters: &Vec<FileFilter>, start_dir: Option<String>) -> (r: DialogRequest)
    ensures
        views(r.extensions@) == all_extensions(views(filters@), filters.len() as int),
        optional_text(r.location) == optional_text(start_dir),
{
    DialogRequest { extensions: collect_extensions(filters), location: start_dir }
}

impl DialogRequest {
    /// The extensions as borrowed texts.
    pub fn extension_refs(&self) -> (r: Vec<&str>)
        ensures
            texts(r@) == views(self.extensions@),
    {
        let mut refs: Vec<&str> = Vec::new();
        for i in 0..self.extensions.len()
            invariant
                refs.len() == i,
                forall|j: int| 0 <= j < i ==> (#[trigger] refs@[j])@ == self.extensions@[j]@,
        {
            refs.push(self.extensions[i].as_str());
        }
        assert(texts(refs@) =~= views(self.extensions@));
        refs
    }
}

/// The texts that a list of borrowed texts holds.
pub open spec fn texts(list: Seq<&str>) -> Seq<Seq<char>> {
    Seq::new(list.len(), |i: int| list[i]@)
}

/// The builder of a file dialog.
#[verifier::external_type_specification]
#[verifier::external_body]
pub struct ExFileDialog<'a>(native_dialog::FileDialog<'a>);

/// The filters of a file dialog: their descriptions and extensions, in order.
pub uninterp spec fn dialog_filters(dialog: native_dialog::FileDialog<'_>) -> Seq<
    (Seq<char>, Seq<Seq<char>>),
>;

/// The directory in which a file dialog starts.
pub uninterp spec fn dialog_location(dialog: native_dialog::FileDialog<'_>) -> Option<Seq<char>>;

/// `native_dialog::FileDialog::new`: a dialog without filters that starts
/// nowhere in particular.
#[verifier::external_body]
fn new_dialog<'a>() -> (r: native_dialog::FileDialog<'a>)
    ensures
        dialog_filters(r) == Seq::<(Seq<char>, Seq<Seq<char>>)>::empty(),
        dialog_location(r) is None,
{
    native_dialog::FileDialog::new()
}

/// `native_dialog::FileDialog::add_filter`: adds a filter after those that are
/// there. It panics on a filter without extensions.
#[verifier::external_body]
fn add_filter<'a>(
    dialog: native_dialog::FileDialog<'a>,
    description: &'a str,
    extensions: &'a [&'a str],
) -> (r: native_dialog::FileDialog<'a>)
    requires
        extensions@.len() > 0,
    ensures
        dialog_filters(r) == dialog_filters(dialog).push((description@, texts(extensions@))),
        dialog_location(r) == dialog_location(dialog),
{
    dialog.add_filter(description, extensions)
}

/// `native_dialog::FileDialog::set_location`: sets the directory in which the
/// dialog starts.
#[verifier::external_body]
fn set_location<'a>(dialog: native_dialog::FileDialog<'a>, path: &'a str) -> (r:
    native_dialog::FileDialog<'a>)
    ensures
        dialog_filters(r) == dialog_filters(dialog),
        dialog_location(r) == Some(path@),
{
    dialog.set_location(path)
}

/// Prepares a file dialog. All extensions are combined into a single filter;
/// without any there is no filter.
pub fn prepare_dialog<'a>(extensions: &'a Vec<&'a str>, location: Option<&'a str>) -> (r:
    native_dialog::FileDialog<'a>)
    ensures
        dialog_filters(r) == if extensions.len() > 0 {
            seq![("Supported Files"@, texts(extensions@))]
        } else {
            Seq::empty()
        },
        dialog_location(r) == match location {
            Some(dir) => Some(dir@),
            None => None,
        },
{
    let mut dialog = new_dialog();

    // Add a single filter with all extensions combined
    if extensions.len() > 0 {
        dialog = add_filter(dialog, "Supported Files", extensions.as_slice());
        assert(dialog_filters(dialog) =~= seq![("Supported Files"@, texts(extensions@))]);
    }
    // Set starting directory if provided

    if let Some(dir) = location {
        dialog = set_location(dialog, dir);
    }
    dialog
}

/// The file that was selected in a dialog. There is none if the dialog was
/// cancelled or could not be shown.
pub fn dialog_answer(shown: Result<Option<String>, ()>) -> (r: Option<String>)
    ensures
        optional_text(r) == match shown {
            Ok(selected) => optional_text(selected),
            Err(_) => None,
        },
{
    match shown {
        Ok(selected) => selected,
        Err(_) => None,
    }
}

proof fn lemma_with_new(list: Seq<Seq<char>>, more: Seq<Seq<char>>, n: int)
    requires
        0 <= n <= more.len(),
        list.no_duplicates(),
    ensures
        with_new(list, more, n).no_duplicates(),
        list.is_prefix_of(with_new(list, more, n)),
        forall|text: Seq<char>| #[trigger]
            with_new(list, more, n).contains(text) <==> list.contains(text) || more.take(
                n,
            ).contains(text),
    decreases n,
{
    if n > 0 {
        lemma_with_new(list, more, n - 1);
        let earlier = with_new(list, more, n - 1);
        let last = more[n - 1];
        assert(more.take(n) =~= more.take(n - 1).push(last));
        assert forall|text: Seq<char>| #[trigger]
            with_new(list, more, n).contains(text) <==> list.contains(text) || more.take(
                n,
            ).contains(text) by {
            assert(earlier.contains(text) <==> list.contains(text) || more.take(n - 1).contains(
                text,
            ));
            assert(more.take(n)[n - 1] == last);
            if more.take(n - 1).contains(text) {
                let i = more.take(n - 1).index_of(text);
                assert(more.take(n)[i] == text);
            }
            if more.take(n).contains(text) && text != last {
                let i = more.take(n).index_of(text);
                assert(more.take(n - 1)[i] == text);
            }
            if earlier.contains(text) {
                let i = earlier.index_of(text);
                assert(with_new(list, more, n)[i] == text);
            }
            if with_new(list, more, n).contains(text) {
                let i = with_new(list, more, n).index_of(text);
                assert(i < earlier.len() ==> earlier[i] == text);
            }
            if !earlier.contains(last) {
                assert(with_new(list, more, n)[earlier.len() as int] == last);
            }
        }
    }
}

/// One of the first `n` filters lets an extension through.
pub open spec fn let_through(filters: Seq<FileFilterModel>, n: int, extension: Seq<char>) -> bool {
    exists|i: int|
        0 <= i < n && filter_extensions(#[trigger] filters[i]).contains(extension)
}

/// A dialog offers each extension once, and exactly those that one of its
/// filters lets through. More filters add extensions at the end.
pub proof fn law_extensions(filters: Seq<FileFilterModel>, n: int)
    requires
        0 <= n <= filters.len(),
    ensures
        all_extensions(filters, n).no_duplicates(),
        forall|extension: Seq<char>| #[trigger]
            all_extensions(filters, n).contains(extension) <==> let_through(filters, n, extension),
        n > 0 ==> all_extensions(filters, n - 1).is_prefix_of(all_extensions(filters, n)),
    decreases n,
{
    if n > 0 {
        law_extensions(filters, n - 1);
        let more = filter_extensions(filters[n - 1]);
        lemma_with_new(all_extensions(filters, n - 1), more, more.len() as int);
        assert(more.take(more.len() as int) =~= more);
        assert forall|extension: Seq<char>| #[trigger]
            all_extensions(filters, n).contains(extension) <==> let_through(
                filters,
                n,
                extension,
            ) by {
            assert(all_extensions(filters, n - 1).contains(extension) <==> let_through(
                filters,
                n - 1,
                extension,
            ));
            if let_through(filters, n - 1, extension) {
                let i = choose|i: int|
                    0 <= i < n - 1 && filter_extensions(#[trigger] filters[i]).contains(extension);
                assert(filter_extensions(filters[i]).contains(extension));
            }
            if more.contains(extension) {
                assert(filter_extensions(filters[n - 1]).contains(extension));
            }
        }
    }
}

/// A pattern gives an extension if and only if it is a star, a dot and that
/// extension.
pub proof fn law_pattern_extension(pattern: Seq<char>, extension: Seq<char>)
    ensures
        pattern_extension(pattern) == Some(extension) <==> pattern == seq!['*', '.'] + extension,
{
    if pattern == seq!['*', '.'] + extension {
        assert(pattern.skip(2) =~= extension);
    }
    if pattern_extension(pattern) == Some(extension) {
        assert(pattern =~= seq!['*', '.'] + extension);
    }
}

/// The extensions of a list of patterns are those of the patterns that are a
/// star, a dot and an extension, in the order of the patterns. Returns the
/// positions of those patterns.
pub proof fn law_pattern_extensions(patterns: Seq<Seq<char>>, n: int) -> (at: Seq<int>)
    requires
        0 <= n <= patterns.len(),
    ensures
        at.len() == pattern_extensions(patterns, n).len(),
        forall|k: int|
            0 <= k < at.len() ==> {
                &&& 0 <= #[trigger] at[k] < n
                &&& patterns[at[k]] == seq!['*', '.'] + pattern_extensions(patterns, n)[k]
            },
        forall|k: int, l: int| 0 <= k < l < at.len() ==> #[trigger] at[k] < #[trigger] at[l],
        forall|i: int|
            0 <= i < n && (#[trigger] patterns[i]).len() >= 2 && patterns[i][0] == '*'
                && patterns[i][1] == '.' ==> at.contains(i),
    decreases n,
{
    if n <= 0 {
        Seq::empty()
    } else {
        let earlier = law_pattern_extensions(patterns, n - 1);
        let last = patterns[n - 1];
        match pattern_extension(last) {
            Some(extension) => {
                law_pattern_extension(last, extension);
                let at = earlier.push(n - 1);
                assert forall|i: int|
                    0 <= i < n && (#[trigger] patterns[i]).len() >= 2 && patterns[i][0] == '*'
                        && patterns[i][1] == '.' implies at.contains(i) by {
                    if i == n - 1 {
                        assert(at[earlier.len() as int] == i);
                    } else {
                        assert(at[earlier.index_of(i)] == i);
                    }
                }
                at
            },
            None => {
                assert forall|i: int|
                    0 <= i < n && (#[trigger] patterns[i]).len() >= 2 && patterns[i][0] == '*'
                        && patterns[i][1] == '.' implies earlier.contains(i) by {
                    assert(i < n - 1);
                }
                earlier
            },
        }
    }
}

/// A filter by name lets through an extension if and only if a star, a dot and
/// that extension are a word of its pattern, however the filter is described.
pub proof fn law_name_filters(
    description: Option<Seq<char>>,
    pattern: Seq<char>,
    extension: Seq<char>,
)
    ensures
        filter_extensions(FileFilterModel::Name { description, pattern }).contains(extension)
            <==> words(pattern).contains(seq!['*', '.'] + extension),
{
    let patterns = words(pattern);
    let n = patterns.len() as int;
    let wanted = seq!['*', '.'] + extension;
    let found = filter_extensions(FileFilterModel::Name { description, pattern });
    let at = law_pattern_extensions(patterns, n);
    assert(found == pattern_extensions(patterns, n));
    if found.contains(extension) {
        let k = found.index_of(extension);
        assert(patterns[at[k]] == wanted);
    }
    if patterns.contains(wanted) {
        let i = patterns.index_of(wanted);
        assert(patterns[i][0] == '*' && patterns[i][1] == '.');
        let k = at.index_of(i);
        assert(patterns[at[k]] == seq!['*', '.'] + found[k]);
        assert(found[k] =~= (seq!['*', '.'] + found[k]).skip(2));
        assert(extension =~= wanted.skip(2));
        assert(found[k] == extension);
    }
}

/// The extensions of a filter by name are those of the words of its pattern, in
/// order, however it is described. Those of a filter by MIME type are those that
/// are known for the type.
pub proof fn law_filter_extensions(description: Option<Seq<char>>, text: Seq<char>)
    ensures
        filter_extensions(FileFilterModel::Name { description, pattern: text })
            == pattern_extensions(words(text), words(text).len() as int),
        filter_extensions(FileFilterModel::MimeType(text)) == mime_extensions(text),
{
}

/// The dialog offers an extension if and only if a star, a dot and that
/// extension are a word of the pattern of a filter by name, or the extension is
/// known for the type of a filter by MIME type.
pub proof fn law_offered_extensions(filters: Seq<FileFilterModel>, extension: Seq<char>)
    ensures
        all_extensions(filters, filters.len() as int).contains(extension) <==> exists|i: int|
            0 <= i < filters.len() && match #[trigger] filters[i] {
                FileFilterModel::Name { pattern, .. } => words(pattern).contains(
                    seq!['*', '.'] + extension,
                ),
                FileFilterModel::MimeType(mime) => mime_extensions(mime).contains(extension),
            },
{
    let n = filters.len() as int;
    law_extensions(filters, n);
    assert forall|i: int| 0 <= i < filters.len() implies filter_extensions(
        #[trigger] filters[i],
    ).contains(extension) == (match filters[i] {
        FileFilterModel::Name { pattern, .. } => words(pattern).contains(
            seq!['*', '.'] + extension,
        ),
        FileFilterModel::MimeType(mime) => mime_extensions(mime).contains(extension),
    }) by {
        if let FileFilterModel::Name { description, pattern } = filters[i] {
            law_name_filters(description, pattern, extension);
        }
    }
    assert(all_extensions(filters, n).contains(extension) <==> let_through(
        filters,
        n,
        extension,
    ));
    if let_through(filters, n, extension) {
        let i = choose|i: int|
            0 <= i < n && filter_extensions(#[trigger] filters[i]).contains(extension);
        assert(filter_extensions(filters[i]).contains(extension));
    }
}

/// A place, a filter and a position among its extensions, comes before another
/// one.
pub open spec fn comes_before(one: (int, int), other: (int, int)) -> bool {
    one.0 < other.0 || one.0 == other.0 && one.1 < other.1
}

/// The extension at a place among the extensions of the filters.
pub open spec fn extension_at(filters: Seq<FileFilterModel>, place: (int, int)) -> Seq<char> {
    filter_extensions(filters[place.0])[place.1]
}

/// There is a place among the extensions of the first `n` filters.
pub open spec fn is_place(filters: Seq<FileFilterModel>, n: int, place: (int, int)) -> bool {
    0 <= place.0 < n && 0 <= place.1 < filter_extensions(filters[place.0]).len()
}

proof fn lemma_order_within(
    filters: Seq<FileFilterModel>,
    n: int,
    m: int,
    before: Seq<(int, int)>,
) -> (at: Seq<(int, int)>)
    requires
        0 < n <= filters.len(),
        0 <= m <= filter_extensions(filters[n - 1]).len(),
        before.len() == all_extensions(filters, n - 1).len(),
        forall|k: int|
            0 <= k < before.len() ==> {
                &&& is_place(filters, n - 1, #[trigger] before[k])
                &&& all_extensions(filters, n - 1)[k] == extension_at(filters, before[k])
                &&& forall|place: (int, int)| #[trigger]
                    is_place(filters, n - 1, place) && comes_before(place, before[k])
                        ==> extension_at(filters, place) != extension_at(filters, before[k])
            },
        forall|k: int, l: int|
            0 <= k < l < before.len() ==> comes_before(#[trigger] before[k], #[trigger] before[l]),
        forall|place: (int, int)| #[trigger]
            is_place(filters, n - 1, place) ==> all_extensions(filters, n - 1).contains(
                extension_at(filters, place),
            ),
    ensures
        ({
            let found = with_new(
                all_extensions(filters, n - 1),
                filter_extensions(filters[n - 1]),
                m,
            );
            &&& at.len() == found.len()
            &&& forall|k: int|
                0 <= k < at.len() ==> {
                    &&& is_place(filters, n, #[trigger] at[k])
                    &&& at[k].0 == n - 1 ==> at[k].1 < m
                    &&& found[k] == extension_at(filters, at[k])
                    &&& forall|place: (int, int)| #[trigger]
                        is_place(filters, n, place) && comes_before(place, at[k])
                            ==> extension_at(filters, place) != extension_at(filters, at[k])
                }
            &&& forall|k: int, l: int|
                0 <= k < l < at.len() ==> comes_before(#[trigger] at[k], #[trigger] at[l])
            &&& forall|place: (int, int)| #[trigger]
                is_place(filters, n, place) && (place.0 < n - 1 || place.1 < m)
                    ==> found.contains(extension_at(filters, place))
        }),
    decreases m,
{
    let more = filter_extensions(filters[n - 1]);
    let base = all_extensions(filters, n - 1);
    let found = with_new(base, more, m);
    if m <= 0 {
        assert forall|k: int| 0 <= k < before.len() implies {
            &&& is_place(filters, n, #[trigger] before[k])
            &&& before[k].0 == n - 1 ==> before[k].1 < m
            &&& found[k] == extension_at(filters, before[k])
            &&& forall|place: (int, int)| #[trigger]
                is_place(filters, n, place) && comes_before(place, before[k]) ==> extension_at(
                    filters,
                    place,
                ) != extension_at(filters, before[k])
        } by {
            assert(is_place(filters, n - 1, before[k]));
            assert forall|place: (int, int)| #[trigger]
                is_place(filters, n, place) && comes_before(
                    place,
                    before[k],
                ) implies extension_at(filters, place) != extension_at(filters, before[k]) by {
                assert(is_place(filters, n - 1, place));
            }
        }
        assert forall|place: (int, int)| #[trigger]
            is_place(filters, n, place) && (place.0 < n - 1 || place.1
                < m) implies found.contains(extension_at(filters, place)) by {
            assert(is_place(filters, n - 1, place));
        }
        before
    } else {
        let at = lemma_order_within(filters, n, m - 1, before);
        let earlier = with_new(base, more, m - 1);
        let here = (n - 1, m - 1);
        assert(extension_at(filters, here) == more[m - 1]);
        if earlier.contains(more[m - 1]) {
            assert forall|place: (int, int)| #[trigger]
                is_place(filters, n, place) && (place.0 < n - 1 || place.1
                    < m) implies found.contains(extension_at(filters, place)) by {
                if !(place.0 < n - 1 || place.1 < m - 1) {
                    assert(place == here);
                }
            }
            at
        } else {
            let all = at.push(here);
            assert(is_place(filters, n, here));
            assert forall|k: int| 0 <= k < all.len() implies {
                &&& is_place(filters, n, #[trigger] all[k])
                &&& all[k].0 == n - 1 ==> all[k].1 < m
                &&& found[k] == extension_at(filters, all[k])
                &&& forall|place: (int, int)| #[trigger]
                    is_place(filters, n, place) && comes_before(place, all[k]) ==> extension_at(
                        filters,
                        place,
                    ) != extension_at(filters, all[k])
            } by {
                if k < at.len() {
                    assert(all[k] == at[k]);
                } else {
                    assert forall|place: (int, int)| #[trigger]
                        is_place(filters, n, place) && comes_before(
                            place,
                            all[k],
                        ) implies extension_at(filters, place) != extension_at(
                        filters,
                        all[k],
                    ) by {
                        assert(earlier.contains(extension_at(filters, place)));
                    }
                }
            }
            assert forall|k: int, l: int| 0 <= k < l < all.len() implies comes_before(
                #[trigger] all[k],
                #[trigger] all[l],
            ) by {
                assert(all[k] == at[k]);
                if l < at.len() {
                    assert(all[l] == at[l]);
                } else {
                    assert(is_place(filters, n, at[k]));
                }
            }
            assert forall|place: (int, int)| #[trigger]
                is_place(filters, n, place) && (place.0 < n - 1 || place.1
                    < m) implies found.contains(extension_at(filters, place)) by {
                if place.0 < n - 1 || place.1 < m - 1 {
                    let k = earlier.index_of(extension_at(filters, place));
                    assert(found[k] == extension_at(filters, place));
                } else {
                    assert(place == here);
                    assert(found[earlier.len() as int] == more[m - 1]);
                }
            }
            all
        }
    }
}

/// The extensions stand in the order in which they first occur among those of
/// the filters, each at the place where it first occurs. Returns those places.
pub proof fn law_extension_order(filters: Seq<FileFilterModel>, n: int) -> (at: Seq<(int, int)>)
    requires
        0 <= n <= filters.len(),
    ensures
        at.len() == all_extensions(filters, n).len(),
        forall|k: int|
            0 <= k < at.len() ==> {
                &&& is_place(filters, n, #[trigger] at[k])
                &&& all_extensions(filters, n)[k] == extension_at(filters, at[k])
                &&& forall|place: (int, int)| #[trigger]
                    is_place(filters, n, place) && comes_before(place, at[k]) ==> extension_at(
                        filters,
                        place,
                    ) != extension_at(filters, at[k])
            },
        forall|k: int, l: int|
            0 <= k < l < at.len() ==> comes_before(#[trigger] at[k], #[trigger] at[l]),
        forall|place: (int, int)| #[trigger]
            is_place(filters, n, place) ==> all_extensions(filters, n).contains(
                extension_at(filters, place),
            ),
    decreases n,
{
    if n <= 0 {
        Seq::empty()
    } else {
        let before = law_extension_order(filters, n - 1);
        lemma_order_within(
            filters,
            n,
            filter_extensions(filters[n - 1]).len() as int,
            before,
        )
    }
}

/// The extensions that are known for the common MIME types. For all others none
/// is known.
pub proof fn law_mime_extensions(mime: Seq<char>)
    ensures
        mime == "image/*"@ ==> mime_extensions(mime) == seq![
            "png"@,
            "jpg"@,
            "jpeg"@,
            "gif"@,
            "bmp"@,
            "webp"@,
        ],
        mime == "image/png"@ ==> mime_extensions(mime) == seq!["png"@],
        mime == "image/jpeg"@ ==> mime_extensions(mime) == seq!["jpg"@, "jpeg"@],
        mime == "text/*"@ ==> mime_extensions(mime) == seq!["txt"@, "log"@, "md"@],
        mime == "text/plain"@ ==> mime_extensions(mime) == seq!["txt"@],
        mime == "application/json"@ ==> mime_extensions(mime) == seq!["json"@],
        mime == "application/xml"@ ==> mime_extensions(mime) == seq!["xml"@],
        mime_extensions(mime).len() > 0 ==> {
            ||| mime == "image/*"@
            ||| mime == "image/png"@
            ||| mime == "image/jpeg"@
            ||| mime == "text/*"@
            ||| mime == "text/plain"@
            ||| mime == "application/json"@
            ||| mime == "application/xml"@
        },
{
    reveal_strlit("image/*");
    reveal_strlit("image/png");
    reveal_strlit("image/jpeg");
    reveal_strlit("text/*");
    reveal_strlit("text/plain");
    reveal_strlit("application/json");
    reveal_strlit("application/xml");
    assert("image/*"@.len() == 7 && "image/png"@.len() == 9 && "text/*"@.len() == 6);
    assert("application/json"@.len() == 16 && "application/xml"@.len() == 15);
    assert("image/jpeg"@.len() == 10 && "text/plain"@.len() == 10);
    assert("image/jpeg"@[0] == 'i' && "text/plain"@[0] == 't');
}

/// Borrowed texts are looked at as their texts, one for each, in order.
pub proof fn law_texts(list: Seq<&str>)
    ensures
        texts(list).len() == list.len(),
        forall|i: int| 0 <= i < list.len() ==> #[trigger] texts(list)[i] == list[i]@,
{
}

/// The extensions do not depend on how the filters are described.
pub proof fn law_descriptions_do_not_count(
    one: Seq<FileFilterModel>,
    other: Seq<FileFilterModel>,
    n: int,
)
    requires
        0 <= n <= one.len(),
        one.len() == other.len(),
        forall|i: int|
            0 <= i < one.len() ==> match (#[trigger] one[i], other[i]) {
                (
                    FileFilterModel::Name { pattern: p, .. },
                    FileFilterModel::Name { pattern: q, .. },
                ) => p == q,
                (FileFilterModel::MimeType(m), FileFilterModel::MimeType(k)) => m == k,
                _ => false,
            },
    ensures
        all_extensions(one, n) == all_extensions(other, n),
    decreases n,
{
    if n > 0 {
        law_descriptions_do_not_count(one, other, n - 1);
        assert(filter_extensions(one[n - 1]) == filter_extensions(other[n - 1]));
    }
}

} // verus!
