//! The parts of a file path.
//!
//! Systems that separate the components of a path by slashes and Windows, which
//! takes backslashes too and knows drives, shares and devices, read some paths
//! differently. A path is read by slashes alone, or by slashes and backslashes
//! after an optional drive. One that begins with two separators can also name a
//! share or a device, whose own names are then no components of it. Of verbatim
//! paths, which begin with `\\?\`, nothing is said but that their parts are
//! parts of them.

use vstd::prelude::*;

use crate::listing::optional_text;
use crate::words::{law_last_run, law_single_run, runs_from};

verus! {

/// The slash as a separator.
pub open spec fn slash() -> spec_fn(char) -> bool {
    |c: char| c == '/'
}

/// The slash and the backslash as separators.
pub open spec fn slash_or_backslash() -> spec_fn(char) -> bool {
    |c: char| c == '/' || c == '\\'
}

/// A path begins with a separator.
pub open spec fn is_rooted(path: Seq<char>, separates: spec_fn(char) -> bool) -> bool {
    path.len() > 0 && separates(path[0])
}

/// A path begins with a slash.
pub open spec fn is_absolute(path: Seq<char>) -> bool {
    is_rooted(path, slash())
}

/// A path begins with two separators, whichever they are.
pub open spec fn begins_with_two_separators(path: Seq<char>) -> bool {
    path.len() >= 2 && slash_or_backslash()(path[0]) && slash_or_backslash()(path[1])
}

/// A path begins with the two backslashes, the question mark and the backslash
/// that make Windows take it as it is.
pub open spec fn is_verbatim(path: Seq<char>) -> bool {
    path.len() >= 4 && path[0] == '\\' && path[1] == '\\' && path[2] == '?' && path[3] == '\\'
}

/// The length of the drive with which a path begins, such as `C:`.
pub open spec fn drive_len(path: Seq<char>) -> int {
    if path.len() >= 2 && path[1] == ':' && ('a' <= path[0] <= 'z' || 'A' <= path[0] <= 'Z') {
        2
    } else {
        0
    }
}

/// A path that both ways of reading take apart alike: only slashes separate its
/// components, and it names no drive or share.
pub open spec fn is_slash_path(path: Seq<char>) -> bool {
    &&& forall|i: int|
        0 <= i < path.len() ==> #[trigger] path[i] != '\\' && (is_absolute(path) || path[i] != ':')
    &&& !(path.len() >= 2 && path[0] == '/' && path[1] == '/')
}

/// The names in a list other than `.`.
pub open spec fn without_dots(names: Seq<Seq<char>>) -> Seq<Seq<char>>
    decreases names.len(),
{
    if names.len() == 0 {
        Seq::empty()
    } else if names.last() == seq!['.'] {
        without_dots(names.drop_last())
    } else {
        without_dots(names.drop_last()).push(names.last())
    }
}

/// The components of a path. Repeated separators and a trailing one do not
/// count, nor does a `.` that is not at the beginning.
pub open spec fn components_by(path: Seq<char>, separates: spec_fn(char) -> bool) -> Seq<
    Seq<char>,
> {
    let names = runs_from(path, separates, 0, 0);
    if !is_rooted(path, separates) && names.len() > 0 && names[0] == seq!['.'] {
        seq![seq!['.']] + without_dots(names.skip(1))
    } else {
        without_dots(names)
    }
}

/// The components of a path that is read by slashes alone.
pub open spec fn components(path: Seq<char>) -> Seq<Seq<char>> {
    components_by(path, slash())
}

/// The last of the components of a path, where it is a name.
pub open spec fn final_name_by(path: Seq<char>, separates: spec_fn(char) -> bool) -> Option<
    Seq<char>,
> {
    let parts = components_by(path, separates);
    if parts.len() == 0 || parts.last() == seq!['.'] || parts.last() == seq!['.', '.'] {
        None
    } else {
        Some(parts.last())
    }
}

/// The file name in a path that is read by slashes alone.
pub open spec fn final_name(path: Seq<char>) -> Option<Seq<char>> {
    final_name_by(path, slash())
}

/// The file name in a path that is read by slashes and backslashes after an
/// optional drive.
pub open spec fn final_name_after_drive(path: Seq<char>) -> Option<Seq<char>> {
    final_name_by(path.skip(drive_len(path)), slash_or_backslash())
}

/// `name` is the file name in a path that begins with two separators: that of
/// one of the two ways of reading, or none if the path may be no more than the
/// name of a share or a device.
pub open spec fn is_share_name(name: Option<Seq<char>>, path: Seq<char>) -> bool {
    ||| name == final_name(path)
    ||| name == final_name_by(path, slash_or_backslash())
    ||| name is None && components_by(path, slash_or_backslash()).len() <= 2
}

/// A text occurs in another one.
pub open spec fn is_part_of(part: Seq<char>, text: Seq<char>) -> bool {
    exists|i: int, j: int|
        0 <= i <= j <= text.len() && part == #[trigger] text.subrange(i, j)
}

/// The components of what follows the first `skipped` characters of a path.
/// `leading_dot` tells whether a `.` at the beginning of the rest counts.
pub open spec fn components_after(
    path: Seq<char>,
    separates: spec_fn(char) -> bool,
    skipped: int,
    leading_dot: bool,
) -> Seq<Seq<char>> {
    let rest = path.skip(skipped);
    if leading_dot {
        components_by(rest, separates)
    } else {
        without_dots(runs_from(rest, separates, 0, 0))
    }
}

/// `dir` is a path without its final component, where the path is read by the
/// given separators after the first `skipped` characters. It has the components
/// of the path but the last, and a root if the path has one. If the path has no
/// component, there is none.
pub open spec fn is_parent_by(
    dir: Option<Seq<char>>,
    path: Seq<char>,
    separates: spec_fn(char) -> bool,
    skipped: int,
    leading_dot: bool,
) -> bool {
    let parts = components_after(path, separates, skipped, leading_dot);
    match dir {
        Some(d) => {
            &&& parts.len() > 0
            &&& d.len() >= skipped
            &&& components_after(d, separates, skipped, leading_dot) == parts.drop_last()
            &&& is_rooted(d.skip(skipped), separates) == is_rooted(path.skip(skipped), separates)
        },
        None => parts.len() == 0,
    }
}

/// `dir` is a path without its final component, read by slashes alone.
pub open spec fn is_slash_parent(dir: Option<Seq<char>>, path: Seq<char>) -> bool {
    is_parent_by(dir, path, slash(), 0, true)
}

/// `dir` is a path without its final component, read by slashes and backslashes
/// after an optional drive. A `.` directly behind a drive may count or not.
pub open spec fn is_parent_after_drive(dir: Option<Seq<char>>, path: Seq<char>) -> bool {
    ||| is_parent_by(dir, path, slash_or_backslash(), drive_len(path), true)
    ||| drive_len(path) > 0 && is_parent_by(
        dir,
        path,
        slash_or_backslash(),
        drive_len(path),
        false,
    )
}

/// `dir` is a path that begins with two separators without its final component:
/// that of one of the two ways of reading, or none if the path may be no more
/// than the name of a share or a device.
pub open spec fn is_share_parent(dir: Option<Seq<char>>, path: Seq<char>) -> bool {
    ||| is_slash_parent(dir, path)
    ||| is_parent_by(dir, path, slash_or_backslash(), 0, true)
    ||| dir is None && components_by(path, slash_or_backslash()).len() <= 2
}

/// `dir` is what a path is without its final component. The path begins with
/// it.
pub open spec fn is_parent(dir: Option<Seq<char>>, path: Seq<char>) -> bool {
    &&& dir matches Some(d) ==> d.len() < path.len() && d == path.take(d.len() as int)
    &&& !begins_with_two_separators(path) ==> is_slash_parent(dir, path) || is_parent_after_drive(
        dir,
        path,
    )
    &&& begins_with_two_separators(path) && !is_verbatim(path) ==> is_share_parent(dir, path)
}

/// `std::path::Path::file_name`: the final component of a path, if it is a
/// name. It is a part of the path and not empty. Which of the two ways of
/// reading applies depends on the platform and is not said, nor whether a path
/// that begins with two separators names a share or a device, nor more of a
/// verbatim path.
#[verifier::external_body]
pub(crate) fn file_name(path: &str) -> (r: Option<String>)
    ensures
        r matches Some(name) ==> name@.len() > 0 && is_part_of(name@, path@),
        !begins_with_two_separators(path@) ==> optional_text(r) == final_name(path@)
            || optional_text(r) == final_name_after_drive(path@),
        begins_with_two_separators(path@) && !is_verbatim(path@) ==> is_share_name(
            optional_text(r),
            path@,
        ),
{
    std::path::Path::new(path).file_name().map(|name| name.to_string_lossy().into_owned())
}

/// `std::path::Path::parent`: the path without its final component, if there
/// is one. The path begins with it. How many separators stand at its end is not
/// said. Which of the two ways of reading applies depends on the platform and is
/// not said, nor whether a path that begins with two separators names a share
/// or a device, nor whether a `.` directly behind a drive is a component, nor
/// more of a verbatim path.
#[verifier::external_body]
pub(crate) fn parent(path: &str) -> (r: Option<String>)
    ensures
        is_parent(optional_text(r), path@),
{
    std::path::Path::new(path).parent().map(|dir| dir.to_string_lossy().into_owned())
}

/// Separators that agree on the characters of a text separate it alike.
proof fn lemma_same_runs(
    text: Seq<char>,
    one: spec_fn(char) -> bool,
    other: spec_fn(char) -> bool,
    start: int,
    i: int,
)
    requires
        0 <= i,
        forall|j: int| 0 <= j < text.len() ==> one(#[trigger] text[j]) == other(text[j]),
    ensures
        runs_from(text, one, start, i) == runs_from(text, other, start, i),
    decreases text.len() - i,
{
    if i < text.len() {
        assert(one(text[i]) == other(text[i]));
        lemma_same_runs(text, one, other, i + 1, i + 1);
        lemma_same_runs(text, one, other, start, i + 1);
    }
}

/// A text without backslashes has the same components with and without the
/// backslash as a separator.
proof fn lemma_same_components(path: Seq<char>)
    requires
        forall|i: int| 0 <= i < path.len() ==> #[trigger] path[i] != '\\',
    ensures
        components_by(path, slash_or_backslash()) == components(path),
        is_rooted(path, slash_or_backslash()) == is_absolute(path),
{
    lemma_same_runs(path, slash_or_backslash(), slash(), 0, 0);
}

/// A slash path begins with no drive and not with two separators.
proof fn lemma_slash_path_has_no_prefix(path: Seq<char>)
    requires
        is_slash_path(path),
    ensures
        drive_len(path) == 0,
        !begins_with_two_separators(path),
{
    if path.len() >= 2 {
        assert(path[0] != '\\' && path[1] != '\\');
        assert(is_absolute(path) || path[1] != ':');
    }
}

/// The file name in a slash path does not depend on how the path is read.
pub proof fn law_slash_paths_have_one_name(path: Seq<char>)
    requires
        is_slash_path(path),
    ensures
        !begins_with_two_separators(path),
        final_name_after_drive(path) == final_name(path),
{
    lemma_slash_path_has_no_prefix(path);
    lemma_same_components(path);
    assert(path.skip(0) =~= path);
}

/// What a slash path is without its final component does not depend on how the
/// path is read.
pub proof fn law_slash_paths_have_one_parent(dir: Option<Seq<char>>, path: Seq<char>)
    requires
        is_slash_path(path),
        is_parent(dir, path),
    ensures
        is_slash_parent(dir, path),
{
    lemma_slash_path_has_no_prefix(path);
    lemma_same_components(path);
    assert(path.skip(0) =~= path);
    if let Some(d) = dir {
        assert(d.skip(0) =~= d);
        assert forall|i: int| 0 <= i < d.len() implies #[trigger] d[i] != '\\' by {
            assert(d[i] == path[i]);
        }
        lemma_same_components(d);
    }
}

/// The slash separates in both ways of reading, the backslash in one of them,
/// and no other character in either.
pub proof fn law_separators(c: char)
    ensures
        slash()('/'),
        slash_or_backslash()('/'),
        slash_or_backslash()('\\'),
        slash()(c) ==> c == '/',
        c != '/' && c != '\\' ==> !slash_or_backslash()(c),
{
}

/// With which characters a path is absolute, begins with two separators, is
/// verbatim or names a drive.
pub proof fn law_prefixes(path: Seq<char>)
    ensures
        is_absolute(path) <==> path.len() >= 1 && path.take(1) == seq!['/'],
        begins_with_two_separators(path) <==> path.len() >= 2 && (path.take(2) == seq!['/', '/']
            || path.take(2) == seq!['/', '\\'] || path.take(2) == seq!['\\', '/'] || path.take(2)
            == seq!['\\', '\\']),
        is_verbatim(path) <==> path.len() >= 4 && path.take(4) == seq!['\\', '\\', '?', '\\'],
        drive_len(path) == 2 <==> path.len() >= 2 && exists|letter: char|
            path.take(2) == #[trigger] seq![letter, ':'] && ('a' <= letter <= 'z' || 'A' <= letter
                <= 'Z'),
        drive_len(path) == 0 || drive_len(path) == 2,
{
    if path.len() >= 1 {
        assert(path.take(1)[0] == path[0]);
        if is_absolute(path) {
            assert(path.take(1) =~= seq!['/']);
        }
    }
    if path.len() >= 2 {
        let two = path.take(2);
        assert(two[0] == path[0] && two[1] == path[1]);
        assert(two =~= seq![path[0], path[1]]);
        assert(forall|a: char, b: char|
            two == #[trigger] seq![a, b] ==> seq![a, b][0] == a && seq![a, b][1] == b);
    }
    if path.len() >= 4 {
        let four = path.take(4);
        assert(four =~= seq![path[0], path[1], path[2], path[3]]);
        assert(four[0] == path[0] && four[1] == path[1] && four[2] == path[2] && four[3]
            == path[3]);
        let verbatim = seq!['\\', '\\', '?', '\\'];
        assert(verbatim[0] == '\\' && verbatim[1] == '\\' && verbatim[2] == '?' && verbatim[3]
            == '\\');
    }
}

/// Which paths are slash paths: those without a backslash that do not begin with
/// two slashes and, unless they are absolute, hold no colon.
pub proof fn law_slash_paths(path: Seq<char>)
    ensures
        is_slash_path(path) <==> {
            &&& !path.contains('\\')
            &&& !(path.len() >= 2 && path.take(2) == seq!['/', '/'])
            &&& (path.len() >= 1 && path[0] == '/') || !path.contains(':')
        },
{
    law_prefixes(path);
    if path.len() >= 2 {
        assert(path.take(2)[0] == path[0] && path.take(2)[1] == path[1]);
        if path[0] == '/' && path[1] == '/' {
            assert(path.take(2) =~= seq!['/', '/']);
        }
    }
}

proof fn lemma_some_run(text: Seq<char>, separates: spec_fn(char) -> bool, start: int, i: int)
    requires
        start < i,
    ensures
        runs_from(text, separates, start, i).len() > 0,
    decreases text.len() - i,
{
    if i < text.len() && !separates(text[i]) {
        lemma_some_run(text, separates, start, i + 1);
    }
}

proof fn lemma_dots_behind(names: Seq<Seq<char>>, last: Seq<char>)
    ensures
        without_dots(names.push(last)) == if last == seq!['.'] {
            without_dots(names)
        } else {
            without_dots(names).push(last)
        },
{
    assert(names.push(last).drop_last() =~= names);
}

/// The components of a path are those of what stands before its last separator
/// and what follows it, unless that is empty or `.`.
pub proof fn law_last_component(
    dir: Seq<char>,
    separates: spec_fn(char) -> bool,
    separator: char,
    last: Seq<char>,
)
    requires
        separates(separator),
        forall|p: int| 0 <= p < last.len() ==> !separates(#[trigger] last[p]),
    ensures
        components_by(dir + seq![separator] + last, separates) == if last.len() == 0 || last
            == seq!['.'] {
            components_by(dir, separates)
        } else {
            components_by(dir, separates).push(last)
        },
        is_rooted(dir + seq![separator] + last, separates) <==> dir.len() == 0 || separates(dir[0]),
{
    let path = dir + seq![separator] + last;
    let before = runs_from(dir, separates, 0, 0);
    let names = runs_from(path, separates, 0, 0);
    law_last_run(dir, separates, separator, last);
    if dir.len() == 0 {
        assert(path[0] == separator);
        assert(before =~= Seq::empty());
    } else {
        assert(path[0] == dir[0]);
    }
    lemma_dots_behind(before, last);
    if dir.len() > 0 && !separates(dir[0]) {
        lemma_some_run(dir, separates, 0, 1);
        assert(before.len() > 0);
        if last.len() > 0 {
            assert(names.skip(1) =~= before.skip(1).push(last));
            lemma_dots_behind(before.skip(1), last);
            if before[0] == seq!['.'] && last != seq!['.'] {
                assert(seq![seq!['.']] + without_dots(before.skip(1)).push(last) =~= (
                seq![seq!['.']] + without_dots(before.skip(1))).push(last));
            }
        }
    }
}

/// A path without separators is one component, unless it is empty.
pub proof fn law_single_component(path: Seq<char>, separates: spec_fn(char) -> bool)
    requires
        forall|p: int| 0 <= p < path.len() ==> !separates(#[trigger] path[p]),
    ensures
        components_by(path, separates) == if path.len() == 0 {
            Seq::empty()
        } else {
            seq![path]
        },
        !is_rooted(path, separates),
{
    law_single_run(path, separates);
    if path.len() > 0 {
        let names = seq![path];
        assert(names.skip(1) =~= Seq::empty());
        assert(seq![seq!['.']] + without_dots(Seq::empty()) =~= seq![seq!['.']]);
        assert(Seq::<Seq<char>>::empty().push(path) =~= names);
        lemma_dots_behind(Seq::empty(), path);
    }
}

/// The file name in a path is what follows its last separator, unless that is
/// `..`. Separators at the end and a `.` behind one do not count.
pub proof fn law_final_name(
    dir: Seq<char>,
    separates: spec_fn(char) -> bool,
    separator: char,
    last: Seq<char>,
)
    requires
        separates(separator),
        forall|p: int| 0 <= p < last.len() ==> !separates(#[trigger] last[p]),
    ensures
        final_name_by(dir + seq![separator] + last, separates) == if last.len() == 0 || last
            == seq!['.'] {
            final_name_by(dir, separates)
        } else if last == seq!['.', '.'] {
            None
        } else {
            Some(last)
        },
{
    law_last_component(dir, separates, separator, last);
}

/// The file name in a path without separators is the path, unless it is empty,
/// `.` or `..`.
pub proof fn law_plain_name(path: Seq<char>, separates: spec_fn(char) -> bool)
    requires
        forall|p: int| 0 <= p < path.len() ==> !separates(#[trigger] path[p]),
    ensures
        final_name_by(path, separates) == if path.len() == 0 || path == seq!['.'] || path
            == seq!['.', '.'] {
            None
        } else {
            Some(path)
        },
{
    law_single_component(path, separates);
}

/// The file name in a path that is read by slashes is what follows its last
/// slash.
pub proof fn law_name_behind_slash(dir: Seq<char>, name: Seq<char>)
    requires
        name.len() > 0,
        !name.contains('/'),
        name != seq!['.'],
        name != seq!['.', '.'],
    ensures
        final_name(dir + seq!['/'] + name) == Some(name),
        final_name(name) == Some(name),
        final_name(dir + seq!['/'] + name + seq!['/']) == Some(name),
{
    law_final_name(dir, slash(), '/', name);
    law_plain_name(name, slash());
    law_final_name(dir + seq!['/'] + name, slash(), '/', Seq::empty());
    assert(dir + seq!['/'] + name + seq!['/'] + Seq::empty() =~= dir + seq!['/'] + name
        + seq!['/']);
}

/// A drive is no part of the file name behind it. Without one the whole path is
/// read by slashes and backslashes.
pub proof fn law_name_behind_drive(letter: char, path: Seq<char>)
    ensures
        'a' <= letter <= 'z' || 'A' <= letter <= 'Z' ==> final_name_after_drive(
            seq![letter, ':'] + path,
        ) == final_name_by(path, slash_or_backslash()),
        path.len() < 2 || path[1] != ':' ==> final_name_after_drive(path) == final_name_by(
            path,
            slash_or_backslash(),
        ),
{
    let whole = seq![letter, ':'] + path;
    assert(whole[0] == letter && whole[1] == ':');
    assert(whole.skip(2) =~= path);
    assert(path.skip(0) =~= path);
}

/// A text occurs between any two others.
pub proof fn law_parts(before: Seq<char>, part: Seq<char>, after: Seq<char>)
    ensures
        is_part_of(part, before + part + after),
{
    let text = before + part + after;
    let i = before.len() as int;
    assert(text.subrange(i, i + part.len()) =~= part);
}

/// Where a text occurs in another one, something stands before it and something
/// behind it. Returns both.
pub proof fn law_part_stands_between(part: Seq<char>, text: Seq<char>) -> (around: (
    Seq<char>,
    Seq<char>,
))
    requires
        is_part_of(part, text),
    ensures
        text == around.0 + part + around.1,
{
    let (i, j) = choose|i: int, j: int|
        0 <= i <= j <= text.len() && part == #[trigger] text.subrange(i, j);
    assert(text =~= text.take(i) + part + text.skip(j));
    (text.take(i), text.skip(j))
}

/// A path begins with its parent, which is shorter.
pub proof fn law_parent_begins_path(dir: Seq<char>, path: Seq<char>) -> (rest: Seq<char>)
    requires
        is_parent(Some(dir), path),
    ensures
        path == dir + rest,
        rest.len() > 0,
{
    assert(path =~= dir + path.skip(dir.len() as int));
    path.skip(dir.len() as int)
}

/// The parent of a path that is read by slashes has the components of what
/// stands before its last name, and is absolute if the path is.
pub proof fn law_parent_before_name(
    parent: Option<Seq<char>>,
    dir: Seq<char>,
    name: Seq<char>,
)
    requires
        name.len() > 0,
        !name.contains('/'),
        name != seq!['.'],
        is_slash_parent(parent, dir + seq!['/'] + name),
    ensures
        parent is Some,
        components(parent->0) == components(dir),
        is_absolute(parent->0) <==> dir.len() == 0 || dir[0] == '/',
{
    let path = dir + seq!['/'] + name;
    law_last_component(dir, slash(), '/', name);
    assert(path.skip(0) =~= path);
    assert(components(dir).push(name).drop_last() =~= components(dir));
    if let Some(d) = parent {
        assert(d.skip(0) =~= d);
    }
}

/// The parent of a lone name has no components and is not absolute. A path
/// without components has no parent.
pub proof fn law_parent_of_name(parent: Option<Seq<char>>, path: Seq<char>)
    requires
        is_slash_parent(parent, path),
    ensures
        path.len() > 0 && !path.contains('/') ==> parent is Some && components(parent->0).len()
            == 0 && !is_absolute(parent->0),
        (forall|i: int| 0 <= i < path.len() ==> #[trigger] path[i] == '/') ==> parent is None,
{
    assert(path.skip(0) =~= path);
    if let Some(d) = parent {
        assert(d.skip(0) =~= d);
    }
    if !path.contains('/') {
        law_single_component(path, slash());
    }
    if forall|i: int| 0 <= i < path.len() ==> #[trigger] path[i] == '/' {
        lemma_only_slashes(path);
    }
}

proof fn lemma_only_slashes(path: Seq<char>)
    requires
        forall|i: int| 0 <= i < path.len() ==> #[trigger] path[i] == '/',
    ensures
        components(path).len() == 0,
    decreases path.len(),
{
    if path.len() == 0 {
        law_single_component(path, slash());
    } else {
        lemma_only_slashes(path.drop_last());
        law_last_component(path.drop_last(), slash(), '/', Seq::empty());
        assert(path.drop_last() + seq!['/'] + Seq::empty() =~= path);
    }
}

proof fn lemma_dots_dropped(path: Seq<char>, separates: spec_fn(char) -> bool)
    ensures
        without_dots(components_by(path, separates)) == without_dots(
            runs_from(path, separates, 0, 0),
        ),
{
    let names = runs_from(path, separates, 0, 0);
    lemma_dots_dropped_twice(names);
    if !is_rooted(path, separates) && names.len() > 0 && names[0] == seq!['.'] {
        let rest = names.skip(1);
        assert(seq![seq!['.']] + rest =~= names);
        lemma_dot_before(rest);
        lemma_dot_before(without_dots(rest));
        lemma_dots_dropped_twice(rest);
    }
}

proof fn lemma_dots_dropped_twice(names: Seq<Seq<char>>)
    ensures
        without_dots(without_dots(names)) == without_dots(names),
    decreases names.len(),
{
    if names.len() > 0 {
        lemma_dots_dropped_twice(names.drop_last());
        lemma_dots_behind(without_dots(names.drop_last()), names.last());
    }
}

proof fn lemma_dot_before(names: Seq<Seq<char>>)
    ensures
        without_dots(seq![seq!['.']] + names) == without_dots(names),
    decreases names.len(),
{
    let whole = seq![seq!['.']] + names;
    if names.len() == 0 {
        assert(whole.drop_last() =~= names);
        assert(whole.last() == seq!['.']);
    } else {
        lemma_dot_before(names.drop_last());
        assert(whole.drop_last() =~= seq![seq!['.']] + names.drop_last());
        assert(whole.last() == names.last());
    }
}

/// The parent of a path behind a drive begins with the drive. Behind it stand
/// the components of what stands before the last name, but for a `.`, and a root
/// if the path has one there.
pub proof fn law_parent_behind_drive(
    parent: Option<Seq<char>>,
    letter: char,
    dir: Seq<char>,
    separator: char,
    name: Seq<char>,
)
    requires
        'a' <= letter <= 'z' || 'A' <= letter <= 'Z',
        separator == '/' || separator == '\\',
        name.len() > 0,
        !name.contains('/'),
        !name.contains('\\'),
        name != seq!['.'],
        is_parent_after_drive(parent, seq![letter, ':'] + (dir + seq![separator] + name)),
    ensures
        parent is Some,
        parent->0.len() >= 2,
        without_dots(components_by(parent->0.skip(2), slash_or_backslash())) == without_dots(
            components_by(dir, slash_or_backslash()),
        ),
        is_rooted(parent->0.skip(2), slash_or_backslash()) <==> dir.len() == 0 || dir[0] == '/'
            || dir[0] == '\\',
{
    let rest = dir + seq![separator] + name;
    let path = seq![letter, ':'] + rest;
    let both = slash_or_backslash();
    assert(path[0] == letter && path[1] == ':');
    assert(path.skip(2) =~= rest);
    law_last_component(dir, both, separator, name);
    law_last_run(dir, both, separator, name);
    lemma_dots_behind(runs_from(dir, both, 0, 0), name);
    lemma_dots_dropped(dir, both);
    assert(components_by(dir, both).push(name).drop_last() =~= components_by(dir, both));
    let named = without_dots(runs_from(dir, both, 0, 0));
    assert(named.push(name).drop_last() =~= named);
    if let Some(d) = parent {
        lemma_dots_dropped(d.skip(2), both);
    }
}

/// A path that begins with two slashes, holds no backslash and has more than two
/// components has its last one as its file name, and a parent with the others.
/// Of one with two or fewer that holds, or there is neither.
pub proof fn law_shares(name: Option<Seq<char>>, dir: Option<Seq<char>>, path: Seq<char>)
    requires
        !path.contains('\\'),
        path.len() >= 2,
        path.take(2) == seq!['/', '/'],
        is_share_name(name, path),
        is_parent(dir, path),
    ensures
        name == final_name(path) || name is None && components(path).len() <= 2,
        dir is Some ==> components(path).len() > 0 && components(dir->0) == components(
            path,
        ).drop_last() && is_absolute(dir->0),
        dir is None ==> components(path).len() <= 2,
{
    assert(path[0] == path.take(2)[0] && path[1] == path.take(2)[1]);
    lemma_same_components(path);
    assert(path.skip(0) =~= path);
    if let Some(d) = dir {
        assert(d.skip(0) =~= d);
        assert forall|i: int| 0 <= i < d.len() implies #[trigger] d[i] != '\\' by {
            assert(d[i] == path[i]);
        }
        lemma_same_components(d);
    }
}

} // verus!
