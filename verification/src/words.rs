//! Texts as sequences of runs of characters between separators.

use vstd::prelude::*;

use crate::listing::views;

verus! {

/// The runs of characters between separators, from position `i` on, where the
/// run that `i` continues began at `start`. No run is empty.
pub open spec fn runs_from(
    text: Seq<char>,
    separates: spec_fn(char) -> bool,
    start: int,
    i: int,
) -> Seq<Seq<char>>
    decreases text.len() - i,
{
    let run = if start < i {
        seq![text.subrange(start, i)]
    } else {
        Seq::empty()
    };
    if i >= text.len() {
        run
    } else if separates(text[i]) {
        run + runs_from(text, separates, i + 1, i + 1)
    } else {
        runs_from(text, separates, start, i + 1)
    }
}

/// The characters with the Unicode property White_Space.
pub open spec fn is_white_space(c: char) -> bool {
    let code = c as int;
    ||| 0x09 <= code <= 0x0d
    ||| code == 0x20
    ||| code == 0x85
    ||| code == 0xa0
    ||| code == 0x1680
    ||| 0x2000 <= code <= 0x200a
    ||| code == 0x2028
    ||| code == 0x2029
    ||| code == 0x202f
    ||| code == 0x205f
    ||| code == 0x3000
}

/// White space as a separator.
pub open spec fn white_space() -> spec_fn(char) -> bool {
    |c: char| is_white_space(c)
}

/// The words of a text, which white space separates.
pub open spec fn words(text: Seq<char>) -> Seq<Seq<char>> {
    runs_from(text, white_space(), 0, 0)
}

/// `char::is_whitespace` tells whether a character has the Unicode property
/// White_Space.
pub assume_specification[ char::is_whitespace ](c: char) -> (r: bool)
    ensures
        r == is_white_space(c),
;

/// The characters of a text.
pub fn characters(text: &str) -> (r: Vec<char>)
    ensures
        r@ == text@,
{
    let mut chars: Vec<char> = Vec::new();
    for c in it: text.chars()
        invariant
            it.seq() == text@,
            chars@ == text@.take(it.index()),
    {
        chars.push(c);
    }
    assert(text@.take(text@.len() as int) =~= text@);
    chars
}

/// The words of a text, in order.
pub fn split_words(text: &str) -> (r: Vec<String>)
    ensures
        views(r@) == words(text@),
{
    let chars = characters(text);
    let len: usize = chars.len();
    let mut found: Vec<String> = Vec::new();
    let mut start: usize = 0;
    for i in 0..len
        invariant
            chars@ == text@,
            len == chars.len(),
            start <= i,
            words(text@) == views(found@) + runs_from(
                text@,
                white_space(),
                start as int,
                i as int,
            ),
    {
        if chars[i].is_whitespace() {
            let ghost earlier = found@;
            if start < i {
                found.push(text.substring_char(start, i).to_string());
                assert(views(found@) =~= views(earlier).push(
                    text@.subrange(start as int, i as int),
                ));
            }
            start = i + 1;
            assert(words(text@) =~= views(found@) + runs_from(
                text@,
                white_space(),
                start as int,
                i + 1,
            ));
        }
    }
    let ghost earlier = found@;
    if start < len {
        found.push(text.substring_char(start, len).to_string());
        assert(views(found@) =~= views(earlier).push(text@.subrange(start as int, len as int)));
    }
    assert(words(text@) =~= views(found@));
    found
}

/// Of the ASCII characters, the space and those from the tab to the carriage
/// return are white space, and no others.
pub proof fn law_ascii_white_space(c: char)
    requires
        c as u32 <= 0x7f,
    ensures
        is_white_space(c) <==> c == ' ' || '\t' <= c <= '\r',
{
}

/// Outside of ASCII, white space is the next line, the no-break space, the
/// spaces of Ogham, of typography and of mathematics, the ideographic space,
/// and the separators of lines and paragraphs.
pub proof fn law_other_white_space(c: char)
    requires
        c as u32 > 0x7f,
    ensures
        is_white_space(c) <==> {
            ||| c as u32 == 0x85 || c as u32 == 0xa0 || c as u32 == 0x1680
            ||| 0x2000 <= c as u32 <= 0x200a
            ||| 0x2028 <= c as u32 <= 0x2029
            ||| c as u32 == 0x202f || c as u32 == 0x205f || c as u32 == 0x3000
        },
{
}

/// A range of positions in a text is a run: it is not empty, holds no
/// separator, and cannot be made longer.
pub open spec fn is_run(
    text: Seq<char>,
    separates: spec_fn(char) -> bool,
    from: int,
    to: int,
) -> bool {
    &&& 0 <= from < to <= text.len()
    &&& forall|p: int| from <= p < to ==> !separates(#[trigger] text[p])
    &&& from == 0 || separates(text[from - 1])
    &&& to == text.len() || separates(text[to])
}

proof fn lemma_runs(
    text: Seq<char>,
    separates: spec_fn(char) -> bool,
    start: int,
    i: int,
) -> (at: Seq<(int, int)>)
    requires
        0 <= start <= i <= text.len(),
        forall|p: int| start <= p < i ==> !separates(#[trigger] text[p]),
        start == 0 || separates(text[start - 1]),
    ensures
        at.len() == runs_from(text, separates, start, i).len(),
        forall|k: int|
            0 <= k < at.len() ==> {
                &&& start <= (#[trigger] at[k]).0
                &&& is_run(text, separates, at[k].0, at[k].1)
                &&& runs_from(text, separates, start, i)[k] == text.subrange(at[k].0, at[k].1)
            },
        forall|k: int, l: int|
            0 <= k < l < at.len() ==> (#[trigger] at[k]).1 < (#[trigger] at[l]).0,
        forall|p: int|
            start <= p < text.len() && !separates(#[trigger] text[p]) ==> exists|k: int|
                0 <= k < at.len() && (#[trigger] at[k]).0 <= p < at[k].1,
    decreases text.len() - i,
{
    if i >= text.len() {
        if start < i {
            let at = seq![(start, i)];
            assert forall|p: int|
                start <= p < text.len() && !separates(#[trigger] text[p]) implies exists|k: int|
                0 <= k < at.len() && (#[trigger] at[k]).0 <= p < at[k].1 by {
                assert(at[0].0 <= p < at[0].1);
            }
            at
        } else {
            Seq::empty()
        }
    } else if separates(text[i]) {
        let rest = lemma_runs(text, separates, i + 1, i + 1);
        if start < i {
            let at = seq![(start, i)] + rest;
            assert forall|k: int| 0 <= k < at.len() implies {
                &&& start <= (#[trigger] at[k]).0
                &&& is_run(text, separates, at[k].0, at[k].1)
                &&& runs_from(text, separates, start, i)[k] == text.subrange(at[k].0, at[k].1)
            } by {
                if k > 0 {
                    assert(at[k] == rest[k - 1]);
                }
            }
            assert forall|k: int, l: int| 0 <= k < l < at.len() implies (#[trigger] at[k]).1 < (
            #[trigger] at[l]).0 by {
                assert(at[l] == rest[l - 1]);
                if k > 0 {
                    assert(at[k] == rest[k - 1]);
                }
            }
            assert forall|p: int|
                start <= p < text.len() && !separates(#[trigger] text[p]) implies exists|k: int|
                0 <= k < at.len() && (#[trigger] at[k]).0 <= p < at[k].1 by {
                if p < i {
                    assert(at[0].0 <= p < at[0].1);
                } else {
                    let k = choose|k: int|
                        0 <= k < rest.len() && (#[trigger] rest[k]).0 <= p < rest[k].1;
                    assert(at[k + 1] == rest[k]);
                }
            }
            at
        } else {
            assert(runs_from(text, separates, start, i) =~= runs_from(
                text,
                separates,
                i + 1,
                i + 1,
            ));
            rest
        }
    } else {
        lemma_runs(text, separates, start, i + 1)
    }
}

/// The words of a text are its runs of characters that are no white space, in
/// order, and every such character is in one of them. Returns where the words
/// begin and end.
pub proof fn law_words(text: Seq<char>) -> (at: Seq<(int, int)>)
    ensures
        at.len() == words(text).len(),
        forall|k: int|
            0 <= k < at.len() ==> {
                let (from, to) = #[trigger] at[k];
                &&& 0 <= from < to <= text.len()
                &&& words(text)[k] == text.subrange(from, to)
                &&& forall|p: int| from <= p < to ==> !is_white_space(#[trigger] text[p])
                &&& from == 0 || is_white_space(text[from - 1])
                &&& to == text.len() || is_white_space(text[to])
            },
        forall|k: int, l: int|
            0 <= k < l < at.len() ==> (#[trigger] at[k]).1 < (#[trigger] at[l]).0,
        forall|p: int|
            0 <= p < text.len() && !is_white_space(#[trigger] text[p]) ==> exists|k: int|
                0 <= k < at.len() && (#[trigger] at[k]).0 <= p < at[k].1,
{
    let at = lemma_runs(text, white_space(), 0, 0);
    assert forall|k: int| 0 <= k < at.len() implies {
        let (from, to) = #[trigger] at[k];
        &&& 0 <= from < to <= text.len()
        &&& words(text)[k] == text.subrange(from, to)
        &&& forall|p: int| from <= p < to ==> !is_white_space(#[trigger] text[p])
        &&& from == 0 || is_white_space(text[from - 1])
        &&& to == text.len() || is_white_space(text[to])
    } by {
        assert(is_run(text, white_space(), at[k].0, at[k].1));
        assert forall|p: int| at[k].0 <= p < at[k].1 implies !is_white_space(
            #[trigger] text[p],
        ) by {
            assert(!white_space()(text[p]));
        }
    }
    assert forall|p: int| 0 <= p < text.len() && !is_white_space(#[trigger] text[p]) implies exists|
        k: int,
    | 0 <= k < at.len() && (#[trigger] at[k]).0 <= p < at[k].1 by {
        assert(!white_space()(text[p]));
    }
    at
}

/// What follows the last separator of a text is one more run, if it is not
/// empty.
pub proof fn law_last_run(
    text: Seq<char>,
    separates: spec_fn(char) -> bool,
    separator: char,
    last: Seq<char>,
)
    requires
        separates(separator),
        forall|p: int| 0 <= p < last.len() ==> !separates(#[trigger] last[p]),
    ensures
        runs_from(text + seq![separator] + last, separates, 0, 0) == if last.len() > 0 {
            runs_from(text, separates, 0, 0).push(last)
        } else {
            runs_from(text, separates, 0, 0)
        },
{
    let whole = text + seq![separator] + last;
    let n = text.len() as int + 1;
    assert forall|p: int| n <= p < whole.len() implies !separates(#[trigger] whole[p]) by {
        assert(whole[p] == last[p - n]);
    }
    lemma_single_run(whole, separates, n, n);
    assert(whole.subrange(n, whole.len() as int) =~= last);
    assert(whole[n - 1] == separator);
    assert forall|p: int| 0 <= p < text.len() implies whole[p] == #[trigger] text[p] by {}
    lemma_runs_before(text, whole, separates, 0, 0);
    assert(runs_from(whole, separates, 0, 0) =~= if last.len() > 0 {
        runs_from(text, separates, 0, 0).push(last)
    } else {
        runs_from(text, separates, 0, 0)
    });
}

/// A text without separators is one run, if it is not empty.
pub proof fn law_single_run(text: Seq<char>, separates: spec_fn(char) -> bool)
    requires
        forall|p: int| 0 <= p < text.len() ==> !separates(#[trigger] text[p]),
    ensures
        runs_from(text, separates, 0, 0) == if text.len() > 0 {
            seq![text]
        } else {
            Seq::empty()
        },
{
    lemma_single_run(text, separates, 0, 0);
    assert(text.subrange(0, text.len() as int) =~= text);
}

proof fn lemma_single_run(
    text: Seq<char>,
    separates: spec_fn(char) -> bool,
    start: int,
    i: int,
)
    requires
        0 <= start <= i <= text.len(),
        forall|p: int| start <= p < text.len() ==> !separates(#[trigger] text[p]),
    ensures
        runs_from(text, separates, start, i) == if start < text.len() {
            seq![text.subrange(start, text.len() as int)]
        } else {
            Seq::empty()
        },
    decreases text.len() - i,
{
    if i < text.len() {
        lemma_single_run(text, separates, start, i + 1);
    }
}

proof fn lemma_runs_before(
    text: Seq<char>,
    whole: Seq<char>,
    separates: spec_fn(char) -> bool,
    start: int,
    i: int,
)
    requires
        0 <= start <= i <= text.len() < whole.len(),
        forall|p: int| 0 <= p < text.len() ==> whole[p] == #[trigger] text[p],
        separates(whole[text.len() as int]),
    ensures
        runs_from(whole, separates, start, i) == runs_from(text, separates, start, i) + runs_from(
            whole,
            separates,
            text.len() as int + 1,
            text.len() as int + 1,
        ),
    decreases text.len() - i,
{
    let tail = runs_from(whole, separates, text.len() as int + 1, text.len() as int + 1);
    assert(whole.subrange(start, i) =~= text.subrange(start, i));
    if i < text.len() {
        assert(whole[i] == text[i]);
        if separates(text[i]) {
            lemma_runs_before(text, whole, separates, i + 1, i + 1);
        } else {
            lemma_runs_before(text, whole, separates, start, i + 1);
        }
    }
    assert(runs_from(whole, separates, start, i) =~= runs_from(text, separates, start, i) + tail);
}

} // verus!
