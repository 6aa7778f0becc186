//! Removal of the outer `<svg ...>...</svg>` wrapper from markup.

use vstd::prelude::*;
use crate::text::{chars_of, push_range};

verus! {

/// The lower-case form of an ASCII capital; any other character is itself.
pub open spec fn fold_ascii(ch: char) -> char {
    if 'A' <= ch && ch <= 'Z' {
        ((ch as u32) + 32) as char
    } else {
        ch
    }
}

/// The marker that opens the root element: `<svg`.
pub open spec fn open_marker() -> Seq<char> {
    seq!['<', 's', 'v', 'g']
}

/// The marker that closes the root element: `</svg`.
pub open spec fn close_marker() -> Seq<char> {
    seq!['<', '/', 's', 'v', 'g']
}

/// `marker`, which is in lower case, stands in `s` at index `at`, whatever
/// the case of the ASCII letters of `s` there.
pub open spec fn marker_at(s: Seq<char>, marker: Seq<char>, at: int) -> bool {
    &&& 0 <= at
    &&& at + marker.len() <= s.len()
    &&& forall|k: int| 0 <= k < marker.len() ==> fold_ascii(#[trigger] s[at + k]) == marker[k]
}

/// The least index from `from` on at which `marker` stands in `s`.
pub open spec fn first_marker_from(s: Seq<char>, marker: Seq<char>, from: int) -> Option<int>
    decreases s.len() - from,
{
    if from < 0 || from + marker.len() > s.len() {
        None
    } else if marker_at(s, marker, from) {
        Some(from)
    } else {
        first_marker_from(s, marker, from + 1)
    }
}

/// The greatest index under `below` at which `marker` stands in `s`.
pub open spec fn last_marker_below(s: Seq<char>, marker: Seq<char>, below: int) -> Option<int>
    decreases below,
{
    if below <= 0 {
        None
    } else if marker_at(s, marker, below - 1) {
        Some(below - 1)
    } else {
        last_marker_below(s, marker, below - 1)
    }
}

/// The least index from `from` on at which `s` holds `>`.
pub open spec fn tag_end_from(s: Seq<char>, from: int) -> Option<int>
    decreases s.len() - from,
{
    if from < 0 || from >= s.len() {
        None
    } else if s[from] == '>' {
        Some(from)
    } else {
        tag_end_from(s, from + 1)
    }
}

/// Where the root element's two tags stand in a string.
pub struct Wrapper {
    /// Index of the `>` that ends the opening tag.
    pub open_end: usize,
    /// Index of the `<` that starts the closing tag.
    pub close_start: usize,
    /// Index of the `>` that ends the closing tag.
    pub close_end: usize,
}

/// The root wrapper of `s`: the opening tag is the first `<svg` up to the
/// next `>`, the closing tag the last `</svg` up to the next `>`, and the
/// closing tag starts behind the end of the opening tag. `None` where any of
/// the four is missing or the two tags are out of order.
pub open spec fn wrapper_of(s: Seq<char>) -> Option<(int, int, int)> {
    match first_marker_from(s, open_marker(), 0) {
        None => None,
        Some(open_start) => match tag_end_from(s, open_start) {
            None => None,
            Some(open_end) => match last_marker_below(s, close_marker(), s.len() as int) {
                None => None,
                Some(close_start) => match tag_end_from(s, close_start) {
                    None => None,
                    Some(close_end) => if close_start > open_end {
                        Some((open_end, close_start, close_end))
                    } else {
                        None
                    },
                },
            },
        },
    }
}

/// What is left of `s` when its root wrapper is taken away: the text between
/// the two tags, then the text behind the closing tag. Empty where `s` has no
/// root wrapper.
pub open spec fn stripped(s: Seq<char>) -> Seq<char> {
    match wrapper_of(s) {
        None => Seq::empty(),
        Some((open_end, close_start, close_end)) => s.subrange(open_end + 1, close_start)
            + s.subrange(close_end + 1, s.len() as int),
    }
}

fn lower(ch: char) -> (out: char)
    ensures
        out == fold_ascii(ch),
{
    if 'A' <= ch && ch <= 'Z' {
        ((ch as u8) + 32) as char
    } else {
        ch
    }
}

/// Whether `marker` stands in `chars` at index `at`.
pub fn marker_here(chars: &Vec<char>, marker: &Vec<char>, at: usize) -> (found: bool)
    ensures
        found == marker_at(chars@, marker@, at as int),
{
    if marker.len() > chars.len() || at > chars.len() - marker.len() {
        return false;
    }
    let mut k: usize = 0;
    while k < marker.len()
        invariant
            at + marker.len() <= chars.len(),
            k <= marker.len(),
            forall|j: int| 0 <= j < k ==> fold_ascii(#[trigger] chars@[at + j]) == marker@[j],
        decreases marker.len() - k,
    {
        if lower(chars[at + k]) != marker[k] {
            return false;
        }
        k += 1;
    }
    true
}

/// The four characters of the opening marker.
pub fn open_marker_chars() -> (marker: Vec<char>)
    ensures
        marker@ == open_marker(),
{
    let mut marker: Vec<char> = Vec::new();
    marker.push('<');
    marker.push('s');
    marker.push('v');
    marker.push('g');
    assert(marker@ =~= open_marker());
    marker
}

/// The five characters of the closing marker.
pub fn close_marker_chars() -> (marker: Vec<char>)
    ensures
        marker@ == close_marker(),
{
    let mut marker: Vec<char> = Vec::new();
    marker.push('<');
    marker.push('/');
    marker.push('s');
    marker.push('v');
    marker.push('g');
    assert(marker@ =~= close_marker());
    marker
}

/// The first place at which `marker` stands in `chars`, scanning from the
/// left.
pub fn find_first(chars: &Vec<char>, marker: &Vec<char>) -> (found: Option<usize>)
    ensures
        match found {
            Some(at) => first_marker_from(chars@, marker@, 0) == Some(at as int),
            None => first_marker_from(chars@, marker@, 0) is None,
        },
{
    if marker.len() > chars.len() {
        return None;
    }
    let last: usize = chars.len() - marker.len();
    let mut at: usize = 0;
    while at <= last
        invariant
            last == chars.len() - marker.len(),
            at <= last + 1,
            first_marker_from(chars@, marker@, 0) == first_marker_from(chars@, marker@, at as int),
        decreases last + 1 - at,
    {
        if marker_here(chars, marker, at) {
            return Some(at);
        }
        at += 1;
    }
    None
}

/// The last place at which `marker` stands in `chars`, scanning from the
/// right.
pub fn find_last(chars: &Vec<char>, marker: &Vec<char>) -> (found: Option<usize>)
    ensures
        match found {
            Some(at) => last_marker_below(chars@, marker@, chars.len() as int) == Some(at as int),
            None => last_marker_below(chars@, marker@, chars.len() as int) is None,
        },
{
    let mut below: usize = chars.len();
    while below > 0
        invariant
            below <= chars.len(),
            last_marker_below(chars@, marker@, chars.len() as int) == last_marker_below(
                chars@,
                marker@,
                below as int,
            ),
        decreases below,
    {
        if marker_here(chars, marker, below - 1) {
            return Some(below - 1);
        }
        below -= 1;
    }
    None
}

/// The first `>` in `chars` at or behind index `from`.
pub fn find_tag_end(chars: &Vec<char>, from: usize) -> (found: Option<usize>)
    ensures
        match found {
            Some(at) => tag_end_from(chars@, from as int) == Some(at as int),
            None => tag_end_from(chars@, from as int) is None,
        },
{
    let mut at: usize = from;
    while at < chars.len()
        invariant
            from <= at,
            tag_end_from(chars@, from as int) == tag_end_from(chars@, at as int),
        decreases chars.len() - at,
    {
        if chars[at] == '>' {
            return Some(at);
        }
        at += 1;
    }
    None
}

/// The root wrapper of `chars`, where it has one.
pub fn find_wrapper(chars: &Vec<char>) -> (found: Option<Wrapper>)
    ensures
        match found {
            Some(w) => wrapper_of(chars@) == Some(
                (w.open_end as int, w.close_start as int, w.close_end as int),
            ),
            None => wrapper_of(chars@) is None,
        },
{
    let open = open_marker_chars();
    let close = close_marker_chars();
    let open_start = match find_first(chars, &open) {
        Some(at) => at,
        None => {
            return None;
        },
    };
    let open_end = match find_tag_end(chars, open_start) {
        Some(at) => at,
        None => {
            return None;
        },
    };
    let close_start = match find_last(chars, &close) {
        Some(at) => at,
        None => {
            return None;
        },
    };
    let close_end = match find_tag_end(chars, close_start) {
        Some(at) => at,
        None => {
            return None;
        },
    };
    if close_start <= open_end {
        return None;
    }
    Some(Wrapper { open_end, close_start, close_end })
}

/// Removes the outer `<svg ...>...</svg>` wrapper in place. Where no valid
/// wrapper is found, the string is left empty.
pub fn strip(svg: &mut String)
    ensures
        final(svg)@ == stripped(old(svg)@),
{
    let chars = chars_of(svg.as_str());
    let mut out = String::new();
    match find_wrapper(&chars) {
        Some(w) => {
            proof {
                lemma_tag_end_in_range(chars@, w.close_start as int);
            }
            push_range(&mut out, &chars, w.open_end + 1, w.close_start);
            push_range(&mut out, &chars, w.close_end + 1, chars.len());
        },
        None => {},
    }
    *svg = out;
}

/// A `>` that `tag_end_from` finds stands at or behind `from`, inside `s`,
/// and no `>` stands between `from` and it.
pub proof fn lemma_tag_end_in_range(s: Seq<char>, from: int)
    ensures
        match tag_end_from(s, from) {
            Some(at) => 0 <= from <= at < s.len() && s[at] == '>' && forall|j: int|
                from <= j < at ==> s[j] != '>',
            None => forall|j: int| 0 <= from <= j < s.len() ==> s[j] != '>',
        },
    decreases s.len() - from,
{
    if 0 <= from < s.len() && s[from] != '>' {
        lemma_tag_end_in_range(s, from + 1);
    }
}

/// What `first_marker_from` finds is the least index from `from` on at which
/// `marker` stands; it finds nothing only where `marker` stands nowhere from
/// `from` on.
pub proof fn lemma_first_marker(s: Seq<char>, marker: Seq<char>, from: int)
    ensures
        match first_marker_from(s, marker, from) {
            Some(at) => 0 <= from <= at && marker_at(s, marker, at) && forall|j: int|
                from <= j < at ==> !marker_at(s, marker, j),
            None => forall|j: int| 0 <= from <= j ==> !marker_at(s, marker, j),
        },
    decreases s.len() - from,
{
    if 0 <= from && from + marker.len() <= s.len() && !marker_at(s, marker, from) {
        lemma_first_marker(s, marker, from + 1);
    }
}

/// What `last_marker_below` finds is the greatest index under `below` at
/// which `marker` stands; it finds nothing only where `marker` stands nowhere
/// under `below`.
pub proof fn lemma_last_marker(s: Seq<char>, marker: Seq<char>, below: int)
    ensures
        match last_marker_below(s, marker, below) {
            Some(at) => 0 <= at < below && marker_at(s, marker, at) && forall|j: int|
                at < j < below ==> !marker_at(s, marker, j),
            None => forall|j: int| j < below ==> !marker_at(s, marker, j),
        },
    decreases below,
{
    if below > 0 && !marker_at(s, marker, below - 1) {
        lemma_last_marker(s, marker, below - 1);
    }
}

/// A string in which `<svg` stands nowhere, in whatever case, is stripped to
/// the empty string.
pub proof fn lemma_strip_without_open_marker(s: Seq<char>)
    requires
        forall|at: int| !marker_at(s, open_marker(), at),
    ensures
        stripped(s) == Seq::<char>::empty(),
{
    lemma_first_marker(s, open_marker(), 0);
}

/// A string in which `</svg` stands nowhere, in whatever case, is stripped to
/// the empty string.
pub proof fn lemma_strip_without_close_marker(s: Seq<char>)
    requires
        forall|at: int| !marker_at(s, close_marker(), at),
    ensures
        stripped(s) == Seq::<char>::empty(),
{
    lemma_last_marker(s, close_marker(), s.len() as int);
}

/// A string whose last `</svg` starts at or before the `>` that ends its
/// opening tag is stripped to the empty string.
pub proof fn lemma_strip_tags_out_of_order(
    s: Seq<char>,
    open_start: int,
    open_end: int,
    close_start: int,
)
    requires
        marker_at(s, open_marker(), open_start),
        forall|j: int| 0 <= j < open_start ==> !marker_at(s, open_marker(), j),
        open_start <= open_end < s.len(),
        s[open_end] == '>',
        forall|j: int| open_start <= j < open_end ==> s[j] != '>',
        marker_at(s, close_marker(), close_start),
        forall|j: int| close_start < j ==> !marker_at(s, close_marker(), j),
        close_start <= open_end,
    ensures
        stripped(s) == Seq::<char>::empty(),
{
    lemma_first_marker(s, open_marker(), 0);
    lemma_tag_end_in_range(s, open_start);
    lemma_last_marker(s, close_marker(), s.len() as int);
}

/// Stripping is not idempotent: a string that has no root wrapper is stripped
/// to the empty string, and so is what is left of it.
pub proof fn lemma_strip_twice_without_wrapper(s: Seq<char>)
    requires
        wrapper_of(s) is None,
    ensures
        stripped(s) == Seq::<char>::empty(),
        stripped(stripped(s)) == Seq::<char>::empty(),
{
}

/// Where the closing tag ends the string, what is left is exactly the text
/// between the `>` of the opening tag and the `<` of the closing tag.
pub proof fn lemma_strip_inner_text(s: Seq<char>, open_end: int, close_start: int)
    requires
        wrapper_of(s) == Some((open_end, close_start, s.len() - 1)),
    ensures
        stripped(s) == s.subrange(open_end + 1, close_start),
{
    assert(s.subrange(s.len() - 1 + 1, s.len() as int) =~= Seq::<char>::empty());
    assert(stripped(s) =~= s.subrange(open_end + 1, close_start));
}

/// The first `>` from `from` on is at `at` where `>` stands there and nowhere
/// between `from` and there.
pub proof fn lemma_tag_end_at(s: Seq<char>, from: int, at: int)
    requires
        0 <= from <= at < s.len(),
        s[at] == '>',
        forall|j: int| from <= j < at ==> s[j] != '>',
    ensures
        tag_end_from(s, from) == Some(at),
{
    lemma_tag_end_in_range(s, from);
}

/// The first place of `marker` is `at` where it stands there and nowhere
/// before.
pub proof fn lemma_first_marker_at(s: Seq<char>, marker: Seq<char>, at: int)
    requires
        marker_at(s, marker, at),
        forall|j: int| 0 <= j < at ==> !marker_at(s, marker, j),
    ensures
        first_marker_from(s, marker, 0) == Some(at),
{
    lemma_first_marker(s, marker, 0);
}

/// The last place of `marker` is `at` where it stands there and nowhere
/// behind.
pub proof fn lemma_last_marker_at(s: Seq<char>, marker: Seq<char>, at: int)
    requires
        marker.len() > 0,
        marker_at(s, marker, at),
        forall|j: int| at < j ==> !marker_at(s, marker, j),
    ensures
        last_marker_below(s, marker, s.len() as int) == Some(at),
{
    lemma_last_marker(s, marker, s.len() as int);
}

} // verus!
