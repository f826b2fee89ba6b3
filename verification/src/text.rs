//! Text handling on sequences of characters: conversion between strings and
//! character vectors, substring search, replacement, splitting and trimming.

use vstd::prelude::*;
use vstd::string::*;

verus! {

/// `String::push` of std appends one character to the end of the string.
pub assume_specification[ String::push ](s: &mut String, c: char)
    ensures
        final(s)@ == old(s)@.push(c),
;

/// The texts of a list of strings.
pub open spec fn texts(list: Seq<String>) -> Seq<Seq<char>> {
    list.map_values(|s: String| s@)
}

/// The characters of `s`, in order.
pub fn chars_of(s: &str) -> (v: Vec<char>)
    ensures
        v@ == s@,
{
    let mut v: Vec<char> = Vec::new();
    for c in it: s.chars()
        invariant
            v@ == s@.take(it.index() as int),
            it.seq() == s@,
    {
        v.push(c);
    }
    v
}

/// The string made of `v[from..to]`.
fn slice_text(v: &Vec<char>, from: usize, to: usize) -> (s: String)
    requires
        from <= to <= v.len(),
    ensures
        s@ == v@.subrange(from as int, to as int),
{
    let mut s = String::new();
    let mut i: usize = from;
    while i < to
        invariant
            from <= i <= to <= v.len(),
            s@ == v@.subrange(from as int, i as int),
        decreases to - i,
    {
        s.push(v[i]);
        i += 1;
    }
    s
}

/// The string made of the characters of `v`.
pub fn text_of(v: &Vec<char>) -> (s: String)
    ensures
        s@ == v@,
{
    let s = slice_text(v, 0, v.len());
    assert(v@.subrange(0, v.len() as int) =~= v@);
    s
}

/// An owned copy of `s`.
pub fn owned(s: &str) -> (r: String)
    ensures
        r@ == s@,
{
    s.to_owned()
}

/// `first` followed by `second`.
pub fn joined(first: &str, second: &str) -> (r: String)
    ensures
        r@ == first@ + second@,
{
    let mut r = first.to_owned();
    r.append(second);
    r
}

/// Whether `needle` stands in `hay` at position `at`.
pub open spec fn occurs_at(hay: Seq<char>, needle: Seq<char>, at: int) -> bool {
    &&& 0 <= at
    &&& at + needle.len() <= hay.len()
    &&& hay.subrange(at, at + needle.len()) == needle
}

/// Whether `needle` stands somewhere in `hay`.
pub open spec fn contains_text(hay: Seq<char>, needle: Seq<char>) -> bool {
    exists|at: int| occurs_at(hay, needle, at)
}

/// Whether `needle` stands in `hay` at position `at`.
fn matches_at(hay: &Vec<char>, needle: &Vec<char>, at: usize) -> (b: bool)
    requires
        at + needle.len() <= hay.len(),
    ensures
        b == occurs_at(hay@, needle@, at as int),
{
    let mut j: usize = 0;
    while j < needle.len()
        invariant
            j <= needle.len(),
            at + needle.len() <= hay.len(),
            forall|k: int| 0 <= k < j ==> hay@[at + k] == needle@[k],
        decreases needle.len() - j,
    {
        if hay[at + j] != needle[j] {
            assert(hay@.subrange(at as int, at + needle.len())[j as int] != needle@[j as int]);
            return false;
        }
        j += 1;
    }
    assert(hay@.subrange(at as int, at + needle.len()) =~= needle@);
    true
}

/// Whether the characters `needle` stand somewhere in `hay`.
pub fn contains_chars(hay: &Vec<char>, needle: &Vec<char>) -> (b: bool)
    ensures
        b == contains_text(hay@, needle@),
{
    if needle.len() > hay.len() {
        return false;
    }
    let last: usize = hay.len() - needle.len();
    let mut at: usize = 0;
    loop
        invariant
            last == hay.len() - needle.len(),
            needle.len() <= hay.len(),
            at <= last,
            forall|k: int| 0 <= k < at ==> !occurs_at(hay@, needle@, k),
        decreases last - at,
    {
        if matches_at(hay, needle, at) {
            return true;
        }
        if at == last {
            return false;
        }
        at += 1;
    }
}

/// Whether `needle` stands somewhere in `hay`.
pub fn contains(hay: &str, needle: &str) -> (b: bool)
    ensures
        b == contains_text(hay@, needle@),
{
    let h = chars_of(hay);
    let n = chars_of(needle);
    contains_chars(&h, &n)
}

/// Whether the two vectors hold the same characters.
pub fn same_chars(a: &Vec<char>, b: &Vec<char>) -> (r: bool)
    ensures
        r == (a@ == b@),
{
    if a.len() != b.len() {
        return false;
    }
    let r = matches_at(a, b, 0);
    proof {
        assert(a@.subrange(0, a.len() as int) =~= a@);
    }
    r
}

/// Whether the two strings hold the same characters.
pub fn same_text(a: &str, b: &str) -> (r: bool)
    ensures
        r == (a@ == b@),
{
    let x = chars_of(a);
    let y = chars_of(b);
    same_chars(&x, &y)
}

/// `text` with every occurrence of `from`, found from the left and not
/// overlapping, replaced by `to`. An empty `from` replaces nothing.
pub open spec fn replaced(text: Seq<char>, from: Seq<char>, to: Seq<char>) -> Seq<char>
    decreases text.len(),
{
    if from.len() == 0 || text.len() < from.len() {
        text
    } else if text.subrange(0, from.len() as int) == from {
        to + replaced(text.subrange(from.len() as int, text.len() as int), from, to)
    } else {
        seq![text[0]] + replaced(text.subrange(1, text.len() as int), from, to)
    }
}

/// Replaces every occurrence of `from` in `text` by `to`.
pub fn replace_all(text: &str, from: &str, to: &str) -> (r: String)
    ensures
        r@ == replaced(text@, from@, to@),
{
    let t = chars_of(text);
    let f = chars_of(from);
    let w = chars_of(to);
    if f.len() == 0 {
        return text_of(&t);
    }
    let mut out: Vec<char> = Vec::new();
    let mut i: usize = 0;
    proof {
        assert(t@.subrange(0, t.len() as int) =~= t@);
        assert(out@ + replaced(t@, f@, w@) =~= replaced(t@, f@, w@));
    }
    while i < t.len()
        invariant
            i <= t.len(),
            f.len() > 0,
            out@ + replaced(t@.subrange(i as int, t.len() as int), f@, w@) == replaced(
                t@,
                f@,
                w@,
            ),
        decreases t.len() - i,
    {
        let ghost rest = t@.subrange(i as int, t.len() as int);
        if f.len() <= t.len() - i && matches_at(&t, &f, i) {
            proof {
                assert(rest.subrange(0, f.len() as int) =~= t@.subrange(i as int, i + f.len()));
                assert(rest.subrange(f.len() as int, rest.len() as int) =~= t@.subrange(
                    i + f.len(),
                    t.len() as int,
                ));
                assert((out@ + w@) + replaced(
                    t@.subrange(i + f.len(), t.len() as int),
                    f@,
                    w@,
                ) =~= out@ + (w@ + replaced(
                    t@.subrange(i + f.len(), t.len() as int),
                    f@,
                    w@,
                )));
            }
            let mut k: usize = 0;
            let ghost before = out@;
            while k < w.len()
                invariant
                    k <= w.len(),
                    out@ == before + w@.take(k as int),
                decreases w.len() - k,
            {
                out.push(w[k]);
                k += 1;
                assert(before + w@.take(k as int) =~= (before + w@.take(k - 1)).push(w@[k - 1]));
            }
            assert(w@.take(w.len() as int) =~= w@);
            i += f.len();
        } else {
            proof {
                if f.len() <= t.len() - i {
                    assert(rest.subrange(0, f.len() as int) =~= t@.subrange(
                        i as int,
                        i + f.len(),
                    ));
                    assert(rest.subrange(1, rest.len() as int) =~= t@.subrange(
                        i + 1,
                        t.len() as int,
                    ));
                    assert(out@.push(t@[i as int]) + replaced(
                        t@.subrange(i + 1, t.len() as int),
                        f@,
                        w@,
                    ) =~= out@ + (seq![rest[0]] + replaced(
                        t@.subrange(i + 1, t.len() as int),
                        f@,
                        w@,
                    )));
                } else {
                    lemma_replaced_short(rest, f@, w@);
                    lemma_replaced_short(t@.subrange(i + 1, t.len() as int), f@, w@);
                    assert(out@.push(t@[i as int]) + t@.subrange(i + 1, t.len() as int) =~= out@
                        + rest);
                }
            }
            out.push(t[i]);
            i += 1;
        }
    }
    proof {
        assert(t@.subrange(t.len() as int, t.len() as int) =~= Seq::<char>::empty());
        assert(out@ + Seq::<char>::empty() =~= out@);
    }
    text_of(&out)
}

/// The position of the first `c` in `s`.
pub open spec fn position(s: Seq<char>, c: char) -> Option<int>
    decreases s.len(),
{
    if s.len() == 0 {
        None
    } else if s[0] == c {
        Some(0)
    } else {
        match position(s.drop_first(), c) {
            Some(at) => Some(at + 1),
            None => None,
        }
    }
}

/// The pieces of `s` between the occurrences of `separator`. A text without
/// the separator is one piece; an empty text is one empty piece.
pub open spec fn pieces(s: Seq<char>, separator: char) -> Seq<Seq<char>>
    decreases s.len(),
{
    match position(s, separator) {
        Some(at) => if 0 <= at < s.len() {
            seq![s.take(at)] + pieces(s.skip(at + 1), separator)
        } else {
            seq![s]
        },
        None => seq![s],
    }
}

/// The parts of `s` before and after its first `separator`.
pub open spec fn halves(s: Seq<char>, separator: char) -> Option<(Seq<char>, Seq<char>)> {
    match position(s, separator) {
        Some(at) => Some((s.take(at), s.skip(at + 1))),
        None => None,
    }
}

/// The first `c` is at a position inside the text, and no `c` stands before it.
pub proof fn lemma_position(s: Seq<char>, c: char)
    ensures
        match position(s, c) {
            Some(at) => 0 <= at < s.len() && s[at] == c && forall|k: int|
                0 <= k < at ==> s[k] != c,
            None => forall|k: int| 0 <= k < s.len() ==> s[k] != c,
        },
    decreases s.len(),
{
    if s.len() > 0 && s[0] != c {
        lemma_position(s.drop_first(), c);
        match position(s.drop_first(), c) {
            Some(at) => {
                assert forall|k: int| 0 <= k < at + 1 implies s[k] != c by {
                    if k > 0 {
                        assert(s.drop_first()[k - 1] == s[k]);
                    }
                }
            },
            None => {
                assert forall|k: int| 0 <= k < s.len() implies s[k] != c by {
                    if k > 0 {
                        assert(s.drop_first()[k - 1] == s[k]);
                    }
                }
            },
        }
    }
}

/// A position that holds `c` with no `c` before it is the first.
pub proof fn lemma_position_is(s: Seq<char>, c: char, at: int)
    requires
        0 <= at < s.len(),
        s[at] == c,
        forall|k: int| 0 <= k < at ==> s[k] != c,
    ensures
        position(s, c) == Some(at),
    decreases s.len(),
{
    if at > 0 {
        assert forall|k: int| 0 <= k < at - 1 implies s.drop_first()[k] != c by {
            assert(s.drop_first()[k] == s[k + 1]);
        }
        lemma_position_is(s.drop_first(), c, at - 1);
    }
}

/// A text that nowhere holds `c` has no first `c`.
pub proof fn lemma_position_none(s: Seq<char>, c: char)
    requires
        forall|k: int| 0 <= k < s.len() ==> s[k] != c,
    ensures
        position(s, c) is None,
    decreases s.len(),
{
    if s.len() > 0 {
        assert forall|k: int| 0 <= k < s.drop_first().len() implies s.drop_first()[k] != c by {
            assert(s.drop_first()[k] == s[k + 1]);
        }
        lemma_position_none(s.drop_first(), c);
    }
}

/// The position of the first `c` in `v` at or after `from`.
fn find_char(v: &Vec<char>, c: char, from: usize) -> (r: Option<usize>)
    requires
        from <= v.len(),
    ensures
        match r {
            Some(at) => from <= at < v.len() && position(v@.skip(from as int), c) == Some(
                at - from,
            ),
            None => position(v@.skip(from as int), c) is None,
        },
{
    let mut i: usize = from;
    while i < v.len()
        invariant
            from <= i <= v.len(),
            forall|k: int| from <= k < i ==> v@[k] != c,
        decreases v.len() - i,
    {
        if v[i] == c {
            proof {
                lemma_position_is(v@.skip(from as int), c, i - from);
            }
            return Some(i);
        }
        i += 1;
    }
    proof {
        lemma_position_none(v@.skip(from as int), c);
    }
    None
}

/// Splits `text` at every `separator`.
pub fn split(text: &str, separator: char) -> (r: Vec<String>)
    ensures
        texts(r@) == pieces(text@, separator),
{
    let t = chars_of(text);
    let mut out: Vec<String> = Vec::new();
    let mut start: usize = 0;
    proof {
        assert(t@.skip(0) =~= t@);
        assert(texts(out@) + pieces(t@, separator) =~= pieces(t@, separator));
    }
    loop
        invariant
            start <= t.len(),
            t@ == text@,
            texts(out@) + pieces(t@.skip(start as int), separator) == pieces(
                t@,
                separator,
            ),
        decreases t.len() - start,
    {
        let ghost rest = t@.skip(start as int);
        let ghost before = texts(out@);
        match find_char(&t, separator, start) {
            Some(at) => {
                let piece = slice_text(&t, start, at);
                proof {
                    assert(rest.take(at - start) =~= t@.subrange(start as int, at as int));
                    assert(rest.skip(at - start + 1) =~= t@.skip(at + 1));
                    assert(before.push(piece@) + pieces(t@.skip(at + 1), separator) =~= before + (
                    seq![piece@] + pieces(t@.skip(at + 1), separator)));
                }
                out.push(piece);
                assert(texts(out@) =~= before.push(piece@));
                start = at + 1;
            },
            None => {
                let piece = slice_text(&t, start, t.len());
                proof {
                    assert(rest =~= t@.subrange(start as int, t.len() as int));
                    assert(before.push(piece@) =~= before + seq![rest]);
                }
                out.push(piece);
                assert(texts(out@) =~= before.push(piece@));
                return out;
            },
        }
    }
}

/// Splits `text` at its first `separator`.
pub fn split_once(text: &str, separator: char) -> (r: Option<(String, String)>)
    ensures
        match r {
            Some((head, tail)) => halves(text@, separator) == Some((head@, tail@)),
            None => halves(text@, separator) is None,
        },
{
    let t = chars_of(text);
    proof {
        assert(t@.skip(0) =~= t@);
    }
    match find_char(&t, separator, 0) {
        Some(at) => {
            let head = slice_text(&t, 0, at);
            let tail = slice_text(&t, at + 1, t.len());
            proof {
                assert(t@.take(at as int) =~= t@.subrange(0, at as int));
                assert(t@.skip(at + 1) =~= t@.subrange(at + 1, t.len() as int));
            }
            Some((head, tail))
        },
        None => None,
    }
}

/// Whether `c` is white space: U+0009 to U+000D, U+0020, U+0085, U+00A0,
/// U+1680, U+2000 to U+200A, U+2028, U+2029, U+202F, U+205F or U+3000.
pub open spec fn is_space(c: char) -> bool {
    let n = c as u32;
    (0x09 <= n <= 0x0d) || n == 0x20 || n == 0x85 || n == 0xa0 || n == 0x1680 || (0x2000 <= n
        <= 0x200a) || n == 0x2028 || n == 0x2029 || n == 0x202f || n == 0x205f || n == 0x3000
}

/// The text without the white space at its start.
pub open spec fn trimmed_start(s: Seq<char>) -> Seq<char>
    decreases s.len(),
{
    if s.len() > 0 && is_space(s[0]) {
        trimmed_start(s.drop_first())
    } else {
        s
    }
}

/// The text without the white space at its end.
pub open spec fn trimmed_end(s: Seq<char>) -> Seq<char>
    decreases s.len(),
{
    if s.len() > 0 && is_space(s.last()) {
        trimmed_end(s.drop_last())
    } else {
        s
    }
}

/// The text without the white space at its start and at its end.
pub open spec fn trimmed(s: Seq<char>) -> Seq<char> {
    trimmed_end(trimmed_start(s))
}

/// Whether `c` is white space.
pub fn is_whitespace(c: char) -> (b: bool)
    ensures
        b == is_space(c),
{
    (c >= '\u{9}' && c <= '\u{d}') || c == ' ' || c == '\u{85}' || c == '\u{a0}' || c
        == '\u{1680}' || (c >= '\u{2000}' && c <= '\u{200a}') || c == '\u{2028}' || c
        == '\u{2029}' || c == '\u{202f}' || c == '\u{205f}' || c == '\u{3000}'
}

/// Removes the white space at the start and at the end of `text`.
pub fn trim(text: &str) -> (r: String)
    ensures
        r@ == trimmed(text@),
{
    let t = chars_of(text);
    let mut start: usize = 0;
    proof {
        assert(t@.skip(0) =~= t@);
    }
    while start < t.len() && is_whitespace(t[start])
        invariant
            start <= t.len(),
            trimmed_start(t@) == trimmed_start(t@.skip(start as int)),
        decreases t.len() - start,
    {
        proof {
            assert(t@.skip(start as int).drop_first() =~= t@.skip(start + 1));
        }
        start += 1;
    }
    let mut end: usize = t.len();
    let ghost body = t@.skip(start as int);
    proof {
        assert(body =~= t@.subrange(start as int, t.len() as int));
    }
    while end > start && is_whitespace(t[end - 1])
        invariant
            start <= end <= t.len(),
            trimmed_end(body) == trimmed_end(t@.subrange(start as int, end as int)),
        decreases end - start,
    {
        proof {
            assert(t@.subrange(start as int, end as int).drop_last() =~= t@.subrange(
                start as int,
                end - 1,
            ));
        }
        end -= 1;
    }
    slice_text(&t, start, end)
}

/// The position of the brace that closes `depth` open braces, looking from
/// position `from` on and counting the braces that open and close on the way.
pub open spec fn closing_brace(text: Seq<char>, from: int, depth: nat) -> Option<int>
    decreases text.len() - from,
{
    if from < 0 || from >= text.len() {
        None
    } else if text[from] == '{' {
        closing_brace(text, from + 1, depth + 1)
    } else if text[from] == '}' {
        if depth <= 1 {
            Some(from)
        } else {
            closing_brace(text, from + 1, (depth - 1) as nat)
        }
    } else {
        closing_brace(text, from + 1, depth)
    }
}

/// What stands between the brace at the start of `text` and the brace that
/// closes it; nothing where the text does not start with a brace or the brace
/// is never closed.
pub open spec fn braced(text: Seq<char>) -> Option<Seq<char>> {
    if text.len() > 0 && text[0] == '{' {
        match closing_brace(text, 1, 1) {
            Some(end) => Some(text.subrange(1, end)),
            None => None,
        }
    } else {
        None
    }
}

/// The closing brace found stands behind the place where the search began.
pub proof fn lemma_closing_brace(text: Seq<char>, from: int, depth: nat)
    requires
        0 <= from,
    ensures
        match closing_brace(text, from, depth) {
            Some(end) => from <= end < text.len() && text[end] == '}',
            None => true,
        },
    decreases text.len() - from,
{
    if from < text.len() {
        if text[from] == '{' {
            lemma_closing_brace(text, from + 1, depth + 1);
        } else if text[from] == '}' {
            if depth > 1 {
                lemma_closing_brace(text, from + 1, (depth - 1) as nat);
            }
        } else {
            lemma_closing_brace(text, from + 1, depth);
        }
    }
}

/// What stands between the brace at the start of `text` and the brace that
/// closes it.
pub fn braced_body(text: &str) -> (r: Option<String>)
    ensures
        r.deep_view() == braced(text@),
{
    let t = chars_of(text);
    if t.len() == 0 || t[0] != '{' {
        return None;
    }
    let mut depth: usize = 1;
    let mut i: usize = 1;
    while i < t.len()
        invariant
            1 <= i <= t.len(),
            1 <= depth <= i,
            t@ == text@,
            t@[0] == '{',
            closing_brace(t@, 1, 1) == closing_brace(t@, i as int, depth as nat),
        decreases t.len() - i,
    {
        if t[i] == '{' {
            depth += 1;
        } else if t[i] == '}' {
            if depth == 1 {
                return Some(slice_text(&t, 1, i));
            }
            depth -= 1;
        }
        i += 1;
    }
    None
}

/// A text shorter than the pattern is left as it is.
proof fn lemma_replaced_short(text: Seq<char>, from: Seq<char>, to: Seq<char>)
    requires
        text.len() < from.len(),
    ensures
        replaced(text, from, to) == text,
{
}

} // verus!
