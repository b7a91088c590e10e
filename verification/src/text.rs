//! Text as sequences of characters: conversion between strings and character
//! vectors, and the string operations the record format is built on.

use vstd::prelude::*;
use vstd::string::StringExecFns;

verus! {

/// Collects the characters of `chars` into a string.
///
/// Trusted: `String::from_iter` over the characters of a vector yields a
/// string whose characters are exactly those of the vector, in order.
#[verifier::external_body]
pub(crate) fn string_from_chars(chars: &Vec<char>) -> (s: String)
    ensures
        s@ == chars@,
{
    String::from_iter(chars.iter())
}

/// The characters of `s`, in order.
pub fn chars_of(s: &str) -> (v: Vec<char>)
    ensures
        v@ == s@,
{
    let mut v: Vec<char> = Vec::new();
    for c in it: s.chars()
        invariant
            v@ == it.seq().take(it.index()),
    {
        v.push(c);
    }
    v
}

/// The texts of a sequence of strings.
pub open spec fn texts(v: Seq<String>) -> Seq<Seq<char>> {
    v.map_values(|s: String| s@)
}

/// Whether no character of `s` is `c`.
pub open spec fn free_of(s: Seq<char>, c: char) -> bool {
    forall|i: int| 0 <= i < s.len() ==> #[trigger] s[i] != c
}

/// What stands for one character once tabs are written as four spaces.
pub open spec fn spaced(c: char) -> Seq<char> {
    if c == '\t' {
        seq![' ', ' ', ' ', ' ']
    } else {
        seq![c]
    }
}

/// `s` with every tab written as four spaces.
pub open spec fn expand_tabs(s: Seq<char>) -> Seq<char>
    decreases s.len(),
{
    if s.len() == 0 {
        Seq::empty()
    } else {
        expand_tabs(s.drop_last()) + spaced(s.last())
    }
}

/// Expanding tabs leaves none behind, and changes nothing where there was none.
pub proof fn lemma_expand_tabs(s: Seq<char>)
    ensures
        free_of(expand_tabs(s), '\t'),
        free_of(s, '\t') ==> expand_tabs(s) == s,
        expand_tabs(s).len() >= s.len(),
    decreases s.len(),
{
    if s.len() > 0 {
        lemma_expand_tabs(s.drop_last());
        if free_of(s, '\t') {
            assert(free_of(s.drop_last(), '\t')) by {
                assert forall|i: int| 0 <= i < s.drop_last().len() implies s.drop_last()[i]
                    != '\t' by {
                    assert(s.drop_last()[i] == s[i]);
                }
            }
            assert(s.last() == s[s.len() - 1]);
            assert(s.drop_last() + seq![s.last()] == s);
        }
    }
}

/// Writes every tab of `v` as four spaces.
pub fn expand_tabs_chars(v: &Vec<char>) -> (r: Vec<char>)
    ensures
        r@ == expand_tabs(v@),
{
    let mut r: Vec<char> = Vec::new();
    let mut i: usize = 0;
    while i < v.len()
        invariant
            i <= v.len(),
            r@ == expand_tabs(v@.take(i as int)),
        decreases v.len() - i,
    {
        let c: char = v[i];
        proof {
            let next = v@.take(i + 1);
            assert(next.drop_last() == v@.take(i as int));
            assert(next.last() == c);
        }
        if c == '\t' {
            r.push(' ');
            r.push(' ');
            r.push(' ');
            r.push(' ');
        } else {
            r.push(c);
        }
        assert(r@ == expand_tabs(v@.take(i as int)) + spaced(c));
        i += 1;
    }
    assert(v@.take(i as int) == v@);
    r
}

/// Whether `needle` stands in `hay` at position `i`.
pub open spec fn occurs_at(needle: Seq<char>, hay: Seq<char>, i: int) -> bool {
    0 <= i && i + needle.len() <= hay.len() && hay.subrange(i, i + needle.len()) == needle
}

/// Whether `needle` is a contiguous part of `hay`.
pub open spec fn is_infix(needle: Seq<char>, hay: Seq<char>) -> bool {
    exists|i: int| occurs_at(needle, hay, i)
}

/// Whether `needle` stands in `hay` at position `i`.
fn occurs_at_chars(needle: &Vec<char>, hay: &Vec<char>, i: usize) -> (b: bool)
    requires
        i + needle.len() <= hay.len(),
    ensures
        b == occurs_at(needle@, hay@, i as int),
{
    let mut k: usize = 0;
    while k < needle.len()
        invariant
            k <= needle.len(),
            i + needle.len() <= hay.len(),
            forall|j: int| 0 <= j < k ==> hay@[i + j] == needle@[j],
        decreases needle.len() - k,
    {
        if hay[i + k] != needle[k] {
            assert(hay@.subrange(i as int, i + needle.len())[k as int] == hay@[i + k]);
            return false;
        }
        k += 1;
    }
    assert(hay@.subrange(i as int, i + needle.len()) == needle@);
    true
}

/// Whether `needle` is a contiguous part of `hay`.
pub fn contains_chars(hay: &Vec<char>, needle: &Vec<char>) -> (b: bool)
    ensures
        b == is_infix(needle@, hay@),
{
    if needle.len() > hay.len() {
        return false;
    }
    let last: usize = hay.len() - needle.len();
    let mut i: usize = 0;
    loop
        invariant
            i <= last,
            last == hay.len() - needle.len(),
            forall|k: int| 0 <= k < i ==> !occurs_at(needle@, hay@, k),
        decreases last - i,
    {
        if occurs_at_chars(needle, hay, i) {
            return true;
        }
        if i == last {
            return false;
        }
        i += 1;
    }
}

/// The parts of `parts` in one text, with `sep` between neighbours.
pub open spec fn join(parts: Seq<Seq<char>>, sep: Seq<char>) -> Seq<char>
    decreases parts.len(),
{
    if parts.len() == 0 {
        Seq::empty()
    } else if parts.len() == 1 {
        parts[0]
    } else {
        join(parts.drop_last(), sep) + sep + parts.last()
    }
}

/// Joins the strings of `parts` from position `from` on, with `sep` between neighbours.
pub fn join_from(parts: &Vec<String>, from: usize, sep: &str) -> (r: String)
    requires
        from <= parts.len(),
    ensures
        r@ == join(texts(parts@).skip(from as int), sep@),
{
    let ghost all = texts(parts@).skip(from as int);
    let mut r = String::new();
    let mut i: usize = from;
    while i < parts.len()
        invariant
            from <= i <= parts.len(),
            all == texts(parts@).skip(from as int),
            r@ == join(all.take(i - from), sep@),
        decreases parts.len() - i,
    {
        proof {
            let next = all.take(i + 1 - from);
            assert(next.drop_last() == all.take(i - from));
            assert(next.last() == parts@[i as int]@);
        }
        if i > from {
            r.append(sep);
        }
        r.append(parts[i].as_str());
        i += 1;
    }
    assert(all.take(i - from) == all);
    r
}

/// The parts into which the separator `sep` cuts `s`: one more than there
/// are separators, each possibly empty.
pub open spec fn split(s: Seq<char>, sep: char) -> Seq<Seq<char>>
    decreases s.len(),
{
    if s.len() == 0 {
        seq![Seq::empty()]
    } else {
        let before = split(s.drop_last(), sep);
        if s.last() == sep {
            before.push(Seq::empty())
        } else {
            before.drop_last().push(before.last().push(s.last()))
        }
    }
}

/// The parts of a split hold no separator, and joined with it give the text back.
pub proof fn lemma_split_parts(s: Seq<char>, sep: char)
    ensures
        split(s, sep).len() >= 1,
        forall|i: int| 0 <= i < split(s, sep).len() ==> free_of(#[trigger] split(s, sep)[i], sep),
        join(split(s, sep), seq![sep]) == s,
    decreases s.len(),
{
    if s.len() == 0 {
        assert(join(split(s, sep), seq![sep]) == s);
    } else {
        let before = split(s.drop_last(), sep);
        let parts = split(s, sep);
        lemma_split_parts(s.drop_last(), sep);
        assert(s.drop_last().push(s.last()) == s);
        if s.last() == sep {
            assert(parts.drop_last() == before);
            assert(join(parts, seq![sep]) == join(before, seq![sep]) + seq![sep]
                + Seq::<char>::empty());
        } else {
            let grown = before.last().push(s.last());
            assert(parts.last() == grown);
            if before.len() == 1 {
                assert(parts.len() == 1);
                assert(join(before, seq![sep]) == before[0]);
                assert(parts[0] == grown);
            } else {
                assert(parts.drop_last() == before.drop_last());
                assert(join(before, seq![sep]) == join(before.drop_last(), seq![sep]) + seq![sep]
                    + before.last());
                assert(join(parts, seq![sep]) == join(before.drop_last(), seq![sep]) + seq![sep]
                    + grown);
                assert(join(before.drop_last(), seq![sep]) + seq![sep] + grown == (join(
                    before.drop_last(),
                    seq![sep],
                ) + seq![sep] + before.last()).push(s.last()));
            }
        }
    }
}

/// Splitting undoes joining: parts that hold no separator come back as they were.
pub proof fn lemma_split_join(parts: Seq<Seq<char>>, sep: char)
    requires
        parts.len() >= 1,
        forall|i: int| 0 <= i < parts.len() ==> free_of(#[trigger] parts[i], sep),
    ensures
        split(join(parts, seq![sep]), sep) == parts,
    decreases parts.len(),
{
    if parts.len() == 1 {
        lemma_split_free(parts[0], sep);
        assert(parts == seq![parts[0]]);
    } else {
        let head = parts.drop_last();
        lemma_split_join(head, sep);
        lemma_split_append(join(head, seq![sep]) + seq![sep], parts.last(), sep);
        let cut = join(head, seq![sep]) + seq![sep];
        assert(cut.drop_last() == join(head, seq![sep]));
        assert(split(cut, sep) == head.push(Seq::empty()));
        assert(head.push(Seq::<char>::empty()).drop_last() == head);
        assert(Seq::<char>::empty() + parts.last() == parts.last());
        assert(head.push(parts.last()) == parts);
    }
}

/// A text without the separator is one part.
pub proof fn lemma_split_free(s: Seq<char>, sep: char)
    requires
        free_of(s, sep),
    ensures
        split(s, sep) == seq![s],
    decreases s.len(),
{
    if s.len() == 0 {
        assert(s == Seq::<char>::empty());
    } else {
        lemma_split_free(s.drop_last(), sep);
        assert(s.drop_last().push(s.last()) == s);
        assert(seq![s.drop_last()].drop_last().push(s.drop_last().push(s.last())) == seq![s]);
    }
}

/// Text without the separator, put after `s`, lengthens the last part of `s`.
pub proof fn lemma_split_append(s: Seq<char>, t: Seq<char>, sep: char)
    requires
        free_of(t, sep),
    ensures
        split(s + t, sep) == split(s, sep).drop_last().push(split(s, sep).last() + t),
    decreases t.len(),
{
    lemma_split_parts(s, sep);
    let parts = split(s, sep);
    if t.len() == 0 {
        assert(s + t == s);
        assert(parts.last() + t == parts.last());
        assert(parts.drop_last().push(parts.last()) == parts);
    } else {
        lemma_split_append(s, t.drop_last(), sep);
        assert((s + t).drop_last() == s + t.drop_last());
        assert((s + t).last() == t.last());
        let before = split(s + t.drop_last(), sep);
        assert(before.last() == parts.last() + t.drop_last());
        assert(before.drop_last() == parts.drop_last());
        assert((parts.last() + t.drop_last()).push(t.last()) == parts.last() + t);
    }
}

/// Cuts `s` at every `sep`.
pub fn split_str(s: &str, sep: char) -> (r: Vec<String>)
    ensures
        texts(r@) == split(s@, sep),
{
    let v = chars_of(s);
    let mut fields: Vec<String> = Vec::new();
    let mut cur: Vec<char> = Vec::new();
    let mut i: usize = 0;
    assert(v@.take(0) == Seq::<char>::empty());
    assert(texts(fields@).push(cur@) == seq![Seq::<char>::empty()]);
    while i < v.len()
        invariant
            i <= v.len(),
            texts(fields@).push(cur@) == split(v@.take(i as int), sep),
        decreases v.len() - i,
    {
        let c: char = v[i];
        proof {
            let next = v@.take(i + 1);
            assert(next.drop_last() == v@.take(i as int));
            assert(next.last() == c);
            assert(texts(fields@).push(cur@).drop_last() == texts(fields@));
        }
        let ghost before = texts(fields@);
        if c == sep {
            let done = string_from_chars(&cur);
            fields.push(done);
            cur = Vec::new();
            assert(texts(fields@) == before.push(done@));
        } else {
            cur.push(c);
        }
        i += 1;
    }
    assert(v@.take(i as int) == v@);
    let ghost before = texts(fields@);
    let done = string_from_chars(&cur);
    fields.push(done);
    assert(texts(fields@) == before.push(done@));
    fields
}

/// Whether two strings hold the same text.
pub fn str_eq(a: &str, b: &str) -> (r: bool)
    ensures
        r == (a@ == b@),
{
    String::from_str(a) == String::from_str(b)
}

/// Joining one more part puts the separator and the part behind the rest.
pub proof fn lemma_join_push(parts: Seq<Seq<char>>, last: Seq<char>, sep: Seq<char>)
    requires
        parts.len() >= 1,
    ensures
        join(parts.push(last), sep) == join(parts, sep) + sep + last,
{
    assert(parts.push(last).drop_last() == parts);
}

/// Nine parts joined, written out.
pub proof fn lemma_join_nine(f: Seq<Seq<char>>, sep: Seq<char>)
    requires
        f.len() == 9,
    ensures
        join(f, sep) == f[0] + sep + f[1] + sep + f[2] + sep + f[3] + sep + f[4] + sep + f[5] + sep
            + f[6] + sep + f[7] + sep + f[8],
{
    lemma_join_push(f.take(1), f[1], sep);
    lemma_join_push(f.take(2), f[2], sep);
    lemma_join_push(f.take(3), f[3], sep);
    lemma_join_push(f.take(4), f[4], sep);
    lemma_join_push(f.take(5), f[5], sep);
    lemma_join_push(f.take(6), f[6], sep);
    lemma_join_push(f.take(7), f[7], sep);
    lemma_join_push(f.take(8), f[8], sep);
    assert(f.take(1).push(f[1]) == f.take(2));
    assert(f.take(2).push(f[2]) == f.take(3));
    assert(f.take(3).push(f[3]) == f.take(4));
    assert(f.take(4).push(f[4]) == f.take(5));
    assert(f.take(5).push(f[5]) == f.take(6));
    assert(f.take(6).push(f[6]) == f.take(7));
    assert(f.take(7).push(f[7]) == f.take(8));
    assert(f.take(8).push(f[8]) == f);
    assert(join(f.take(1), sep) == f[0]);
}

/// Whether `c` is white space: a character with the Unicode property
/// `White_Space`.
pub open spec fn is_whitespace(c: char) -> bool {
    ||| c == ' '
    ||| '\t' <= c <= '\r'
    ||| c == '\u{85}'
    ||| c == '\u{a0}'
    ||| c == '\u{1680}'
    ||| '\u{2000}' <= c <= '\u{200a}'
    ||| c == '\u{2028}'
    ||| c == '\u{2029}'
    ||| c == '\u{202f}'
    ||| c == '\u{205f}'
    ||| c == '\u{3000}'
}

/// `s` without the white space it starts with.
pub open spec fn trim_start(s: Seq<char>) -> Seq<char>
    decreases s.len(),
{
    if s.len() > 0 && is_whitespace(s[0]) {
        trim_start(s.drop_first())
    } else {
        s
    }
}

/// `s` without the white space it ends with.
pub open spec fn trim_end(s: Seq<char>) -> Seq<char>
    decreases s.len(),
{
    if s.len() > 0 && is_whitespace(s.last()) {
        trim_end(s.drop_last())
    } else {
        s
    }
}

/// `s` without the white space around it.
pub open spec fn trim(s: Seq<char>) -> Seq<char> {
    trim_end(trim_start(s))
}

/// Whether `c` is white space.
fn is_whitespace_char(c: char) -> (b: bool)
    ensures
        b == is_whitespace(c),
{
    c == ' ' || ('\t' <= c && c <= '\r') || c == '\u{85}' || c == '\u{a0}' || c == '\u{1680}' || (
    '\u{2000}' <= c && c <= '\u{200a}') || c == '\u{2028}' || c == '\u{2029}' || c == '\u{202f}'
        || c == '\u{205f}' || c == '\u{3000}'
}

/// `s` without the white space around it.
pub fn trim_str(s: &str) -> (r: String)
    ensures
        r@ == trim(s@),
{
    let v = chars_of(s);
    let mut a: usize = 0;
    assert(v@.skip(0) == v@);
    while a < v.len() && is_whitespace_char(v[a])
        invariant
            a <= v.len(),
            trim_start(v@) == trim_start(v@.skip(a as int)),
        decreases v.len() - a,
    {
        assert(v@.skip(a as int).drop_first() == v@.skip(a + 1));
        a += 1;
    }
    let ghost rest = v@.skip(a as int);
    assert(trim_start(v@) == rest);
    let mut b: usize = v.len();
    assert(v@.subrange(a as int, b as int) == rest);
    while b > a && is_whitespace_char(v[b - 1])
        invariant
            a <= b <= v.len(),
            trim_end(rest) == trim_end(v@.subrange(a as int, b as int)),
        decreases b,
    {
        assert(v@.subrange(a as int, b as int).drop_last() == v@.subrange(a as int, b - 1));
        b -= 1;
    }
    assert(trim_end(rest) == v@.subrange(a as int, b as int));
    let mut out: Vec<char> = Vec::new();
    let mut i: usize = a;
    while i < b
        invariant
            a <= i <= b <= v.len(),
            out@ == v@.subrange(a as int, i as int),
        decreases b - i,
    {
        out.push(v[i]);
        i += 1;
    }
    string_from_chars(&out)
}

/// A line without the carriage return it ends with, if it ends with one.
pub open spec fn strip_cr(line: Seq<char>) -> Seq<char> {
    if line.len() > 0 && line.last() == '\r' {
        line.drop_last()
    } else {
        line
    }
}

/// The lines of a text. A line ends with a line break, and loses it and a
/// carriage return before it; what follows the last line break is a line as
/// it stands, unless it is empty.
pub open spec fn lines(s: Seq<char>) -> Seq<Seq<char>> {
    let parts = split(s, '\n');
    let ended = parts.drop_last().map_values(|l: Seq<char>| strip_cr(l));
    if parts.last().len() == 0 {
        ended
    } else {
        ended.push(parts.last())
    }
}

/// The lines of `s`.
pub fn lines_of(s: &str) -> (r: Vec<String>)
    ensures
        texts(r@) == lines(s@),
{
    let mut parts = split_str(s, '\n');
    proof {
        lemma_split_parts(s@, '\n');
    }
    let ghost all = texts(parts@);
    let last = parts.pop().unwrap();
    assert(texts(parts@) == all.drop_last());
    assert(last@ == all.last());
    let ghost ended = all.drop_last().map_values(|l: Seq<char>| strip_cr(l));
    let mut out: Vec<String> = Vec::new();
    let mut i: usize = 0;
    while i < parts.len()
        invariant
            i <= parts.len(),
            texts(parts@) == all.drop_last(),
            ended == all.drop_last().map_values(|l: Seq<char>| strip_cr(l)),
            texts(out@) == ended.take(i as int),
        decreases parts.len() - i,
    {
        let mut line = chars_of(parts[i].as_str());
        assert(line@ == all.drop_last()[i as int]);
        let n = line.len();
        if n > 0 && line[n - 1] == '\r' {
            line.pop();
        }
        assert(line@ == strip_cr(all.drop_last()[i as int]));
        let ghost before = texts(out@);
        let stripped = string_from_chars(&line);
        out.push(stripped);
        assert(texts(out@) == before.push(stripped@));
        assert(ended.take(i + 1) == ended.take(i as int).push(ended[i as int]));
        i += 1;
    }
    assert(ended.take(i as int) == ended);
    if chars_of(last.as_str()).len() != 0 {
        let ghost before = texts(out@);
        out.push(last);
        assert(texts(out@) == before.push(last@));
    }
    out
}

/// What is in no part and not in the separator is not in the joined text.
pub proof fn lemma_join_free_of(parts: Seq<Seq<char>>, sep: Seq<char>, c: char)
    requires
        free_of(sep, c),
        forall|i: int| 0 <= i < parts.len() ==> free_of(#[trigger] parts[i], c),
    ensures
        free_of(join(parts, sep), c),
    decreases parts.len(),
{
    if parts.len() > 1 {
        lemma_join_free_of(parts.drop_last(), sep, c);
        assert(free_of(parts.last(), c));
    } else if parts.len() == 1 {
        assert(free_of(parts[0], c));
    }
}

/// A joined text ends as its last part does, where that part is not empty.
pub proof fn lemma_join_last(parts: Seq<Seq<char>>, sep: Seq<char>)
    requires
        parts.len() > 0,
        parts.last().len() > 0,
    ensures
        join(parts, sep).len() > 0,
        join(parts, sep).last() == parts.last().last(),
{
}

} // verus!
