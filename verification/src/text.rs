//! Characters and the ways a text is cut into pieces: lines, fields, the parts
//! between separators. The functions work on slices of characters, so that a
//! piece of a text is a sub-slice of it.

use vstd::prelude::*;
use vstd::slice::slice_subrange;

verus! {

/// Whether `c` separates the fields of a line: a character with the Unicode
/// property `White_Space`.
pub open spec fn is_whitespace(c: char) -> bool {
    ||| '\u{9}' <= c <= '\u{d}'
    ||| c == ' '
    ||| c == '\u{85}'
    ||| c == '\u{a0}'
    ||| c == '\u{1680}'
    ||| '\u{2000}' <= c <= '\u{200a}'
    ||| c == '\u{2028}'
    ||| c == '\u{2029}'
    ||| c == '\u{202f}'
    ||| c == '\u{205f}'
    ||| c == '\u{3000}'
}

/// Where the first `c` of `s` stands; the length of `s` where it holds none.
pub open spec fn first_index(s: Seq<char>, c: char) -> int
    decreases s.len(),
{
    if s.len() == 0 || s[0] == c {
        0
    } else {
        1 + first_index(s.drop_first(), c)
    }
}

/// The number of whitespace characters that `s` begins with.
pub open spec fn leading_whitespace(s: Seq<char>) -> int
    decreases s.len(),
{
    if s.len() > 0 && is_whitespace(s[0]) {
        1 + leading_whitespace(s.drop_first())
    } else {
        0
    }
}

/// The number of whitespace characters that `s` ends with.
pub open spec fn trailing_whitespace(s: Seq<char>) -> int
    decreases s.len(),
{
    if s.len() > 0 && is_whitespace(s.last()) {
        1 + trailing_whitespace(s.drop_last())
    } else {
        0
    }
}

/// The length of the longest prefix of `s` that holds no whitespace.
pub open spec fn word_len(s: Seq<char>) -> int
    decreases s.len(),
{
    if s.len() > 0 && !is_whitespace(s[0]) {
        1 + word_len(s.drop_first())
    } else {
        0
    }
}

/// `first_index` is within `s`, stands on a `c`, and no `c` stands before it.
pub proof fn lemma_first_index(s: Seq<char>, c: char)
    ensures
        0 <= first_index(s, c) <= s.len(),
        first_index(s, c) < s.len() ==> s[first_index(s, c)] == c,
        forall|j: int| 0 <= j < first_index(s, c) ==> s[j] != c,
    decreases s.len(),
{
    if s.len() > 0 && s[0] != c {
        let t = s.drop_first();
        lemma_first_index(t, c);
        assert forall|j: int| 0 <= j < first_index(s, c) implies s[j] != c by {
            if j > 0 {
                assert(s[j] == t[j - 1]);
            }
        }
    }
}

/// Only one position is a first `c`: an index with a `c` on it, or the length
/// of `s`, and no `c` before it.
pub proof fn lemma_first_index_is(s: Seq<char>, c: char, i: int)
    requires
        0 <= i <= s.len(),
        i < s.len() ==> s[i] == c,
        forall|j: int| 0 <= j < i ==> s[j] != c,
    ensures
        first_index(s, c) == i,
{
    lemma_first_index(s, c);
}

/// The whitespace that `s` begins with ends within `s`, before a character that
/// is none.
pub proof fn lemma_leading_whitespace(s: Seq<char>)
    ensures
        0 <= leading_whitespace(s) <= s.len(),
        leading_whitespace(s) < s.len() ==> !is_whitespace(s[leading_whitespace(s)]),
        forall|j: int| 0 <= j < leading_whitespace(s) ==> is_whitespace(s[j]),
    decreases s.len(),
{
    if s.len() > 0 && is_whitespace(s[0]) {
        let t = s.drop_first();
        lemma_leading_whitespace(t);
        assert forall|j: int| 0 <= j < leading_whitespace(s) implies is_whitespace(s[j]) by {
            if j > 0 {
                assert(s[j] == t[j - 1]);
            }
        }
    }
}

/// The whitespace that `s` ends with begins within `s`, after a character that
/// is none.
pub proof fn lemma_trailing_whitespace(s: Seq<char>)
    ensures
        0 <= trailing_whitespace(s) <= s.len(),
        trailing_whitespace(s) < s.len() ==> !is_whitespace(
            s[s.len() - 1 - trailing_whitespace(s)],
        ),
        forall|j: int| s.len() - trailing_whitespace(s) <= j < s.len() ==> is_whitespace(s[j]),
    decreases s.len(),
{
    if s.len() > 0 && is_whitespace(s.last()) {
        let t = s.drop_last();
        lemma_trailing_whitespace(t);
        assert forall|j: int| s.len() - trailing_whitespace(s) <= j < s.len() implies is_whitespace(
            s[j],
        ) by {
            if j < s.len() - 1 {
                assert(s[j] == t[j]);
            }
        }
    }
}

/// A word ends within `s`, before whitespace, and holds none.
pub proof fn lemma_word_len(s: Seq<char>)
    ensures
        0 <= word_len(s) <= s.len(),
        word_len(s) < s.len() ==> is_whitespace(s[word_len(s)]),
        forall|j: int| 0 <= j < word_len(s) ==> !is_whitespace(s[j]),
    decreases s.len(),
{
    if s.len() > 0 && !is_whitespace(s[0]) {
        let t = s.drop_first();
        lemma_word_len(t);
        assert forall|j: int| 0 <= j < word_len(s) implies !is_whitespace(s[j]) by {
            if j > 0 {
                assert(s[j] == t[j - 1]);
            }
        }
    }
}

/// What stands in `s` before its first `c`; all of `s` where it holds none.
pub open spec fn before_first(s: Seq<char>, c: char) -> Seq<char> {
    s.take(first_index(s, c))
}

/// Where the first occurrence of `pattern` in `s` begins; the length of `s`
/// where `pattern` does not occur.
pub open spec fn first_occurrence(s: Seq<char>, pattern: Seq<char>) -> int
    decreases s.len(),
{
    if s.len() == 0 || pattern.is_prefix_of(s) {
        0
    } else {
        1 + first_occurrence(s.drop_first(), pattern)
    }
}

/// `first_occurrence` is within `s`, and `pattern` begins nowhere before it.
pub proof fn lemma_first_occurrence(s: Seq<char>, pattern: Seq<char>)
    ensures
        0 <= first_occurrence(s, pattern) <= s.len(),
        first_occurrence(s, pattern) < s.len() ==> pattern.is_prefix_of(
            s.skip(first_occurrence(s, pattern)),
        ),
        forall|j: int|
            0 <= j < first_occurrence(s, pattern) ==> !pattern.is_prefix_of(#[trigger] s.skip(j)),
    decreases s.len(),
{
    if s.len() > 0 && !pattern.is_prefix_of(s) {
        let t = s.drop_first();
        lemma_first_occurrence(t, pattern);
        let i = first_occurrence(s, pattern);
        assert forall|j: int| 0 <= j < i implies !pattern.is_prefix_of(#[trigger] s.skip(j)) by {
            if j > 0 {
                assert(t.skip(j - 1) =~= s.skip(j));
            }
        }
    }
}

/// `s` without the whitespace at its two ends.
pub open spec fn trim(s: Seq<char>) -> Seq<char> {
    let rest = s.skip(leading_whitespace(s));
    rest.take(rest.len() - trailing_whitespace(rest))
}

/// The fields of a line: its longest runs of characters other than whitespace,
/// in the order in which they stand.
pub open spec fn fields(s: Seq<char>) -> Seq<Seq<char>>
    decreases s.len(),
    via fields_decreases
{
    let rest = s.skip(leading_whitespace(s));
    let n = word_len(rest);
    if n == 0 {
        Seq::empty()
    } else {
        seq![rest.take(n)] + fields(rest.skip(n))
    }
}

#[via_fn]
proof fn fields_decreases(s: Seq<char>) {
    lemma_leading_whitespace(s);
    lemma_word_len(s.skip(leading_whitespace(s)));
}

/// `s` without the carriage return that it may end with.
pub open spec fn strip_cr(s: Seq<char>) -> Seq<char> {
    if s.len() > 0 && s.last() == '\r' {
        s.drop_last()
    } else {
        s
    }
}

/// The lines of a text. A line ends before a line feed, and a carriage return
/// just before that line feed is no part of it either. What follows the last
/// line feed is a line too, as it stands, unless it is empty.
pub open spec fn lines(s: Seq<char>) -> Seq<Seq<char>>
    decreases s.len(),
    via lines_decreases
{
    let i = first_index(s, '\n');
    if s.len() == 0 {
        Seq::empty()
    } else if i == s.len() {
        seq![s]
    } else {
        seq![strip_cr(s.take(i))] + lines(s.skip(i + 1))
    }
}

#[via_fn]
proof fn lines_decreases(s: Seq<char>) {
    lemma_first_index(s, '\n');
}

/// The parts of `s` between its separators: one more part than `s` holds
/// separators, empty parts among them.
pub open spec fn split(s: Seq<char>, sep: char) -> Seq<Seq<char>>
    decreases s.len(),
    via split_decreases
{
    let i = first_index(s, sep);
    if i == s.len() {
        seq![s]
    } else {
        seq![s.take(i)] + split(s.skip(i + 1), sep)
    }
}

#[via_fn]
proof fn split_decreases(s: Seq<char>, sep: char) {
    lemma_first_index(s, sep);
}

/// The parts in a row, with one separator between each two.
pub open spec fn join(parts: Seq<Seq<char>>, sep: char) -> Seq<char>
    decreases parts.len(),
{
    if parts.len() == 0 {
        Seq::empty()
    } else if parts.len() == 1 {
        parts[0]
    } else {
        join(parts.drop_last(), sep) + seq![sep] + parts.last()
    }
}

/// Whether `s` holds no `c`.
pub open spec fn free_of(s: Seq<char>, c: char) -> bool {
    forall|i: int| 0 <= i < s.len() ==> s[i] != c
}

/// Whether none of the parts holds a `c`.
pub open spec fn all_free_of(parts: Seq<Seq<char>>, c: char) -> bool {
    forall|k: int| 0 <= k < parts.len() ==> free_of(#[trigger] parts[k], c)
}

/// A text without a separator is its own single part.
pub proof fn lemma_split_single(s: Seq<char>, sep: char)
    requires
        free_of(s, sep),
    ensures
        split(s, sep) == seq![s],
{
    lemma_first_index_is(s, sep, s.len() as int);
}

/// No part holds a separator, and a character that the text does not hold is
/// in none of its parts.
pub proof fn lemma_split_parts(s: Seq<char>, sep: char, c: char)
    requires
        c == sep || free_of(s, c),
    ensures
        split(s, sep).len() >= 1,
        all_free_of(split(s, sep), c),
    decreases s.len(),
{
    lemma_first_index(s, sep);
    let i = first_index(s, sep);
    if i < s.len() {
        lemma_split_parts(s.skip(i + 1), sep, c);
    }
}

/// The parts of two texts with a separator between them are the parts of the
/// one and then the parts of the other.
pub proof fn lemma_split_concat(a: Seq<char>, b: Seq<char>, sep: char)
    ensures
        split(a + seq![sep] + b, sep) == split(a, sep) + split(b, sep),
    decreases a.len(),
{
    let s = a + seq![sep] + b;
    lemma_first_index(a, sep);
    let i = first_index(a, sep);
    lemma_first_index_is(s, sep, i);
    assert(s.take(i) =~= a.take(i));
    if i < a.len() {
        let rest = a.skip(i + 1);
        assert(s.skip(i + 1) =~= rest + seq![sep] + b);
        lemma_split_concat(rest, b, sep);
    } else {
        assert(s.skip(i + 1) =~= b);
        assert(a.take(i) =~= a);
    }
}

/// What is joined holds only the separator and what the parts hold.
pub proof fn lemma_join_free(parts: Seq<Seq<char>>, sep: char, c: char)
    requires
        c != sep,
        all_free_of(parts, c),
    ensures
        free_of(join(parts, sep), c),
    decreases parts.len(),
{
    if parts.len() > 1 {
        let init = parts.drop_last();
        lemma_join_free(init, sep, c);
    }
}

/// Parts that hold no separator come back when what they were joined to is
/// split again.
pub proof fn lemma_split_join(parts: Seq<Seq<char>>, sep: char)
    requires
        parts.len() >= 1,
        all_free_of(parts, sep),
    ensures
        split(join(parts, sep), sep) == parts,
    decreases parts.len(),
{
    if parts.len() == 1 {
        lemma_split_single(parts[0], sep);
    } else {
        let init = parts.drop_last();
        lemma_split_join(init, sep);
        lemma_split_concat(join(init, sep), parts.last(), sep);
        lemma_split_single(parts.last(), sep);
    }
}

/// Decides `is_whitespace`.
pub fn char_is_whitespace(c: char) -> (b: bool)
    ensures
        b == is_whitespace(c),
{
    ('\u{9}' <= c && c <= '\u{d}') || c == ' ' || c == '\u{85}' || c == '\u{a0}' || c == '\u{1680}'
        || ('\u{2000}' <= c && c <= '\u{200a}') || c == '\u{2028}' || c == '\u{2029}' || c
        == '\u{202f}' || c == '\u{205f}' || c == '\u{3000}'
}

/// The characters of `s`, in order.
pub fn to_chars(s: &str) -> (v: Vec<char>)
    ensures
        v@ == s@,
{
    broadcast use vstd::string::axiom_spec_iter;

    let mut v: Vec<char> = Vec::new();
    for c in it: s.chars()
        invariant
            it.seq() == s@,
            v@ == s@.take(it.index()),
    {
        v.push(c);
    }
    v
}

/// `String::push`: the string gets `c` as its new last character.
#[verifier::external_body]
pub(crate) fn push_char(s: &mut String, c: char)
    ensures
        final(s)@ == old(s)@.push(c),
{
    s.push(c)
}

/// The string that holds the characters of `s`, in order.
pub fn to_string(s: &[char]) -> (out: String)
    ensures
        out@ == s@,
{
    let mut out = String::new();
    let mut i: usize = 0;
    while i < s.len()
        invariant
            i <= s.len(),
            out@ == s@.take(i as int),
        decreases s.len() - i,
    {
        push_char(&mut out, s[i]);
        i += 1;
    }
    out
}

/// What stands in `s` from `from` on.
pub fn suffix(s: &[char], from: usize) -> (out: &[char])
    requires
        from <= s.len(),
    ensures
        out@ == s@.skip(from as int),
{
    slice_subrange(s, from, s.len())
}

/// The first `n` characters of `s`.
pub fn prefix(s: &[char], n: usize) -> (out: &[char])
    requires
        n <= s.len(),
    ensures
        out@ == s@.take(n as int),
{
    slice_subrange(s, 0, n)
}

/// Whether `s` begins with `pattern`.
pub fn starts_with(s: &[char], pattern: &[char]) -> (b: bool)
    ensures
        b == pattern@.is_prefix_of(s@),
{
    if pattern.len() > s.len() {
        return false;
    }
    let mut i: usize = 0;
    while i < pattern.len()
        invariant
            i <= pattern.len() <= s.len(),
            forall|j: int| 0 <= j < i ==> pattern@[j] == s@[j],
        decreases pattern.len() - i,
    {
        if pattern[i] != s[i] {
            return false;
        }
        i += 1;
    }
    true
}

/// Whether `s` ends with `pattern`.
pub fn ends_with(s: &[char], pattern: &[char]) -> (b: bool)
    ensures
        b == pattern@.is_suffix_of(s@),
{
    if pattern.len() > s.len() {
        return false;
    }
    let tail = suffix(s, s.len() - pattern.len());
    starts_with(tail, pattern)
}

/// Finds the first occurrence of `pattern` in `s`.
pub fn find_occurrence(s: &[char], pattern: &[char]) -> (i: usize)
    ensures
        i == first_occurrence(s@, pattern@),
        i <= s.len(),
{
    let mut i: usize = 0;
    while i < s.len() && !starts_with(suffix(s, i), pattern)
        invariant
            i <= s.len(),
            forall|j: int| 0 <= j < i ==> !pattern@.is_prefix_of(#[trigger] s@.skip(j)),
        decreases s.len() - i,
    {
        i += 1;
    }
    proof {
        lemma_first_occurrence(s@, pattern@);
    }
    i
}

/// Puts the characters of `more` behind those of `v`.
pub fn append(v: &mut Vec<char>, more: &[char])
    ensures
        final(v)@ == old(v)@ + more@,
{
    let mut i: usize = 0;
    while i < more.len()
        invariant
            i <= more.len(),
            v@ == old(v)@ + more@.take(i as int),
        decreases more.len() - i,
    {
        v.push(more[i]);
        i += 1;
    }
}

/// Finds the first `c` in `s`.
pub fn find_char(s: &[char], c: char) -> (i: usize)
    ensures
        i == first_index(s@, c),
        i <= s.len(),
{
    let mut i: usize = 0;
    while i < s.len() && s[i] != c
        invariant
            i <= s.len(),
            forall|j: int| 0 <= j < i ==> s@[j] != c,
        decreases s.len() - i,
    {
        i += 1;
    }
    proof {
        lemma_first_index_is(s@, c, i as int);
    }
    i
}

/// Counts the whitespace that `s` begins with.
pub fn count_leading_whitespace(s: &[char]) -> (n: usize)
    ensures
        n == leading_whitespace(s@),
        n <= s.len(),
{
    let mut i: usize = 0;
    while i < s.len() && char_is_whitespace(s[i])
        invariant
            i <= s.len(),
            forall|j: int| 0 <= j < i ==> is_whitespace(s@[j]),
        decreases s.len() - i,
    {
        i += 1;
    }
    proof {
        lemma_leading_whitespace(s@);
    }
    i
}

/// Counts the whitespace that `s` ends with.
pub fn count_trailing_whitespace(s: &[char]) -> (n: usize)
    ensures
        n == trailing_whitespace(s@),
        n <= s.len(),
{
    let mut i: usize = 0;
    while i < s.len() && char_is_whitespace(s[s.len() - 1 - i])
        invariant
            i <= s.len(),
            forall|j: int| s.len() - i <= j < s.len() ==> is_whitespace(s@[j]),
        decreases s.len() - i,
    {
        i += 1;
    }
    proof {
        lemma_trailing_whitespace(s@);
    }
    i
}

/// Measures the word that `s` begins with.
pub fn count_word(s: &[char]) -> (n: usize)
    ensures
        n == word_len(s@),
        n <= s.len(),
{
    let mut i: usize = 0;
    while i < s.len() && !char_is_whitespace(s[i])
        invariant
            i <= s.len(),
            forall|j: int| 0 <= j < i ==> !is_whitespace(s@[j]),
        decreases s.len() - i,
    {
        i += 1;
    }
    proof {
        lemma_word_len(s@);
    }
    i
}

/// Cuts the whitespace off the two ends of `s`.
pub fn trim_slice(s: &[char]) -> (out: &[char])
    ensures
        out@ == trim(s@),
{
    let rest = suffix(s, count_leading_whitespace(s));
    let n = count_trailing_whitespace(rest);
    prefix(rest, rest.len() - n)
}

/// Computes `strip_cr`.
pub fn strip_cr_slice(s: &[char]) -> (out: &[char])
    ensures
        out@ == strip_cr(s@),
{
    if s.len() > 0 && s[s.len() - 1] == '\r' {
        prefix(s, s.len() - 1)
    } else {
        s
    }
}

/// Takes the first line off a text: the line, and the text after it.
pub fn next_line(text: &[char]) -> (r: (&[char], &[char]))
    requires
        text.len() > 0,
    ensures
        lines(text@) == seq![r.0@] + lines(r.1@),
        r.1@.len() < text@.len(),
{
    let i = find_char(text, '\n');
    if i == text.len() {
        let rest = suffix(text, i);
        (text, rest)
    } else {
        (strip_cr_slice(prefix(text, i)), suffix(text, i + 1))
    }
}

/// The first two fields of a line, where it has as many.
pub fn first_two_fields(line: &[char]) -> (r: Option<(&[char], &[char])>)
    ensures
        r is Some <==> fields(line@).len() >= 2,
        r matches Some((a, b)) ==> a@ == fields(line@)[0] && b@ == fields(line@)[1],
{
    let rest = suffix(line, count_leading_whitespace(line));
    let n = count_word(rest);
    if n == 0 {
        return None;
    }
    let first = prefix(rest, n);
    let after = suffix(rest, n);
    let rest2 = suffix(after, count_leading_whitespace(after));
    let m = count_word(rest2);
    if m == 0 {
        assert(fields(after@).len() == 0);
        return None;
    }
    let second = prefix(rest2, m);
    assert(fields(after@)[0] == second@);
    Some((first, second))
}

} // verus!
