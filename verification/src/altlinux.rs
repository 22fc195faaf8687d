//! The first listing format: one package on a line, the name and the version
//! as the line's first two fields. A version may begin with an epoch, ended by
//! the version's first colon, and hold release parts, set off by dashes and
//! marked `alt`; neither belongs to the version that is compared.

use crate::package_map::{lemma_names_of, lemma_table_size, names_of, table_of, PackageMap};
use crate::parser::{PackageParser, ParseError};
use crate::text::{
    all_free_of, append, fields, find_char, first_index, first_two_fields, free_of, join,
    lemma_first_index, lemma_join_free, lemma_split_join, lemma_split_parts, lemma_split_single,
    lines, next_line, prefix, split, suffix, to_chars, to_string,
};
use vstd::prelude::*;

verus! {

/// The reader of the first listing format.
pub struct AltLinuxParser;

/// What a release part begins with.
pub open spec fn release_marker() -> Seq<char> {
    seq!['a', 'l', 't']
}

/// Whether a part of a version, as the dashes divide it, names a release of
/// the package and not a version of the software.
pub open spec fn is_release_part(part: Seq<char>) -> bool {
    release_marker().is_prefix_of(part)
}

/// The parts of a version that are kept: all but the release parts.
pub open spec fn is_kept() -> spec_fn(Seq<char>) -> bool {
    |part: Seq<char>| !is_release_part(part)
}

/// A version without its epoch: what follows the first colon, or all of the
/// version where it holds no colon. A colon after the first one stays.
pub open spec fn after_epoch(raw: Seq<char>) -> Seq<char> {
    if free_of(raw, ':') {
        raw
    } else {
        raw.skip(first_index(raw, ':') + 1)
    }
}

/// The version as it is compared: without its epoch, and without the release
/// parts among its dash-separated parts.
pub open spec fn normalize(raw: Seq<char>) -> Seq<char> {
    join(split(after_epoch(raw), '-').filter(is_kept()), '-')
}

/// The entry that a line makes: its first field is the name, its second the
/// version; a line with fewer fields makes none.
pub open spec fn line_entry(line: Seq<char>) -> Option<(Seq<char>, Seq<char>)> {
    let f = fields(line);
    if f.len() >= 2 {
        Some((f[0], normalize(f[1])))
    } else {
        None
    }
}

/// The entries that lines make, in the order of the lines.
pub open spec fn entries_of(lines: Seq<Seq<char>>) -> Seq<(Seq<char>, Seq<char>)>
    decreases lines.len(),
{
    if lines.len() == 0 {
        Seq::empty()
    } else {
        match line_entry(lines.last()) {
            Some(entry) => entries_of(lines.drop_last()).push(entry),
            None => entries_of(lines.drop_last()),
        }
    }
}

/// Lines make no more entries than there are lines.
pub proof fn lemma_entries_len(lines: Seq<Seq<char>>)
    ensures
        entries_of(lines).len() <= lines.len(),
    decreases lines.len(),
{
    if lines.len() > 0 {
        lemma_entries_len(lines.drop_last());
    }
}

/// The parts that are kept are parts of the version: what none of its parts
/// holds, none of them holds. And each of them is kept for what it is: kept
/// again, they are the same.
pub proof fn lemma_kept_parts(parts: Seq<Seq<char>>, c: char)
    requires
        all_free_of(parts, c),
    ensures
        all_free_of(parts.filter(is_kept()), c),
        parts.filter(is_kept()).filter(is_kept()) == parts.filter(is_kept()),
    decreases parts.len(),
{
    reveal(Seq::filter);
    if parts.len() > 0 {
        let init = parts.drop_last();
        lemma_kept_parts(init, c);
        let kept = init.filter(is_kept());
        if is_kept()(parts.last()) {
            kept.lemma_filter_push(parts.last(), is_kept());
        }
    }
}

/// A version that holds at most one colon, and so no epoch any more once it
/// was normalized, stays as it is when it is normalized again.
pub proof fn lemma_normalize_idempotent(raw: Seq<char>)
    requires
        free_of(after_epoch(raw), ':'),
    ensures
        normalize(normalize(raw)) == normalize(raw),
{
    let tail = after_epoch(raw);
    let parts = split(tail, '-');
    let kept = parts.filter(is_kept());
    let once = join(kept, '-');
    lemma_split_parts(tail, '-', ':');
    lemma_split_parts(tail, '-', '-');
    lemma_kept_parts(parts, ':');
    lemma_kept_parts(parts, '-');
    lemma_join_free(kept, '-', ':');
    if kept.len() == 0 {
        reveal(Seq::filter);
        lemma_split_single(once, '-');
    } else {
        lemma_split_join(kept, '-');
    }
}

/// Computes `after_epoch`.
pub fn strip_epoch(raw: &[char]) -> (out: &[char])
    ensures
        out@ == after_epoch(raw@),
{
    let i = find_char(raw, ':');
    proof {
        lemma_first_index(raw@, ':');
    }
    if i == raw.len() {
        raw
    } else {
        suffix(raw, i + 1)
    }
}

/// Decides `is_release_part`.
pub fn starts_with_marker(part: &[char]) -> (b: bool)
    ensures
        b == is_release_part(part@),
{
    part.len() >= 3 && part[0] == 'a' && part[1] == 'l' && part[2] == 't'
}

/// Computes `normalize` for a version as text.
pub fn normalize_version(raw: &str) -> (out: String)
    ensures
        out@ == normalize(raw@),
{
    let chars = to_chars(raw);
    let version = normalize_chars(chars.as_slice());
    to_string(version.as_slice())
}

/// Computes `normalize`.
pub fn normalize_chars(raw: &[char]) -> (out: Vec<char>)
    ensures
        out@ == normalize(raw@),
{
    let tail = strip_epoch(raw);
    let mut out: Vec<char> = Vec::new();
    let mut rest = tail;
    let mut none_kept = true;
    let mut more = true;
    let ghost mut done: Seq<Seq<char>> = Seq::empty();
    proof {
        reveal(Seq::filter);
    }
    while more
        invariant
            more ==> split(tail@, '-') == done + split(rest@, '-'),
            !more ==> split(tail@, '-') == done,
            out@ == join(done.filter(is_kept()), '-'),
            none_kept == (done.filter(is_kept()).len() == 0),
        decreases rest.len() + if more { 1int } else { 0int },
    {
        let i = find_char(rest, '-');
        let part = prefix(rest, i);
        let ghost kept = done.filter(is_kept());
        proof {
            done.lemma_filter_push(part@, is_kept());
            assert(kept.push(part@).drop_last() =~= kept);
        }
        if !starts_with_marker(part) {
            if !none_kept {
                out.push('-');
            }
            append(&mut out, part);
            none_kept = false;
        }
        if i == rest.len() {
            proof {
                assert(rest@.take(i as int) =~= rest@);
            }
            more = false;
        } else {
            let next = suffix(rest, i + 1);
            rest = next;
        }
        proof {
            done = done.push(part@);
        }
    }
    out
}

impl PackageParser for AltLinuxParser {
    /// Every text is a listing: what has not the shape of an entry is passed
    /// over.
    open spec fn is_listing(data: Seq<char>) -> bool {
        true
    }

    open spec fn entries(data: Seq<char>) -> Seq<(Seq<char>, Seq<char>)> {
        entries_of(lines(data))
    }

    /// Reads a listing of the first format: never fails, and passes over a
    /// line with fewer than two fields. The table has no more names than the
    /// text has lines.
    fn parse(data: &str) -> (r: Result<PackageMap, ParseError>)
        ensures
            r matches Ok(m) ==> m@.dom().finite() && m@.len() <= lines(data@).len(),
    {
        let chars = to_chars(data);
        let mut map = PackageMap::new();
        let mut rest = chars.as_slice();
        let ghost mut done: Seq<Seq<char>> = Seq::empty();
        while rest.len() > 0
            invariant
                lines(chars@) == done + lines(rest@),
                map@ == table_of(entries_of(done)),
                map.names() == names_of(entries_of(done)),
            decreases rest.len(),
        {
            let (line, next) = next_line(rest);
            proof {
                assert(done.push(line@).drop_last() =~= done);
                done = done.push(line@);
            }
            match first_two_fields(line) {
                Some((name, raw)) => {
                    let version = normalize_chars(raw);
                    proof {
                        lemma_names_of(entries_of(done.drop_last()), name@);
                    }
                    map.insert(to_string(name), to_string(version.as_slice()));
                    proof {
                        let entries = entries_of(done);
                        assert(entries.drop_last() =~= entries_of(done.drop_last()));
                    }
                },
                None => {},
            }
            rest = next;
        }
        proof {
            lemma_entries_len(done);
            lemma_table_size(entries_of(done));
        }
        Ok(map)
    }
}

} // verus!
