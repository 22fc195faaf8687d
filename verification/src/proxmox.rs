//! The second listing format: stanzas of `Key: value` lines. A line with
//! `Package: ` gives the name for the lines that follow; a line with
//! `Version: ` gives a version for the name given last. A version may end in a
//! release, set off by a dash, and in build metadata, set off by a plus sign;
//! neither belongs to the version that is compared.

use crate::package_map::{lemma_names_of, lemma_table_size, names_of, table_of, PackageMap};
use crate::parser::{PackageParser, ParseError};
use crate::text::{
    before_first, find_char, find_occurrence, first_occurrence, lemma_first_index,
    lemma_first_index_is, lemma_first_occurrence, lines, next_line, prefix, suffix, to_chars,
    to_string, trim, trim_slice,
};
use vstd::prelude::*;

verus! {

/// The reader of the second listing format.
pub struct ProxmoxParser;

/// What stands before a package's name.
pub open spec fn package_key() -> Seq<char> {
    "Package: "@
}

/// What stands before a package's version.
pub open spec fn version_key() -> Seq<char> {
    "Version: "@
}

/// The value that a line gives under a key: what follows the first occurrence
/// of the key in the line. A line without the key gives none, and neither does
/// one that ends with it.
pub open spec fn field_value(line: Seq<char>, key: Seq<char>) -> Option<Seq<char>> {
    let rest = line.skip(first_occurrence(line, key));
    if key.is_prefix_of(rest) && key.len() < rest.len() {
        Some(rest.skip(key.len() as int))
    } else {
        None
    }
}

/// The version as it is compared: what stands before the first dash, and of
/// that what stands before the first plus sign.
pub open spec fn clean_version(version: Seq<char>) -> Seq<char> {
    before_first(before_first(version, '-'), '+')
}

/// The name that the versions after these lines belong to: the one that the
/// last line with a name gives, without the whitespace at its ends. It is
/// empty where no line gave a name.
pub open spec fn name_after(lines: Seq<Seq<char>>) -> Seq<char>
    decreases lines.len(),
{
    if lines.len() == 0 {
        Seq::empty()
    } else {
        match field_value(lines.last(), package_key()) {
            Some(name) => trim(name),
            None => name_after(lines.drop_last()),
        }
    }
}

/// The entries that lines make, in the order of the lines: one for each line
/// that gives a version and no name, and comes after a name that is not empty.
pub open spec fn entries_of(lines: Seq<Seq<char>>) -> Seq<(Seq<char>, Seq<char>)>
    decreases lines.len(),
{
    if lines.len() == 0 {
        Seq::empty()
    } else {
        let before = entries_of(lines.drop_last());
        let name = name_after(lines.drop_last());
        match field_value(lines.last(), version_key()) {
            Some(version) if field_value(lines.last(), package_key()) is None && name.len() > 0 =>
                before.push((name, clean_version(version))),
            _ => before,
        }
    }
}

/// Lines make no more entries than there are lines.
pub proof fn lemma_entries_len(lines: Seq<Seq<char>>)
    ensures
        entries_of(lines).len() <= lines.len(),
    decreases lines.len(),
{
    if lines.len() > 0 {
        lemma_entries_len(lines.drop_last());
    }
}

/// A version that was cleaned stays as it is when it is cleaned again.
pub proof fn lemma_clean_idempotent(version: Seq<char>)
    ensures
        clean_version(clean_version(version)) == clean_version(version),
{
    let base = before_first(version, '-');
    let once = before_first(base, '+');
    lemma_first_index(version, '-');
    lemma_first_index(base, '+');
    lemma_first_index_is(once, '-', once.len() as int);
    lemma_first_index_is(once, '+', once.len() as int);
    assert(before_first(once, '+') =~= once);
}

/// Computes `field_value`.
pub fn value_of<'a>(line: &'a [char], key: &[char]) -> (r: Option<&'a [char]>)
    ensures
        r is Some <==> field_value(line@, key@) is Some,
        r matches Some(value) ==> value@ == field_value(line@, key@)->0,
{
    let i = find_occurrence(line, key);
    proof {
        lemma_first_occurrence(line@, key@);
    }
    if line.len() - i > key.len() {
        Some(suffix(suffix(line, i), key.len()))
    } else {
        None
    }
}

/// Computes `clean_version`.
pub fn clean_chars(version: &[char]) -> (out: &[char])
    ensures
        out@ == clean_version(version@),
{
    let base = prefix(version, find_char(version, '-'));
    prefix(base, find_char(base, '+'))
}

/// Computes `clean_version` for a version as text.
pub fn clean_version_string(version: &str) -> (out: String)
    ensures
        out@ == clean_version(version@),
{
    let chars = to_chars(version);
    to_string(clean_chars(chars.as_slice()))
}

impl PackageParser for ProxmoxParser {
    /// Every text is a listing: what has not the shape of an entry is passed
    /// over.
    open spec fn is_listing(data: Seq<char>) -> bool {
        true
    }

    open spec fn entries(data: Seq<char>) -> Seq<(Seq<char>, Seq<char>)> {
        entries_of(lines(data))
    }

    /// Reads a listing of the second format: never fails, and passes over a
    /// line without a name or a version, and a version that no name came
    /// before. The table has no more names than the text has lines.
    fn parse(data: &str) -> (r: Result<PackageMap, ParseError>)
        ensures
            r matches Ok(m) ==> m@.dom().finite() && m@.len() <= lines(data@).len(),
    {
        let chars = to_chars(data);
        let package_key = to_chars("Package: ");
        let version_key = to_chars("Version: ");
        let mut map = PackageMap::new();
        let mut current: &[char] = suffix(chars.as_slice(), chars.len());
        let mut rest = chars.as_slice();
        let ghost mut done: Seq<Seq<char>> = Seq::empty();
        while rest.len() > 0
            invariant
                package_key@ == self::package_key(),
                version_key@ == self::version_key(),
                lines(chars@) == done + lines(rest@),
                current@ == name_after(done),
                map@ == table_of(entries_of(done)),
                map.names() == names_of(entries_of(done)),
            decreases rest.len(),
        {
            let (line, next) = next_line(rest);
            proof {
                assert(done.push(line@).drop_last() =~= done);
                done = done.push(line@);
            }
            match value_of(line, package_key.as_slice()) {
                Some(name) => {
                    current = trim_slice(name);
                },
                None => {
                    match value_of(line, version_key.as_slice()) {
                        Some(version) => {
                            if current.len() > 0 {
                                proof {
                                    lemma_names_of(entries_of(done.drop_last()), current@);
                                }
                                map.insert(to_string(current), to_string(clean_chars(version)));
                                proof {
                                    let entries = entries_of(done);
                                    assert(entries.drop_last() =~= entries_of(done.drop_last()));
                                }
                            }
                        },
                        None => {},
                    }
                },
            }
            rest = next;
        }
        proof {
            lemma_entries_len(done);
            lemma_table_size(entries_of(done));
        }
        Ok(map)
    }
}

} // verus!
