//! The mapping between the two repositories' names for a package, as a text
//! holds it: one pair on a line, the first repository's name and then the
//! second's, as the line's first two fields.

use crate::package_map::{lemma_names_of, lemma_table_size, names_of, table_of, PackageMap};
use crate::text::{fields, first_two_fields, lines, next_line, to_chars, to_string};
use vstd::prelude::*;

verus! {

/// The reader of mapping texts.
pub struct FileManager;

/// The pair that a line holds: its first two fields. A line with fewer fields
/// holds none, and what follows the second field is not read.
pub open spec fn mapping_entry(line: Seq<char>) -> Option<(Seq<char>, Seq<char>)> {
    let f = fields(line);
    if f.len() >= 2 {
        Some((f[0], f[1]))
    } else {
        None
    }
}

/// The pairs that lines hold, in the order of the lines.
pub open spec fn mapping_entries(lines: Seq<Seq<char>>) -> Seq<(Seq<char>, Seq<char>)>
    decreases lines.len(),
{
    if lines.len() == 0 {
        Seq::empty()
    } else {
        match mapping_entry(lines.last()) {
            Some(entry) => mapping_entries(lines.drop_last()).push(entry),
            None => mapping_entries(lines.drop_last()),
        }
    }
}

/// Lines hold no more pairs than there are lines.
pub proof fn lemma_mapping_entries_len(lines: Seq<Seq<char>>)
    ensures
        mapping_entries(lines).len() <= lines.len(),
    decreases lines.len(),
{
    if lines.len() > 0 {
        lemma_mapping_entries_len(lines.drop_last());
    }
}

/// The two texts of a pair, as values.
pub open spec fn pair_view(pair: Option<(String, String)>) -> Option<(Seq<char>, Seq<char>)> {
    match pair {
        Some((a, b)) => Some((a@, b@)),
        None => None,
    }
}

impl FileManager {
    /// Reads the pair that a line holds.
    pub fn parse_mapping_line(line: &str) -> (r: Option<(String, String)>)
        ensures
            pair_view(r) == mapping_entry(line@),
    {
        let chars = to_chars(line);
        match first_two_fields(chars.as_slice()) {
            Some((alt_name, second_name)) => Some((to_string(alt_name), to_string(second_name))),
            None => None,
        }
    }

    /// Reads a mapping out of the text that holds it. A line without a pair is
    /// passed over; of two pairs with the same first name the later one counts.
    pub fn read_mapping(contents: &str) -> (mapping: PackageMap)
        ensures
            mapping@ == table_of(mapping_entries(lines(contents@))),
            mapping.names() == names_of(mapping_entries(lines(contents@))),
            mapping@.dom().finite(),
            mapping@.len() <= lines(contents@).len(),
    {
        let chars = to_chars(contents);
        let mut mapping = PackageMap::new();
        let mut rest = chars.as_slice();
        let ghost mut done: Seq<Seq<char>> = Seq::empty();
        while rest.len() > 0
            invariant
                lines(chars@) == done + lines(rest@),
                mapping@ == table_of(mapping_entries(done)),
                mapping.names() == names_of(mapping_entries(done)),
            decreases rest.len(),
        {
            let (line, next) = next_line(rest);
            proof {
                assert(done.push(line@).drop_last() =~= done);
                done = done.push(line@);
            }
            match first_two_fields(line) {
                Some((alt_name, second_name)) => {
                    proof {
                        lemma_names_of(mapping_entries(done.drop_last()), alt_name@);
                    }
                    mapping.insert(to_string(alt_name), to_string(second_name));
                    proof {
                        let entries = mapping_entries(done);
                        assert(entries.drop_last() =~= mapping_entries(done.drop_last()));
                    }
                },
                None => {},
            }
            rest = next;
        }
        proof {
            lemma_mapping_entries_len(done);
            lemma_table_size(mapping_entries(done));
        }
        mapping
    }
}

/// Reads a mapping out of the text that holds it: see `FileManager::read_mapping`.
pub fn read_package_mapping(contents: &str) -> (mapping: PackageMap)
    ensures
        mapping@ == table_of(mapping_entries(lines(contents@))),
        mapping.names() == names_of(mapping_entries(lines(contents@))),
        mapping@.dom().finite(),
        mapping@.len() <= lines(contents@).len(),
{
    FileManager::read_mapping(contents)
}

} // verus!
