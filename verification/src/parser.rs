//! What the readers of the listing formats have in common.

use crate::package_map::{names_of, table_of, PackageMap};
use vstd::prelude::*;

verus! {

/// Why a text cannot be read as a listing at all. A line that does not have
/// the shape of an entry is no such reason: it is passed over.
#[derive(Debug, Clone, Copy, PartialEq, Eq)]
pub enum ParseError {
    /// The text as a whole is not in the format.
    Unreadable,
}

/// A format of package listings: a way to read the names and versions out of a
/// listing's text.
pub trait PackageParser {
    /// Whether a text is a listing in the format at all.
    spec fn is_listing(data: Seq<char>) -> bool;

    /// The entries that a listing holds, each a name and the version listed
    /// for it, in the order in which the listing holds them.
    spec fn entries(data: Seq<char>) -> Seq<(Seq<char>, Seq<char>)>;

    /// Reads a listing, and fails on a text that is none. What comes back is
    /// the table of the listing's entries, where a later entry for a name
    /// replaces an earlier one, with the names in the order in which the
    /// listing first has them.
    fn parse(data: &str) -> (r: Result<PackageMap, ParseError>)
        ensures
            r is Ok <==> Self::is_listing(data@),
            r matches Ok(m) ==> m@ == table_of(Self::entries(data@)) && m.names() == names_of(
                Self::entries(data@),
            ),
            r matches Err(e) ==> e == ParseError::Unreadable,
    ;
}

} // verus!
