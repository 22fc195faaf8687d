//! The order of two versions, as the crate `version_compare` decides it.
//! Nothing here is proved of that order: the two functions at the end hand
//! its answers to the library, and the contracts give those answers names.

use version_compare::{compare, Cmp, Version};
use vstd::prelude::*;

verus! {

/// How one version stands to another.
#[derive(Debug, Clone, Copy, PartialEq, Eq, Structural)]
pub enum Precedence {
    /// The first is the older one.
    Lower,
    /// Neither is newer.
    Same,
    /// The first is the newer one.
    Higher,
}

/// Whether `version_compare::Version::from` reads a version out of the text.
pub uninterp spec fn version_parses(text: Seq<char>) -> bool;

/// What `version_compare::compare` says of two texts: how the first version
/// stands to the second, or nothing where one of them is no version.
pub uninterp spec fn version_precedence(first: Seq<char>, second: Seq<char>) -> Option<Precedence>;

/// `version_compare::Version::from`: whether the text can be read as a
/// version. The contract only names the answer.
#[verifier::external_body]
pub(crate) fn parses_as_version(text: &str) -> (ok: bool)
    ensures
        ok == version_parses(text@),
{
    Version::from(text).is_some()
}

/// `version_compare::compare`: reads both texts as versions and compares
/// them. The contract names the answer, and says when there is one: the
/// function fails where `Version::from` reads no version out of one of the
/// texts, and only there; of two versions it says `Lt`, `Eq` or `Gt`.
#[verifier::external_body]
pub(crate) fn precedence_of(first: &str, second: &str) -> (r: Option<Precedence>)
    ensures
        r == version_precedence(first@, second@),
        r is Some <==> (version_parses(first@) && version_parses(second@)),
{
    match compare(first, second) {
        Ok(Cmp::Lt) => Some(Precedence::Lower),
        Ok(Cmp::Eq) => Some(Precedence::Same),
        Ok(Cmp::Gt) => Some(Precedence::Higher),
        Ok(Cmp::Ne) | Ok(Cmp::Le) | Ok(Cmp::Ge) | Err(()) => None,
    }
}

} // verus!
