//! From what a server sent to the text of a listing. A listing whose address
//! ends in `.xz` comes compressed; any other is text as it stands.

use crate::text::{ends_with, to_chars};
use std::io::Read;
use vstd::prelude::*;
use vstd::utf8::{encode_utf8, valid_utf8};
use xz2::read::XzDecoder;

verus! {

/// Why what was received is no listing.
#[derive(Debug, Clone, PartialEq, Eq)]
pub enum DecodeError {
    /// The data could not be decompressed, or what came out is no text. The
    /// decoder's words are kept.
    Compressed(String),
    /// The data is not text in UTF-8.
    NotText,
}

/// What address a compressed listing has.
pub open spec fn compressed_suffix() -> Seq<char> {
    ".xz"@
}

/// Whether the listing at an address comes compressed.
pub open spec fn is_compressed(url: Seq<char>) -> bool {
    compressed_suffix().is_suffix_of(url)
}

/// What `xz2::read::XzDecoder` reads out of compressed data, read to the end
/// as text; nothing where it fails.
pub uninterp spec fn xz_decoded(compressed: Seq<u8>) -> Option<Seq<char>>;

/// The text that a result holds, if it holds one.
pub open spec fn decoded(r: Result<String, DecodeError>) -> Option<Seq<char>> {
    match r {
        Ok(text) => Some(text@),
        Err(_) => None,
    }
}

/// `xz2::read::XzDecoder::new` and `Read::read_to_string` on it: decompresses
/// the data and reads the outcome as text. The contract only names the
/// outcome; a failure comes back as `DecodeError::Compressed`, with the
/// decoder's words.
#[verifier::external_body]
pub(crate) fn decompress_xz_data(compressed: &[u8]) -> (r: Result<String, DecodeError>)
    ensures
        decoded(r) == xz_decoded(compressed@),
        r matches Err(e) ==> e is Compressed,
{
    let mut text = String::new();
    match XzDecoder::new(compressed).read_to_string(&mut text) {
        Ok(_) => Ok(text),
        Err(e) => Err(DecodeError::Compressed(e.to_string())),
    }
}

/// `String::from_utf8`: the text that the bytes encode, where they are UTF-8.
/// The text's own bytes are then the bytes given.
#[verifier::external_body]
pub(crate) fn text_from_utf8(bytes: &[u8]) -> (r: Option<String>)
    ensures
        r is Some <==> valid_utf8(bytes@),
        r matches Some(text) ==> encode_utf8(text@) == bytes@,
{
    String::from_utf8(bytes.to_vec()).ok()
}

/// Decides `is_compressed`.
pub fn has_compressed_suffix(url: &str) -> (b: bool)
    ensures
        b == is_compressed(url@),
{
    let url = to_chars(url);
    let suffix = to_chars(".xz");
    ends_with(url.as_slice(), suffix.as_slice())
}

/// The text of the listing that was received from an address.
pub fn decode_listing(url: &str, bytes: &[u8]) -> (r: Result<String, DecodeError>)
    ensures
        is_compressed(url@) ==> decoded(r) == xz_decoded(bytes@),
        is_compressed(url@) ==> (r matches Err(e) ==> e is Compressed),
        !is_compressed(url@) ==> (r is Ok <==> valid_utf8(bytes@)),
        !is_compressed(url@) ==> (r matches Ok(text) ==> encode_utf8(text@) == bytes@),
        !is_compressed(url@) ==> (r matches Err(e) ==> e == DecodeError::NotText),
{
    if has_compressed_suffix(url) {
        decompress_xz_data(bytes)
    } else {
        match text_from_utf8(bytes) {
            Some(text) => Ok(text),
            None => Err(DecodeError::NotText),
        }
    }
}

} // verus!
