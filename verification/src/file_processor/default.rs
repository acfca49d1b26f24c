//! The raw-text processor: the file's bytes read as UTF-8 text.
use super::{FileProcessor, ProcessError};
use vstd::prelude::*;

verus! {

/// What `String::from_utf8_lossy` makes of a byte sequence: its UTF-8
/// decoding, with each invalid sequence replaced by U+FFFD.
pub uninterp spec fn utf8_lossy(bytes: Seq<u8>) -> Seq<char>;

/// Calls `String::from_utf8_lossy` and takes the text.
///
/// Trusted: the result is the text named [`utf8_lossy`] of the bytes, and for
/// valid UTF-8 it is the decoding of the bytes (vstd's `decode_utf8`). How
/// invalid sequences are replaced is not stated.
#[verifier::external_body]
fn decode_utf8_lossy(bytes: &[u8]) -> (res: String)
    ensures
        res@ == utf8_lossy(bytes@),
        vstd::utf8::valid_utf8(bytes@) ==> res@ == vstd::utf8::decode_utf8(bytes@),
{
    String::from_utf8_lossy(bytes).into_owned()
}

/// The processor for files without a specialised one: the file's text.
pub struct DefaultTextProcessor;

impl FileProcessor for DefaultTextProcessor {
    /// The bytes of the file read as UTF-8 text; this never fails.
    fn process(&self, content: &[u8]) -> (res: Result<String, ProcessError>)
        ensures
            res matches Ok(s) && s@ == utf8_lossy(content@),
            vstd::utf8::valid_utf8(content@) ==> (res matches Ok(s) && s@
                == vstd::utf8::decode_utf8(content@)),
    {
        Ok(decode_utf8_lossy(content))
    }
}

} // verus!
