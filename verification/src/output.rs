//! Turning the bytes that processes write into text.

use crate::operations::{ReadEvent, ReadEventModel};
use vstd::prelude::*;
use vstd::utf8::{decode_utf8, valid_utf8};

verus! {

/// The most bytes a reader asks for in one read.
pub const READ_CHUNK_SIZE: usize = 4096;

/// The text that lenient decoding makes of `bytes`: valid UTF-8 is decoded,
/// and every invalid sequence is replaced by U+FFFD.
pub uninterp spec fn utf8_lossy(bytes: Seq<u8>) -> Seq<char>;

/// Decodes bytes leniently: `String::from_utf8_lossy`, then
/// `Cow::into_owned` for an owned string.
///
/// Trusted: that the text depends on the bytes alone, and that bytes which
/// are valid UTF-8 decode to the characters they encode. What invalid bytes
/// become is not stated beyond its name.
#[verifier::external_body]
pub(crate) fn decode_lossy(bytes: &[u8]) -> (text: String)
    ensures
        text@ == utf8_lossy(bytes@),
        valid_utf8(bytes@) ==> text@ == decode_utf8(bytes@),
{
    String::from_utf8_lossy(bytes).into_owned()
}

/// What a command wrote, as one text: its standard output, then its
/// standard error.
pub fn combine_output(stdout: &str, stderr: &str) -> (combined: String)
    ensures
        combined@ == stdout@ + stderr@,
{
    String::from_str(stdout).concat(stderr)
}

/// The result of a command that ran to its end: what it wrote to standard
/// output, leniently decoded, followed by what it wrote to standard error.
pub fn command_output(stdout: &[u8], stderr: &[u8]) -> (combined: String)
    ensures
        combined@ == utf8_lossy(stdout@) + utf8_lossy(stderr@),
        valid_utf8(stdout@) && valid_utf8(stderr@) ==> combined@ == decode_utf8(stdout@)
            + decode_utf8(stderr@),
{
    let out = decode_lossy(stdout);
    let err = decode_lossy(stderr);
    combine_output(out.as_str(), err.as_str())
}

/// What a read that returned `bytes` reports: the end of the stream if
/// there are none, their text otherwise.
pub open spec fn chunk_event(bytes: Seq<u8>) -> ReadEventModel {
    if bytes.len() == 0 {
        ReadEventModel::Closed
    } else {
        ReadEventModel::Text(utf8_lossy(bytes))
    }
}

/// Turns the bytes of one read into what the read reports.
pub fn decode_chunk(bytes: &[u8]) -> (event: ReadEvent)
    ensures
        event@ == chunk_event(bytes@),
        bytes@.len() > 0 && valid_utf8(bytes@) ==> event@ == ReadEventModel::Text(
            decode_utf8(bytes@),
        ),
{
    if bytes.len() == 0 {
        ReadEvent::Closed
    } else {
        ReadEvent::Text(decode_lossy(bytes))
    }
}

} // verus!
