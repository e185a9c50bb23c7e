//! The file-import command, apart from the file read itself: the outcome of
//! reading a file becomes the base64 text of its bytes, or the read failure's
//! message unchanged.
use crate::encoding::{
    decoded, encode_base64, encoded, encoded_length, lemma_encoded_injective, lemma_encoded_length,
    lemma_round_trip,
};
use vstd::prelude::*;

verus! {

/// The outcome of reading a file, as values: the bytes, or the message of the
/// failure.
pub open spec fn read_view(read: Result<Vec<u8>, String>) -> Result<Seq<u8>, Seq<char>> {
    match read {
        Ok(bytes) => Ok(bytes@),
        Err(message) => Err(message@),
    }
}

/// The outcome of the command, as values: the text, or the message.
pub open spec fn reply_view(reply: Result<String, String>) -> Result<Seq<char>, Seq<char>> {
    match reply {
        Ok(text) => Ok(text@),
        Err(message) => Err(message@),
    }
}

/// What the command replies to a read outcome: success with the base64 text
/// of the bytes, or failure with the same message.
pub open spec fn import_reply(read: Result<Seq<u8>, Seq<char>>) -> Result<Seq<char>, Seq<char>> {
    match read {
        Ok(bytes) => Ok(encoded(bytes)),
        Err(message) => Err(message),
    }
}

/// Whether the text of `n` bytes has a length that fits in `usize`.
pub open spec fn text_fits(n: nat) -> bool {
    encoded_length(n) <= usize::MAX
}

/// The length of the base64 text of `n` bytes, or `None` where it does not
/// fit in `usize`.
pub fn encoded_text_length(n: usize) -> (r: Option<usize>)
    ensures
        r is Some <==> text_fits(n as nat),
        r matches Some(k) ==> k == encoded_length(n as nat),
{
    let groups: usize = n / 3 + if n % 3 == 0 {
        0
    } else {
        1
    };
    assert((n as nat + 2) / 3 == groups);
    if groups > usize::MAX / 4 {
        None
    } else {
        Some(groups * 4)
    }
}

/// The reply of the file-import command to the outcome of reading the file.
pub fn encode_file_contents(read: Result<Vec<u8>, String>) -> (r: Result<String, String>)
    requires
        read matches Ok(bytes) ==> text_fits(bytes@.len()),
    ensures
        reply_view(r) == import_reply(read_view(read)),
{
    match read {
        Ok(bytes) => Ok(encode_base64(bytes.as_slice())),
        Err(message) => Err(message),
    }
}

/// Decoding the text that the command replies for a file gives the file's
/// bytes back exactly, whatever their number, none included.
pub proof fn lemma_import_round_trip(bytes: Seq<u8>)
    ensures
        import_reply(Ok(bytes)) matches Ok(text) && decoded(text) == bytes && text.len()
            == encoded_length(bytes.len()),
{
    lemma_round_trip(bytes);
    lemma_encoded_length(bytes);
}

/// Two successful reads give the same reply exactly when the files held the
/// same bytes: repeated imports of one content agree, and imports of
/// different contents never share a reply.
pub proof fn lemma_import_deterministic(a: Seq<u8>, b: Seq<u8>)
    ensures
        import_reply(Ok(a)) == import_reply(Ok(b)) <==> a == b,
{
    lemma_encoded_injective(a, b);
}

/// A failed read, such as a missing file or a directory, gives the failure
/// outcome with the read's message, never success.
pub proof fn lemma_import_failure(message: Seq<char>)
    ensures
        import_reply(Err(message)) == Err::<Seq<char>, Seq<char>>(message),
{
}

/// An empty file gives success with the empty text.
pub proof fn lemma_import_empty()
    ensures
        import_reply(Ok(Seq::<u8>::empty())) == Ok::<Seq<char>, Seq<char>>(Seq::empty()),
{
}

} // verus!
