//! Identifiers of blocks: a tag for the kind of block, then the SHA-1 of
//! its content in lower-case hexadecimal.

use vstd::prelude::*;
use vstd::string::StringExecFns;
use vstd::utf8::encode_utf8;
use sha1::Digest;

verus! {

/// The SHA-1 digest of a byte string.
pub uninterp spec fn sha1_of(bytes: Seq<u8>) -> Seq<u8>;

/// The sixteen hexadecimal digits, lower case.
pub open spec fn hex_digits() -> Seq<char> {
    seq!['0', '1', '2', '3', '4', '5', '6', '7', '8', '9', 'a', 'b', 'c', 'd', 'e', 'f']
}

/// Two hexadecimal digits for every byte, the high half first.
pub open spec fn hex_of(bytes: Seq<u8>) -> Seq<char> {
    Seq::new(
        2 * bytes.len(),
        |i: int|
            if i % 2 == 0 {
                hex_digits()[(bytes[i / 2] / 16) as int]
            } else {
                hex_digits()[(bytes[i / 2] % 16) as int]
            },
    )
}

/// Hash `bytes` with SHA-1.
///
/// Trusted: `sha1::Sha1::digest` computes the SHA-1 of its argument, a
/// function of the bytes alone, and its output has 20 bytes.
#[verifier::external_body]
fn sha1_digest(bytes: &[u8]) -> (digest: Vec<u8>)
    ensures
        digest@ == sha1_of(bytes@),
        digest@.len() == 20,
{
    sha1::Sha1::digest(bytes).to_vec()
}

/// Write `bytes` in hexadecimal.
///
/// Trusted: `hex::encode` gives two lower-case hexadecimal digits for
/// every byte, in order, the high four bits first.
#[verifier::external_body]
fn hex_encode(bytes: &[u8]) -> (text: String)
    ensures
        text@ == hex_of(bytes@),
{
    hex::encode(bytes)
}

/// The identifier of a block with this content under the tag `tag`: the
/// tag, a hyphen, and the content's SHA-1 in hexadecimal.
pub fn block_id(tag: &str, content: &[u8]) -> (id: String)
    ensures
        id@ == tag@ + seq!['-'] + hex_of(sha1_of(content@)),
        id@.len() == tag@.len() + 41,
{
    let digest = sha1_digest(content);
    let text = hex_encode(digest.as_slice());
    proof {
        reveal_strlit("-");
    }
    let id = String::from_str(tag).concat("-").concat(text.as_str());
    assert("-"@ =~= seq!['-']);
    id
}

/// The identifier of the MIDI block made of the file `bytes`.
pub fn midi_block_id(bytes: &[u8]) -> (id: String)
    ensures
        id@ == "midi"@ + seq!['-'] + hex_of(sha1_of(bytes@)),
{
    block_id("midi", bytes)
}

/// The identifier of the shared memory block at `path`.
pub fn shared_memory_block_id(path: &str) -> (id: String)
    ensures
        id@ == "shm"@ + seq!['-'] + hex_of(sha1_of(encode_utf8(path@))),
{
    block_id("shm", path.as_bytes())
}

} // verus!
