//! Base58 text, as the `bs58` crate writes and reads it, the digest that
//! keys the registry, and two forms of text that the standard library
//! writes.

use vstd::prelude::*;

verus! {

/// The Base58 text of `bytes`: what `bs58` encodes them to with its default
/// alphabet, without checksum or prefix.
pub uninterp spec fn base58_text(bytes: Seq<u8>) -> Seq<char>;

/// The bytes that `text` stands for in Base58, where it stands for any: what
/// `bs58` decodes it to with its default alphabet.
pub uninterp spec fn base58_bytes(text: Seq<char>) -> Option<Seq<u8>>;

/// The 58 characters of Base58 text, in the order of their digits.
pub open spec fn base58_alphabet() -> Seq<char> {
    "123456789ABCDEFGHJKLMNPQRSTUVWXYZabcdefghijkmnopqrstuvwxyz"@
}

/// Whether `text` holds characters of the Base58 alphabet only.
pub open spec fn in_base58_alphabet(text: Seq<char>) -> bool {
    forall|i: int| 0 <= i < text.len() ==> base58_alphabet().contains(#[trigger] text[i])
}

/// The BLAKE3 digest of `data`, 32 bytes.
pub uninterp spec fn blake3_digest(data: Seq<u8>) -> Seq<u8>;

/// What `str::to_lowercase` makes of `text`.
pub uninterp spec fn lowercase(text: Seq<char>) -> Seq<char>;

/// The form in which `Debug` writes the string `text`: between double
/// quotes, with what cannot be shown as it is escaped.
pub uninterp spec fn debug_quoted(text: Seq<char>) -> Seq<char>;

/// Calls `bs58::encode(..).into_string()`.
///
/// Trusted: the result is the Base58 text of `bytes`, and that text decodes
/// to `bytes` again, the two directions of the codec being inverse to each
/// other on everything the encoder writes. The text holds characters of the
/// alphabet only. It has at least one character for each byte, a leading
/// zero byte giving one and every other byte at least one digit, and no
/// more than 1.37 characters for each byte, rounded up, which is the ratio
/// of the two bases that the encoder's source names.
#[verifier::external_body]
pub(crate) fn base58_encode(bytes: &[u8]) -> (text: String)
    ensures
        text@ == base58_text(bytes@),
        base58_bytes(text@) == Some(bytes@),
        in_base58_alphabet(text@),
        bytes@.len() <= text@.len() <= (bytes@.len() * 137 + 99) / 100,
{
    bs58::encode(bytes).into_string()
}

/// Calls `bs58::decode(..).into_vec()`.
///
/// Trusted: the result is the bytes that `text` stands for, and `None` where
/// the decoder refuses the text.
#[verifier::external_body]
pub(crate) fn base58_decode(text: &str) -> (bytes: Option<Vec<u8>>)
    ensures
        match base58_bytes(text@) {
            Some(wanted) => bytes is Some && bytes->Some_0@ == wanted,
            None => bytes is None,
        },
{
    bs58::decode(text).into_vec().ok()
}

/// Calls `blake3::hash`.
///
/// Trusted: the result is the BLAKE3 digest of `data`.
#[verifier::external_body]
pub(crate) fn blake3_hash(data: &[u8]) -> (digest: [u8; 32])
    ensures
        digest@ == blake3_digest(data@),
{
    blake3::hash(data).into()
}

/// Calls `str::to_lowercase`.
///
/// Trusted: the result is the lowercase form that the standard library
/// gives, which depends on the characters alone.
#[verifier::external_body]
pub(crate) fn to_lowercase(text: &str) -> (lowered: String)
    ensures
        lowered@ == lowercase(text@),
{
    text.to_lowercase()
}

/// Formats `text` with `{:?}`, which calls `<str as Debug>::fmt`.
///
/// Trusted: the result is the quoted and escaped form that the standard
/// library gives, which depends on the characters alone.
#[verifier::external_body]
pub(crate) fn quote_text(text: &str) -> (quoted: String)
    ensures
        quoted@ == debug_quoted(text@),
{
    format!("{:?}", text)
}

} // verus!
