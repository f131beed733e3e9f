//! Byte buffers and the decoding of query strings.

use crate::search::{after, before, cut_at_byte, pieces, split_bytes, views};
use crate::table::TextMap;
use crate::text::{ascii_byte, ascii_bytes, lossy_text, text_from_bytes};
use base64::engine::general_purpose;
use base64::Engine;
use bytes::Bytes;
use rand::distributions::Alphanumeric;
use rand::Rng;
use secrecy::SecretString;
use vstd::prelude::*;
use vstd::utf8::encode_utf8;

verus! {

#[verifier::external_type_specification]
#[verifier::external_body]
pub struct ExBytes(bytes::Bytes);

/// The bytes that a buffer holds.
pub uninterp spec fn contents(buffer: Bytes) -> Seq<u8>;

/// Calls `Bytes::as_ref`, which hands out the bytes that the buffer holds.
#[verifier::external_body]
pub(crate) fn bytes_of(buffer: &Bytes) -> (bytes: &[u8])
    ensures
        bytes@ == contents(*buffer),
{
    buffer.as_ref()
}

/// Why a query string could not be decoded.
#[derive(PartialEq, Eq, Debug, Clone, Copy, Structural)]
pub enum QueryError {
    /// An entry has no `=`.
    InvalidEntry,
}

/// The key and value of one entry of a query string: what stands before the
/// first `=` and all that follows it.
pub open spec fn pair_of(entry: Seq<u8>) -> Option<(Seq<char>, Seq<char>)> {
    match after(entry, encode_utf8("="@)) {
        Some(value) => Some((lossy_text(before(entry, encode_utf8("="@))), lossy_text(value))),
        None => None,
    }
}

/// The map that a list of entries makes, a later entry replacing an earlier
/// one with the same key; `None` if one of them has no `=`.
pub open spec fn pairs_of(entries: Seq<Seq<u8>>) -> Option<Map<Seq<char>, Seq<char>>>
    decreases entries.len(),
{
    if entries.len() == 0 {
        Some(Map::empty())
    } else {
        match (pairs_of(entries.drop_last()), pair_of(entries.last())) {
            (Some(map), Some(pair)) => Some(map.insert(pair.0, pair.1)),
            _ => None,
        }
    }
}

/// The map that a query string holds: its entries stand between `&`; an
/// empty string holds none.
pub open spec fn query_pairs(query: Seq<u8>) -> Option<Map<Seq<char>, Seq<char>>> {
    if query.len() == 0 {
        Some(Map::empty())
    } else {
        pairs_of(pieces(query, encode_utf8("&"@)))
    }
}

/// Decodes a query string, or a form body in the same encoding.
pub fn decode_query(query: &[u8]) -> (result: Result<TextMap<String>, QueryError>)
    ensures
        match result {
            Ok(map) => query_pairs(query@) == Some(map@),
            Err(_) => query_pairs(query@) is None,
        },
{
    let mut map: TextMap<String> = TextMap::new();
    if query.len() == 0 {
        return Ok(map);
    }
    proof {
        reveal_strlit("&");
        reveal_strlit("=");
    }
    let equals = ascii_byte("=");
    let entries = split_bytes(query, ascii_bytes("&"));
    let mut i: usize = 0;
    while i < entries.len()
        invariant
            i <= entries@.len(),
            seq![equals] == encode_utf8("="@),
            query@.len() > 0,
            views(entries@) == pieces(query@, encode_utf8("&"@)),
            pairs_of(views(entries@).take(i as int)) == Some(map@),
        decreases entries@.len() - i,
    {
        proof {
            assert(views(entries@).take(i + 1).drop_last() =~= views(entries@).take(i as int));
            assert(views(entries@).take(i + 1).last() == entries@[i as int]@);
        }
        match cut_at_byte(entries[i], equals) {
            (key, Some(value)) => {
                map = map.insert(text_from_bytes(key), text_from_bytes(value));
            },
            (_, None) => {
                proof {
                    lemma_pairs_fail(views(entries@), i + 1);
                }
                return Err(QueryError::InvalidEntry);
            },
        }
        i += 1;
    }
    proof {
        assert(views(entries@).take(entries@.len() as int) =~= views(entries@));
    }
    Ok(map)
}

/// Where a prefix of a list of entries makes no map, the list makes none.
pub proof fn lemma_pairs_fail(entries: Seq<Seq<u8>>, len: int)
    requires
        0 <= len <= entries.len(),
        pairs_of(entries.take(len)) is None,
    ensures
        pairs_of(entries) is None,
    decreases entries.len() - len,
{
    if len < entries.len() {
        assert(entries.take(len + 1).drop_last() =~= entries.take(len));
        lemma_pairs_fail(entries, len + 1);
    } else {
        assert(entries.take(len) =~= entries);
    }
}

/// Decodes the query string that a buffer holds.
pub fn parse_query_string(query: &Bytes) -> (result: Result<TextMap<String>, QueryError>)
    ensures
        match result {
            Ok(map) => query_pairs(contents(*query)) == Some(map@),
            Err(_) => query_pairs(contents(*query)) is None,
        },
{
    decode_query(bytes_of(query))
}

/// A secret text, kept in a `secrecy::Secret`: it is wiped when dropped and
/// does not show when printed.
#[verifier::external_body]
#[derive(Debug)]
pub struct SecretText {
    inner: SecretString,
}

#[verifier::external_type_specification]
#[verifier::external_body]
pub struct ExDecodeError(base64::DecodeError);

/// The text that a secret holds.
pub uninterp spec fn secret_text(secret: SecretText) -> Seq<char>;

/// The text that the standard base64 alphabet, without padding, makes of
/// bytes.
pub uninterp spec fn base64_text(bytes: Seq<u8>) -> Seq<char>;

/// The bytes that a text stands for in the standard base64 alphabet without
/// padding, if it stands for any.
pub uninterp spec fn base64_bytes(text: Seq<char>) -> Option<Seq<u8>>;

/// The length of the base64 text, without padding, of this many bytes.
pub open spec fn encoded_size(len: nat) -> nat {
    (len / 3) * 4 + if len % 3 == 0 {
        0
    } else {
        len % 3 + 1
    }
}

/// A letter of the ASCII alphabet or a digit.
pub open spec fn is_alphanumeric(c: char) -> bool {
    'a' <= c <= 'z' || 'A' <= c <= 'Z' || '0' <= c <= '9'
}

/// Calls `rand::thread_rng` and draws thirty characters from
/// `Alphanumeric` for a new secret. Which characters come is left to
/// chance; each is a letter or a digit. The call fails only where the
/// random source of the system cannot be started.
#[verifier::external_body]
pub fn generate_random_secret() -> (secret: SecretText)
    ensures
        secret_text(secret).len() == 30,
        forall|i: int| 0 <= i < 30 ==> is_alphanumeric(#[trigger] secret_text(secret)[i]),
{
    let rand_string: String =
        rand::thread_rng().sample_iter(&Alphanumeric).take(30).map(char::from).collect();
    SecretText { inner: rand_string.into() }
}

/// Calls `Secret::new` to keep a text as a secret.
#[verifier::external_body]
pub(crate) fn secret_of(text: String) -> (secret: SecretText)
    ensures
        secret_text(secret) == text@,
{
    SecretText { inner: secrecy::Secret::new(text) }
}

/// Calls `ExposeSecret::expose_secret`, which hands out the text that the
/// secret holds.
#[verifier::external_body]
pub(crate) fn expose(secret: &SecretText) -> (text: &str)
    ensures
        text@ == secret_text(*secret),
{
    secrecy::ExposeSecret::expose_secret(&secret.inner).as_str()
}

/// Calls `Secret::clone`: the copy holds the same text.
#[verifier::external_body]
pub(crate) fn copy_secret(secret: &SecretText) -> (copy: SecretText)
    ensures
        secret_text(copy) == secret_text(*secret),
{
    SecretText { inner: secret.inner.clone() }
}

/// Calls `Engine::encode` of `STANDARD_NO_PAD`, which panics where the
/// length of the text does not fit `usize`. The result is named by
/// `base64_text`.
#[verifier::external_body]
pub fn base64_encode(bytes: Vec<u8>) -> (text: String)
    requires
        encoded_size(bytes@.len()) <= usize::MAX,
    ensures
        text@ == base64_text(bytes@),
{
    general_purpose::STANDARD_NO_PAD.encode(bytes)
}

/// Calls `Engine::decode` of `STANDARD_NO_PAD`. The result is named by
/// `base64_bytes`; it is an error exactly where the text stands for no
/// bytes.
#[verifier::external_body]
fn decode(encoded: &str) -> (result: Result<Vec<u8>, base64::DecodeError>)
    ensures
        match result {
            Ok(bytes) => base64_bytes(encoded@) == Some(bytes@),
            Err(_) => base64_bytes(encoded@) is None,
        },
{
    general_purpose::STANDARD_NO_PAD.decode(encoded)
}

/// A text that is no base64.
#[derive(PartialEq, Eq, Debug, Clone, Copy, Structural)]
pub struct Base64Error;

/// Decodes a base64 text.
pub fn base64_decode(encoded: String) -> (result: Result<Vec<u8>, Base64Error>)
    ensures
        match result {
            Ok(bytes) => base64_bytes(encoded@) == Some(bytes@),
            Err(_) => base64_bytes(encoded@) is None,
        },
{
    match decode(encoded.as_str()) {
        Ok(bytes) => Ok(bytes),
        Err(_) => Err(Base64Error),
    }
}

/// Whether the base64 text of this many bytes has a length that fits
/// `usize`.
pub fn can_encode(len: usize) -> (fits: bool)
    ensures
        fits == (encoded_size(len as nat) <= usize::MAX),
{
    let extra: usize = if len % 3 == 0 {
        0
    } else {
        len % 3 + 1
    };
    match (len / 3).checked_mul(4) {
        Some(whole) => whole.checked_add(extra).is_some(),
        None => false,
    }
}

/// Encodes bytes as base64, where the text fits.
pub fn try_base64_encode(bytes: Vec<u8>) -> (text: Option<String>)
    ensures
        match text {
            Some(text) => encoded_size(bytes@.len()) <= usize::MAX && text@ == base64_text(
                bytes@,
            ),
            None => encoded_size(bytes@.len()) > usize::MAX,
        },
{
    if can_encode(bytes.len()) {
        Some(base64_encode(bytes))
    } else {
        None
    }
}

} // verus!
