//! Signed cookies: a cookie carries its value with an HMAC of it, so that a
//! value that comes back can be told from one that was made up.

use crate::http::Header;
use crate::json::{json_of_text, json_string_text, read_json, write_string, Json};
use crate::request::{optional_text, same_text};
use crate::response::{Response, ResponseView};
use crate::search::{after, before, cut_chars, pieces, split_chars, views};
use crate::table::TextMap;
use crate::text::{chars_of, decimal, decimal_text, lowercase, text_of, text_of_utf8};
use crate::utils::{
    base64_bytes, base64_decode, base64_text, copy_secret, encoded_size, expose,
    generate_random_secret, is_alphanumeric, secret_of, secret_text, try_base64_encode,
    SecretText,
};
use hmac::{Hmac, Mac};
use sha2::Sha256;
use vstd::prelude::*;
use vstd::slice::slice_to_vec;
use vstd::std_specs::cmp::PartialEqSpecImpl;
use vstd::string::StringExecFns;
use vstd::utf8::{decode_utf8, encode_utf8, valid_utf8};

verus! {

/// The HMAC-SHA256 tag of a message under a key.
pub uninterp spec fn hmac_sha256(key: Seq<u8>, message: Seq<u8>) -> Seq<u8>;

/// Calls `Hmac::<Sha256>::new_from_slice`, `update` and `finalize`: the tag
/// of the message under the key. HMAC takes a key of any size, so there is
/// always a tag.
#[verifier::external_body]
fn tag_of(key: &[u8], message: &[u8]) -> (tag: Option<Vec<u8>>)
    ensures
        tag is Some,
        tag.unwrap()@ == hmac_sha256(key@, message@),
{
    let mut mac = Hmac::<Sha256>::new_from_slice(key).ok()?;
    mac.update(message);
    Some(mac.finalize().into_bytes().to_vec())
}

/// Calls `Hmac::<Sha256>::new_from_slice`, `update` and `verify_slice`,
/// which holds a tag against the tag of the message in constant time: they
/// match where they are equal in length and in every byte.
#[verifier::external_body]
fn tag_matches(key: &[u8], message: &[u8], tag: &[u8]) -> (valid: Option<bool>)
    ensures
        valid == Some(tag@ == hmac_sha256(key@, message@)),
{
    let mut mac = Hmac::<Sha256>::new_from_slice(key).ok()?;
    mac.update(message);
    Some(mac.verify_slice(tag).is_ok())
}

/// The numbers of a list of bytes, as JSON writes them: in decimal, with
/// commas between them.
pub open spec fn byte_list(bytes: Seq<u8>) -> Seq<char>
    decreases bytes.len(),
{
    if bytes.len() == 0 {
        Seq::empty()
    } else if bytes.len() == 1 {
        decimal(bytes[0] as nat)
    } else {
        byte_list(bytes.drop_last()) + ","@ + decimal(bytes.last() as nat)
    }
}

/// The JSON text of a payload: an object with the value, as a string, under
/// `value`, and then the signature, as an array of numbers, under
/// `signature`.
pub open spec fn payload_json(value: Seq<char>, signature: Seq<u8>) -> Seq<char> {
    "{\"value\":"@ + json_string_text(value) + ",\"signature\":["@ + byte_list(signature)
        + "]}"@
}

/// The byte that a JSON value stands for: a whole number from 0 to 255.
pub open spec fn byte_in(json: Json) -> Option<u8> {
    match json {
        Json::Number(Some(number)) => if number <= 255 {
            Some(number as u8)
        } else {
            None
        },
        _ => None,
    }
}

/// The bytes that a list of JSON values stands for, if each of them stands
/// for a byte.
pub open spec fn bytes_in(items: Seq<Json>) -> Option<Seq<u8>>
    decreases items.len(),
{
    if items.len() == 0 {
        Some(Seq::empty())
    } else {
        match (bytes_in(items.drop_last()), byte_in(items.last())) {
            (Some(bytes), Some(byte)) => Some(bytes.push(byte)),
            _ => None,
        }
    }
}

/// The first member under a key.
pub open spec fn member(members: Seq<(String, Json)>, key: Seq<char>) -> Option<Json>
    decreases members.len(),
{
    if members.len() == 0 {
        None
    } else if members[0].0@ == key {
        Some(members[0].1)
    } else {
        member(members.drop_first(), key)
    }
}

/// The payload that two JSON values make: the first must be a string, the
/// second an array of bytes.
pub open spec fn payload_of_parts(value: Option<Json>, signature: Option<Json>) -> Option<
    (Seq<char>, Seq<u8>),
> {
    match (value, signature) {
        (Some(Json::Text(text)), Some(Json::Array(items))) => match bytes_in(items@) {
            Some(bytes) => Some((text@, bytes)),
            None => None,
        },
        _ => None,
    }
}

/// The payload that a JSON value holds: an object holds it under `value`
/// and `signature`, whatever else it holds; an array holds it as its two
/// items, value first.
pub open spec fn payload_in(json: Json) -> Option<(Seq<char>, Seq<u8>)> {
    match json {
        Json::Object(members) => payload_of_parts(
            member(members@, "value"@),
            member(members@, "signature"@),
        ),
        Json::Array(items) => if items@.len() == 2 {
            payload_of_parts(Some(items@[0]), Some(items@[1]))
        } else {
            None
        },
        _ => None,
    }
}

/// The payload that a JSON text holds.
pub open spec fn json_payload(text: Seq<char>) -> Option<(Seq<char>, Seq<u8>)> {
    match json_of_text(text) {
        Some(json) => payload_in(json),
        None => None,
    }
}

/// What a payload read holds.
pub open spec fn payload_view(payload: Option<(String, Vec<u8>)>) -> Option<
    (Seq<char>, Seq<u8>),
> {
    match payload {
        Some(found) => Some((found.0@, found.1@)),
        None => None,
    }
}

/// Writes a payload as JSON.
pub fn payload_text(value: &str, signature: &[u8]) -> (text: String)
    ensures
        text@ == payload_json(value@, signature@),
{
    let mut text = String::from_str("{\"value\":");
    text.append(write_string(value).as_str());
    text.append(",\"signature\":[");
    let ghost start = text@;
    let mut i: usize = 0;
    while i < signature.len()
        invariant
            i <= signature@.len(),
            text@ == start + byte_list(signature@.take(i as int)),
        decreases signature@.len() - i,
    {
        proof {
            assert(signature@.take(i + 1).drop_last() =~= signature@.take(i as int));
            assert(signature@.take(i + 1).last() == signature@[i as int]);
        }
        if i > 0 {
            text.append(",");
        }
        text.append(decimal_text(signature[i] as usize).as_str());
        proof {
            assert(text@ =~= start + byte_list(signature@.take(i + 1)));
        }
        i += 1;
    }
    proof {
        assert(signature@.take(signature@.len() as int) =~= signature@);
    }
    text.append("]}");
    proof {
        assert(text@ =~= payload_json(value@, signature@));
    }
    text
}

/// The member under a key.
fn member_of<'a>(members: &'a Vec<(String, Json)>, key: &str) -> (found: Option<&'a Json>)
    ensures
        member(members@, key@) == match found {
            Some(json) => Some(*json),
            None => None,
        },
{
    let mut i: usize = 0;
    proof {
        assert(members@.subrange(0, members@.len() as int) =~= members@);
    }
    while i < members.len()
        invariant
            i <= members@.len(),
            member(members@, key@) == member(
                members@.subrange(i as int, members@.len() as int),
                key@,
            ),
        decreases members@.len() - i,
    {
        proof {
            assert(members@.subrange(i as int, members@.len() as int).drop_first()
                =~= members@.subrange(i + 1, members@.len() as int));
        }
        if members[i].0.as_str().eq(key) {
            return Some(&members[i].1);
        }
        i += 1;
    }
    None
}

/// Where a prefix of a list of values stands for no bytes, the list stands
/// for none.
proof fn lemma_bytes_fail(items: Seq<Json>, len: int)
    requires
        0 <= len <= items.len(),
        bytes_in(items.take(len)) is None,
    ensures
        bytes_in(items) is None,
    decreases items.len() - len,
{
    if len < items.len() {
        assert(items.take(len + 1).drop_last() =~= items.take(len));
        lemma_bytes_fail(items, len + 1);
    } else {
        assert(items.take(len) =~= items);
    }
}

/// The bytes that a list of JSON values stands for.
fn bytes_of_items(items: &Vec<Json>) -> (bytes: Option<Vec<u8>>)
    ensures
        bytes_in(items@) == match bytes {
            Some(found) => Some(found@),
            None => None,
        },
{
    let mut bytes: Vec<u8> = Vec::new();
    let mut i: usize = 0;
    while i < items.len()
        invariant
            i <= items@.len(),
            bytes_in(items@.take(i as int)) == Some(bytes@),
        decreases items@.len() - i,
    {
        proof {
            assert(items@.take(i + 1).drop_last() =~= items@.take(i as int));
            assert(items@.take(i + 1).last() == items@[i as int]);
        }
        match &items[i] {
            Json::Number(Some(number)) => {
                if *number <= 255 {
                    bytes.push(*number as u8);
                } else {
                    proof {
                        lemma_bytes_fail(items@, i + 1);
                    }
                    return None;
                }
            },
            _ => {
                proof {
                    lemma_bytes_fail(items@, i + 1);
                }
                return None;
            },
        }
        i += 1;
    }
    proof {
        assert(items@.take(items@.len() as int) =~= items@);
    }
    Some(bytes)
}

/// The payload that two JSON values make.
fn payload_of_values(value: Option<&Json>, signature: Option<&Json>) -> (found: Option<
    (String, Vec<u8>),
>)
    ensures
        payload_view(found) == payload_of_parts(
            match value {
                Some(json) => Some(*json),
                None => None,
            },
            match signature {
                Some(json) => Some(*json),
                None => None,
            },
        ),
{
    match (value, signature) {
        (Some(Json::Text(text)), Some(Json::Array(items))) => match bytes_of_items(items) {
            Some(bytes) => Some((text.clone(), bytes)),
            None => None,
        },
        _ => None,
    }
}

/// Picks the payload out of a JSON value.
pub fn payload_of(json: &Json) -> (found: Option<(String, Vec<u8>)>)
    ensures
        payload_view(found) == payload_in(*json),
{
    match json {
        Json::Object(members) => payload_of_values(
            member_of(members, "value"),
            member_of(members, "signature"),
        ),
        Json::Array(items) => if items.len() == 2 {
            payload_of_values(Some(&items[0]), Some(&items[1]))
        } else {
            None
        },
        _ => None,
    }
}

/// The settings of cookies, and the secret that signs them.
#[derive(Debug)]
pub struct CookieConfig {
    secure: bool,
    http_only: bool,
    same_site: Option<String>,
    domain: Option<String>,
    path: Option<String>,
    expiration: Option<String>,
    secret: SecretText,
}

/// What the settings of cookies hold.
pub struct ConfigView {
    pub secure: bool,
    pub http_only: bool,
    pub same_site: Option<Seq<char>>,
    pub domain: Option<Seq<char>>,
    pub path: Option<Seq<char>>,
    pub expiration: Option<Seq<char>>,
    pub secret: Seq<char>,
}

/// A cookie.
#[derive(Debug)]
pub struct Cookie {
    config: CookieConfig,
    name: String,
    value: String,
}

/// What a cookie holds.
pub struct CookieView {
    pub config: ConfigView,
    pub name: Seq<char>,
    pub value: Seq<char>,
}

/// The value of a cookie and its signature.
#[derive(Debug)]
pub struct CookiePayload {
    value: String,
    signature: Vec<u8>,
}

/// Why cookies could not be read, or were not accepted.
#[derive(PartialEq, Eq, Debug, Clone, Copy, Structural)]
pub enum CookieError {
    /// The signature is not that of the value.
    InvalidSignature,
    /// The header is no `Set-Cookie` header.
    InvalidHeaderName,
}

impl View for CookieConfig {
    type V = ConfigView;

    closed spec fn view(&self) -> ConfigView {
        ConfigView {
            secure: self.secure,
            http_only: self.http_only,
            same_site: optional_text(self.same_site),
            domain: optional_text(self.domain),
            path: optional_text(self.path),
            expiration: optional_text(self.expiration),
            secret: secret_text(self.secret),
        }
    }
}

impl View for Cookie {
    type V = CookieView;

    closed spec fn view(&self) -> CookieView {
        CookieView { config: self.config@, name: self.name@, value: self.value@ }
    }
}

impl View for CookiePayload {
    type V = (Seq<char>, Seq<u8>);

    closed spec fn view(&self) -> (Seq<char>, Seq<u8>) {
        (self.value@, self.signature@)
    }
}

/// A copy of an optional text.
fn copy_text(text: &Option<String>) -> (copy: Option<String>)
    ensures
        optional_text(copy) == optional_text(*text),
{
    match text {
        Some(text) => Some(text.clone()),
        None => None,
    }
}

impl Clone for CookieConfig {
    fn clone(&self) -> (copy: Self)
        ensures
            copy@ == self@,
    {
        CookieConfig {
            secure: self.secure,
            http_only: self.http_only,
            same_site: copy_text(&self.same_site),
            domain: copy_text(&self.domain),
            path: copy_text(&self.path),
            expiration: copy_text(&self.expiration),
            secret: copy_secret(&self.secret),
        }
    }
}

/// The time that a deleted cookie expires at: the start of the epoch.
pub open spec fn long_ago() -> Seq<char> {
    "Thu, 01 Jan 1970 00:00:00 GMT"@
}

/// The signature of a value under a secret.
pub open spec fn signature_of(secret: Seq<char>, value: Seq<char>) -> Seq<u8> {
    hmac_sha256(encode_utf8(secret), encode_utf8(value))
}

impl Cookie {
    /// A cookie with these settings, name and value.
    pub fn new_with_config(config: &CookieConfig, name: &str, value: &str) -> (cookie: Cookie)
        ensures
            cookie@ == (CookieView { config: config@, name: name@, value: value@ }),
    {
        Cookie {
            config: config.clone(),
            name: String::from_str(name),
            value: String::from_str(value),
        }
    }

    /// Makes the cookie one that deletes itself: it has expired long ago.
    pub fn delete(&mut self)
        ensures
            final(self)@ == (CookieView {
                config: ConfigView { expiration: Some(long_ago()), ..old(self)@.config },
                ..old(self)@
            }),
    {
        self.config.expiration = Some(String::from_str("Thu, 01 Jan 1970 00:00:00 GMT"));
    }

    /// Signs the value of the cookie: the value with its signature.
    pub fn sign(&self) -> (payload: CookiePayload)
        ensures
            payload@ == (self@.value, signature_of(self@.config.secret, self@.value)),
    {
        let tag = tag_of(expose(&self.config.secret).as_bytes(), self.value.as_str().as_bytes());
        let signature = match tag {
            Some(bytes) => bytes,
            None => {
                assert(false);
                Vec::new()
            },
        };
        CookiePayload { value: self.value.clone(), signature }
    }

    /// The value.
    pub fn value(&self) -> (value: &str)
        ensures
            value@ == self@.value,
    {
        self.value.as_str()
    }

    /// The name.
    pub fn name(&self) -> (name: &str)
        ensures
            name@ == self@.name,
    {
        self.name.as_str()
    }

    /// The settings.
    pub fn config(&self) -> (config: &CookieConfig)
        ensures
            config@ == self@.config,
    {
        &self.config
    }
}

impl CookiePayload {
    /// A payload of a value and a signature.
    pub fn new(value: String, signature: Vec<u8>) -> (payload: CookiePayload)
        ensures
            payload@ == (value@, signature@),
    {
        CookiePayload { value, signature }
    }

    /// The value.
    pub fn value(&self) -> (value: &str)
        ensures
            value@ == self@.0,
    {
        self.value.as_str()
    }

    /// The signature.
    pub fn signature(&self) -> (signature: &[u8])
        ensures
            signature@ == self@.1,
    {
        self.signature.as_slice()
    }
}

/// What reading the items of a cookie string has given so far: the
/// settings, and the names and encoded values of the cookies, in order.
pub struct Reading {
    pub config: ConfigView,
    pub raw: Seq<(Seq<char>, Seq<char>)>,
}

/// The second part of an item, if `=` parts it: what stands between the
/// first `=` and the next.
pub open spec fn item_value(item: Seq<char>) -> Option<Seq<char>> {
    match after(item, "="@) {
        Some(rest) => Some(before(rest, "="@)),
        None => None,
    }
}

/// The encoded value of a cookie item: its second part, if `=` parts the
/// item in exactly two, and else nothing.
pub open spec fn raw_value(item: Seq<char>) -> Seq<char> {
    match after(item, "="@) {
        Some(rest) => if after(rest, "="@) is None {
            rest
        } else {
            Seq::empty()
        },
        None => Seq::empty(),
    }
}

/// A setting after an item that may give it a new value.
pub open spec fn reset(setting: Option<Seq<char>>, item: Seq<char>) -> Option<Seq<char>> {
    match item_value(item) {
        Some(value) => Some(value),
        None => setting,
    }
}

/// The reading after one item: an attribute changes the settings, any
/// other item is a cookie.
pub open spec fn with_item(reading: Reading, item: Seq<char>) -> Reading {
    let name = before(item, "="@);
    let config = reading.config;
    if name == "Secure"@ {
        Reading { config: ConfigView { secure: true, ..config }, raw: reading.raw }
    } else if name == "HttpOnly"@ {
        Reading { config: ConfigView { http_only: true, ..config }, raw: reading.raw }
    } else if name == "SameSite"@ {
        Reading {
            config: ConfigView { same_site: reset(config.same_site, item), ..config },
            raw: reading.raw,
        }
    } else if name == "Domain"@ {
        Reading {
            config: ConfigView { domain: reset(config.domain, item), ..config },
            raw: reading.raw,
        }
    } else if name == "Path"@ {
        Reading { config: ConfigView { path: reset(config.path, item), ..config }, raw: reading.raw }
    } else if name == "Expires"@ {
        Reading {
            config: ConfigView { expiration: reset(config.expiration, item), ..config },
            raw: reading.raw,
        }
    } else {
        Reading { config, raw: reading.raw.push((name, raw_value(item))) }
    }
}

/// The reading after a list of items.
pub open spec fn with_items(reading: Reading, items: Seq<Seq<char>>) -> Reading
    decreases items.len(),
{
    if items.len() == 0 {
        reading
    } else {
        with_item(with_items(reading, items.drop_last()), items.last())
    }
}

/// The value that an encoded cookie value carries, if it is genuine: the
/// text is base64 of UTF-8 of the JSON of a payload whose signature is
/// that of its value under the secret.
pub open spec fn genuine_value(secret: Seq<char>, encoded: Seq<char>) -> Option<Seq<char>> {
    match base64_bytes(encoded) {
        None => None,
        Some(bytes) => if !valid_utf8(bytes) {
            None
        } else {
            match json_payload(decode_utf8(bytes)) {
                None => None,
                Some(payload) => if payload.1 == signature_of(secret, payload.0) {
                    Some(payload.0)
                } else {
                    None
                },
            }
        },
    }
}

/// The cookies after one more name and encoded value: a genuine value
/// makes a cookie with the settings read, in place of an earlier cookie of
/// that name; any other value is passed over.
pub open spec fn with_raw(
    cookies: Map<Seq<char>, CookieView>,
    config: ConfigView,
    raw: (Seq<char>, Seq<char>),
) -> Map<Seq<char>, CookieView> {
    match genuine_value(config.secret, raw.1) {
        Some(value) => cookies.insert(raw.0, CookieView { config, name: raw.0, value }),
        None => cookies,
    }
}

/// The cookies that a list of names and encoded values makes.
pub open spec fn with_raws(config: ConfigView, raws: Seq<(Seq<char>, Seq<char>)>) -> Map<
    Seq<char>,
    CookieView,
>
    decreases raws.len(),
{
    if raws.len() == 0 {
        Map::empty()
    } else {
        with_raw(with_raws(config, raws.drop_last()), config, raws.last())
    }
}

/// The cookies that a cookie string holds for settings: its items stand
/// between `; `.
pub open spec fn cookies_of(config: ConfigView, value: Seq<char>) -> Map<Seq<char>, CookieView> {
    with_raws(
        with_items(Reading { config, raw: Seq::empty() }, pieces(value, "; "@)).config,
        with_items(Reading { config, raw: Seq::empty() }, pieces(value, "; "@)).raw,
    )
}

/// The names and encoded values of a list of pairs of strings.
pub open spec fn raw_views(raws: Seq<(String, String)>) -> Seq<(Seq<char>, Seq<char>)> {
    Seq::new(raws.len(), |i: int| (raws[i].0@, raws[i].1@))
}

/// The value of a `Set-Cookie` header: the name and the encoded value,
/// then the settings that are set, each after `; `.
pub open spec fn cookie_text(name: Seq<char>, encoded: Seq<char>, config: ConfigView) -> Seq<
    char,
> {
    name + "="@ + encoded + (if config.secure {
        "; Secure"@
    } else {
        Seq::empty()
    }) + (if config.http_only {
        "; HttpOnly"@
    } else {
        Seq::empty()
    }) + (match config.same_site {
        Some(text) => "; SameSite="@ + text,
        None => Seq::empty(),
    }) + (match config.domain {
        Some(text) => "; Domain="@ + text,
        None => Seq::empty(),
    }) + (match config.path {
        Some(text) => "; Path="@ + text,
        None => Seq::empty(),
    }) + (match config.expiration {
        Some(text) => "; Expires="@ + text,
        None => Seq::empty(),
    })
}

/// The encoded value of a cookie: base64 of the JSON of its signed
/// payload, where the base64 text is of a length that fits.
pub open spec fn encoded_value(cookie: CookieView) -> Option<Seq<char>> {
    if encoded_size(
        encode_utf8(
            payload_json(cookie.value, signature_of(cookie.config.secret, cookie.value)),
        ).len(),
    ) <= usize::MAX {
        Some(
            base64_text(
                encode_utf8(
                    payload_json(cookie.value, signature_of(cookie.config.secret, cookie.value)),
                ),
            ),
        )
    } else {
        None
    }
}

/// The header that sets a cookie.
pub open spec fn cookie_header(cookie: CookieView) -> Option<(Seq<char>, Seq<char>)> {
    match encoded_value(cookie) {
        Some(encoded) => Some(
            (lowercase("Set-Cookie"@), cookie_text(cookie.name, encoded, cookie.config)),
        ),
        None => None,
    }
}

/// Adds a label to a text if a flag is set.
fn append_flag(text: &mut String, flag: bool, label: &str)
    ensures
        final(text)@ == old(text)@ + (if flag {
            label@
        } else {
            Seq::empty()
        }),
{
    if flag {
        text.append(label);
    } else {
        assert(text@ + Seq::<char>::empty() =~= text@);
    }
}

/// Adds a label and the value of a setting to a text if the setting is set.
fn append_setting(text: &mut String, label: &str, setting: &Option<String>)
    ensures
        final(text)@ == old(text)@ + (match optional_text(*setting) {
            Some(value) => label@ + value,
            None => Seq::empty(),
        }),
{
    match setting {
        Some(value) => {
            text.append(label);
            text.append(value.as_str());
            assert(text@ =~= old(text)@ + (label@ + value@));
        },
        None => {
            assert(text@ + Seq::<char>::empty() =~= text@);
        },
    }
}

impl Cookie {
    /// The header that sets the cookie, with its value signed. There is
    /// none where the base64 text of the payload is of a length that does
    /// not fit.
    pub fn into_header(&self) -> (header: Option<Header>)
        ensures
            cookie_header(self@) == match header {
                Some(header) => Some(header@),
                None => None,
            },
    {
        let payload = self.sign();
        let json = payload_text(payload.value.as_str(), payload.signature.as_slice());
        let encoded = match try_base64_encode(slice_to_vec(json.as_str().as_bytes())) {
            Some(encoded) => encoded,
            None => {
                return None;
            },
        };
        let mut text = self.name.clone();
        text.append("=");
        text.append(encoded.as_str());
        append_flag(&mut text, self.config.secure, "; Secure");
        append_flag(&mut text, self.config.http_only, "; HttpOnly");
        append_setting(&mut text, "; SameSite=", &self.config.same_site);
        append_setting(&mut text, "; Domain=", &self.config.domain);
        append_setting(&mut text, "; Path=", &self.config.path);
        append_setting(&mut text, "; Expires=", &self.config.expiration);
        Some(Header::new("Set-Cookie", text.as_str()))
    }
}

impl CookieConfig {
    /// The usual settings, with a new random secret: cookies are secure,
    /// for HTTP only, of the same site strictly, and for every path.
    pub fn default() -> (config: CookieConfig)
        ensures
            config@.secure,
            config@.http_only,
            config@.same_site == Some("Strict"@),
            config@.domain is None,
            config@.path == Some("/"@),
            config@.expiration is None,
            config@.secret.len() == 30,
            forall|i: int| 0 <= i < 30 ==> is_alphanumeric(#[trigger] config@.secret[i]),
    {
        CookieConfig {
            secure: true,
            http_only: true,
            same_site: Some(String::from_str("Strict")),
            domain: None,
            path: Some(String::from_str("/")),
            expiration: None,
            secret: generate_random_secret(),
        }
    }

    /// The usual settings, with a given secret.
    pub fn with_secret(secret: String) -> (config: CookieConfig)
        ensures
            config@ == (ConfigView {
                secure: true,
                http_only: true,
                same_site: Some("Strict"@),
                domain: None,
                path: Some("/"@),
                expiration: None,
                secret: secret@,
            }),
    {
        CookieConfig {
            secure: true,
            http_only: true,
            same_site: Some(String::from_str("Strict")),
            domain: None,
            path: Some(String::from_str("/")),
            expiration: None,
            secret: secret_of(secret),
        }
    }

    /// A cookie with these settings.
    pub fn new_cookie(&self, name: &str, value: &str) -> (cookie: Cookie)
        ensures
            cookie@ == (CookieView { config: self@, name: name@, value: value@ }),
    {
        Cookie::new_with_config(self, name, value)
    }

    /// A cookie that deletes the cookie of this name: it has no value and
    /// has expired long ago.
    pub fn delete_cookie(&self, name: &str) -> (cookie: Cookie)
        ensures
            cookie@ == (CookieView {
                config: ConfigView { expiration: Some(long_ago()), ..self@ },
                name: name@,
                value: Seq::empty(),
            }),
    {
        let mut config = self.clone();
        config.expiration = Some(String::from_str("Thu, 01 Jan 1970 00:00:00 GMT"));
        let cookie = config.new_cookie(name, "");
        proof {
            reveal_strlit("");
            assert(""@ =~= Seq::<char>::empty());
        }
        cookie
    }

    /// Whether the signature of a payload is that of its value under the
    /// secret of these settings.
    pub fn is_valid_signature(&self, payload: &CookiePayload) -> (result: Result<(), CookieError>)
        ensures
            result is Ok <==> payload@.1 == signature_of(self@.secret, payload@.0),
            result is Err ==> result == Err::<(), CookieError>(CookieError::InvalidSignature),
    {
        match tag_matches(
            expose(&self.secret).as_bytes(),
            payload.value.as_str().as_bytes(),
            payload.signature.as_slice(),
        ) {
            Some(true) => Ok(()),
            _ => Err(CookieError::InvalidSignature),
        }
    }

    /// The value that an encoded cookie value carries, if it is genuine.
    pub fn genuine(&self, encoded: String) -> (value: Option<String>)
        ensures
            optional_text(value) == genuine_value(self@.secret, encoded@),
    {
        let bytes = match base64_decode(encoded) {
            Ok(bytes) => bytes,
            Err(_) => {
                return None;
            },
        };
        let json = match text_of_utf8(bytes) {
            Some(json) => json,
            None => {
                return None;
            },
        };
        let read = match read_json(json.as_str()) {
            Some(read) => read,
            None => {
                return None;
            },
        };
        match payload_of(&read) {
            None => None,
            Some(found) => {
                let payload = CookiePayload { value: found.0, signature: found.1 };
                if self.is_valid_signature(&payload).is_ok() {
                    Some(payload.value)
                } else {
                    None
                }
            },
        }
    }

    /// Reads the cookies of a cookie string: attributes change the
    /// settings that the cookies get, and every other item is a cookie,
    /// which is kept if its value is genuine.
    pub fn cookies_from_str(&self, value: &str) -> (result: Result<TextMap<Cookie>, CookieError>)
        ensures
            result matches Ok(cookies) && cookies@ == cookies_of(self@, value@),
    {
        let chars = chars_of(value);
        let separator = chars_of("; ");
        let equals = chars_of("=");
        proof {
            reveal_strlit("; ");
        }
        let items = split_chars(chars.as_slice(), separator.as_slice());
        let ghost start = Reading { config: self@, raw: Seq::empty() };
        let mut config = self.clone();
        let mut raw: Vec<(String, String)> = Vec::new();
        proof {
            assert(raw_views(raw@) =~= Seq::empty());
        }
        let mut i: usize = 0;
        while i < items.len()
            invariant
                i <= items@.len(),
                equals@ == "="@,
                config@.secret == self@.secret,
                (Reading { config: config@, raw: raw_views(raw@) }) == with_items(
                    start,
                    views(items@).take(i as int),
                ),
            decreases items@.len() - i,
        {
            proof {
                assert(views(items@).take(i + 1).drop_last() =~= views(items@).take(i as int));
                assert(views(items@).take(i + 1).last() == items@[i as int]@);
            }
            let cut = cut_chars(items[i], equals.as_slice());
            let name = text_of(cut.0);
            let second = match cut.1 {
                Some(rest) => Some(text_of(cut_chars(rest, equals.as_slice()).0)),
                None => None,
            };
            if name.as_str().eq("Secure") {
                config.secure = true;
            } else if name.as_str().eq("HttpOnly") {
                config.http_only = true;
            } else if name.as_str().eq("SameSite") {
                if second.is_some() {
                    config.same_site = second;
                }
            } else if name.as_str().eq("Domain") {
                if second.is_some() {
                    config.domain = second;
                }
            } else if name.as_str().eq("Path") {
                if second.is_some() {
                    config.path = second;
                }
            } else if name.as_str().eq("Expires") {
                if second.is_some() {
                    config.expiration = second;
                }
            } else {
                let encoded = match cut.1 {
                    Some(rest) => if cut_chars(rest, equals.as_slice()).1.is_none() {
                        text_of(rest)
                    } else {
                        String::new()
                    },
                    None => String::new(),
                };
                let ghost before_raw = raw@;
                raw.push((name, encoded));
                proof {
                    assert(raw_views(raw@) =~= raw_views(before_raw).push((name@, encoded@)));
                }
            }
            i += 1;
        }
        proof {
            assert(views(items@).take(items@.len() as int) =~= views(items@));
        }
        let mut cookies: TextMap<Cookie> = TextMap::new();
        let mut j: usize = 0;
        while j < raw.len()
            invariant
                j <= raw@.len(),
                config@.secret == self@.secret,
                cookies@ == with_raws(config@, raw_views(raw@).take(j as int)),
            decreases raw@.len() - j,
        {
            proof {
                assert(raw_views(raw@).take(j + 1).drop_last() =~= raw_views(raw@).take(j as int));
                assert(raw_views(raw@).take(j + 1).last() == (raw@[j as int].0@, raw@[j as int].1@));
            }
            match self.genuine(raw[j].1.clone()) {
                Some(value) => {
                    let cookie = config.new_cookie(raw[j].0.as_str(), value.as_str());
                    cookies = cookies.insert(raw[j].0.clone(), cookie);
                },
                None => {},
            }
            j += 1;
        }
        proof {
            assert(raw_views(raw@).take(raw@.len() as int) =~= raw_views(raw@));
        }
        Ok(cookies)
    }

    /// Reads the cookies of a `Set-Cookie` header.
    pub fn cookies_from_header(&self, header: Header) -> (result: Result<
        TextMap<Cookie>,
        CookieError,
    >)
        ensures
            match result {
                Ok(cookies) => header.key@ == "set-cookie"@ && cookies@ == cookies_of(
                    self@,
                    header.value@,
                ),
                Err(error) => header.key@ != "set-cookie"@ && error
                    == CookieError::InvalidHeaderName,
            },
    {
        if header.key.as_str().eq("set-cookie") {
            self.cookies_from_str(header.value.as_str())
        } else {
            Err(CookieError::InvalidHeaderName)
        }
    }
}

impl PartialEq for CookieConfig {
    fn eq(&self, other: &Self) -> (same: bool) {
        self.secure == other.secure && self.http_only == other.http_only && same_text(
            &self.same_site,
            &other.same_site,
        ) && same_text(&self.domain, &other.domain) && same_text(&self.path, &other.path)
            && same_text(&self.expiration, &other.expiration) && expose(&self.secret).eq(
            expose(&other.secret),
        )
    }
}

impl PartialEqSpecImpl for CookieConfig {
    open spec fn obeys_eq_spec() -> bool {
        true
    }

    open spec fn eq_spec(&self, other: &Self) -> bool {
        self@ == other@
    }
}

impl Eq for CookieConfig {

}

impl PartialEq for Cookie {
    fn eq(&self, other: &Self) -> (same: bool) {
        self.config == other.config && self.name.as_str().eq(other.name.as_str())
            && self.value.as_str().eq(other.value.as_str())
    }
}

impl PartialEqSpecImpl for Cookie {
    open spec fn obeys_eq_spec() -> bool {
        true
    }

    open spec fn eq_spec(&self, other: &Self) -> bool {
        self@ == other@
    }
}

impl Eq for Cookie {

}

impl CookieConfig {
    /// Whether cookies are for secure connections only.
    pub fn secure(&self) -> (secure: bool)
        ensures
            secure == self@.secure,
    {
        self.secure
    }

    /// Sets whether cookies are for secure connections only.
    pub fn set_secure(&mut self, secure: bool)
        ensures
            final(self)@ == (ConfigView { secure, ..old(self)@ }),
    {
        self.secure = secure;
    }

    /// Whether cookies are kept from scripts.
    pub fn http_only(&self) -> (http_only: bool)
        ensures
            http_only == self@.http_only,
    {
        self.http_only
    }

    /// Sets whether cookies are kept from scripts.
    pub fn set_http_only(&mut self, http_only: bool)
        ensures
            final(self)@ == (ConfigView { http_only, ..old(self)@ }),
    {
        self.http_only = http_only;
    }

    /// The same-site policy.
    pub fn same_site(&self) -> (same_site: Option<&String>)
        ensures
            self@.same_site == match same_site {
                Some(text) => Some(text@),
                None => None,
            },
    {
        self.same_site.as_ref()
    }

    /// Sets the same-site policy.
    pub fn set_same_site(&mut self, same_site: Option<String>)
        ensures
            final(self)@ == (ConfigView { same_site: optional_text(same_site), ..old(self)@ }),
    {
        self.same_site = same_site;
    }

    /// The domain.
    pub fn domain(&self) -> (domain: Option<&String>)
        ensures
            self@.domain == match domain {
                Some(text) => Some(text@),
                None => None,
            },
    {
        self.domain.as_ref()
    }

    /// Sets the domain.
    pub fn set_domain(&mut self, domain: Option<String>)
        ensures
            final(self)@ == (ConfigView { domain: optional_text(domain), ..old(self)@ }),
    {
        self.domain = domain;
    }

    /// Sets the path.
    pub fn set_path(&mut self, path: Option<String>)
        ensures
            final(self)@ == (ConfigView { path: optional_text(path), ..old(self)@ }),
    {
        self.path = path;
    }

    /// The path.
    pub fn path(&self) -> (path: Option<&String>)
        ensures
            self@.path == match path {
                Some(text) => Some(text@),
                None => None,
            },
    {
        self.path.as_ref()
    }

    /// The time at which cookies expire.
    pub fn expiration(&self) -> (expiration: Option<&String>)
        ensures
            self@.expiration == match expiration {
                Some(text) => Some(text@),
                None => None,
            },
    {
        self.expiration.as_ref()
    }

    /// Sets the time at which cookies expire.
    pub fn set_expiration(&mut self, expiration: Option<String>)
        ensures
            final(self)@ == (ConfigView { expiration: optional_text(expiration), ..old(self)@ }),
    {
        self.expiration = expiration;
    }
}

impl Response {
    /// Adds the header that sets a cookie after the headers that the
    /// response has, and says whether it did: where the cookie has no
    /// header, the response stays as it is.
    pub fn add_cookie(&mut self, cookie: &Cookie) -> (added: bool)
        ensures
            added == cookie_header(cookie@) is Some,
            final(self)@ == match cookie_header(cookie@) {
                Some(header) => ResponseView {
                    headers: old(self)@.headers.push(header),
                    ..old(self)@
                },
                None => old(self)@,
            },
    {
        match cookie.into_header() {
            Some(header) => {
                self.add_header(header);
                true
            },
            None => false,
        }
    }
}

} // verus!
