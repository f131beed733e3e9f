//! Text: conversions between bytes, characters, strings and numbers.

use vstd::prelude::*;
use vstd::string::is_ascii_spec_bytes;
use vstd::utf8::{decode_utf8, encode_utf8, is_ascii_chars, valid_utf8};

verus! {

/// The text that `String::from_utf8_lossy` makes of a byte sequence: the
/// decoded text where the bytes are valid UTF-8, and otherwise the text in
/// which a replacement character stands for each invalid sequence.
pub uninterp spec fn lossy_text(bytes: Seq<u8>) -> Seq<char>;

/// The text that `str::to_lowercase` makes of a text: its lower-case
/// equivalent as Unicode defines it.
pub uninterp spec fn lowercase(text: Seq<char>) -> Seq<char>;

/// `str`'s `==` compares the two texts character by character.
pub assume_specification[ <str as PartialEq>::eq ](left: &str, right: &str) -> (same: bool)
    ensures
        same == (left@ == right@),
;

/// Calls `String::from_utf8_lossy`. The result is named by `lossy_text`; for
/// valid UTF-8 it is the decoded text.
#[verifier::external_body]
pub(crate) fn text_from_bytes(bytes: &[u8]) -> (text: String)
    ensures
        text@ == lossy_text(bytes@),
        valid_utf8(bytes@) ==> text@ == decode_utf8(bytes@),
{
    String::from_utf8_lossy(bytes).into_owned()
}

/// Calls `String::from_utf8`, which gives the text that the bytes encode
/// where they are valid UTF-8, and fails where they are not.
#[verifier::external_body]
pub(crate) fn text_of_utf8(bytes: Vec<u8>) -> (text: Option<String>)
    ensures
        text is Some == valid_utf8(bytes@),
        text matches Some(decoded) ==> decoded@ == decode_utf8(bytes@),
{
    String::from_utf8(bytes).ok()
}

/// The lower-case form of an ASCII character: a capital letter gives its
/// small letter, any other character itself.
pub open spec fn ascii_lower(c: char) -> char {
    if 'A' <= c <= 'Z' {
        ((c as u8) + 32) as char
    } else {
        c
    }
}

/// The lower-case form of a text of ASCII characters.
pub open spec fn ascii_lowercase(text: Seq<char>) -> Seq<char> {
    Seq::new(text.len(), |i: int| ascii_lower(text[i]))
}

/// Calls `str::to_lowercase`. The result is named by `lowercase`; of a text
/// of ASCII characters it is the text with each capital letter made small.
#[verifier::external_body]
pub(crate) fn lowercase_of(text: &str) -> (lower: String)
    ensures
        lower@ == lowercase(text@),
        is_ascii_chars(text@) ==> lower@ == ascii_lowercase(text@),
{
    text.to_lowercase()
}

/// Collects characters into a `String` with `String::from_iter`: the string
/// holds exactly these characters, in order.
#[verifier::external_body]
pub(crate) fn text_of(chars: &[char]) -> (text: String)
    ensures
        text@ == chars@,
{
    String::from_iter(chars.iter())
}

/// The bytes of a text of ASCII characters: one byte for each character.
pub fn ascii_bytes<'a>(text: &'a str) -> (bytes: &'a [u8])
    requires
        is_ascii_chars(text@),
    ensures
        bytes@ == encode_utf8(text@),
        bytes@.len() == text@.len(),
{
    proof {
        is_ascii_spec_bytes(text);
    }
    text.as_bytes()
}

/// The byte of a text of one ASCII character.
pub fn ascii_byte(text: &str) -> (byte: u8)
    requires
        text@.len() == 1,
        is_ascii_chars(text@),
    ensures
        seq![byte] == encode_utf8(text@),
{
    let bytes = ascii_bytes(text);
    assert(bytes@ =~= seq![bytes@[0]]);
    bytes[0]
}

/// Whether two byte strings are equal.
pub fn same_bytes(left: &[u8], right: &[u8]) -> (same: bool)
    ensures
        same == (left@ == right@),
{
    if left.len() != right.len() {
        return false;
    }
    let mut i: usize = 0;
    while i < left.len()
        invariant
            left@.len() == right@.len(),
            i <= left@.len(),
            forall|j: int| 0 <= j < i ==> left@[j] == right@[j],
        decreases left@.len() - i,
    {
        if left[i] != right[i] {
            return false;
        }
        i += 1;
    }
    assert(left@ =~= right@);
    true
}

/// The characters of a text.
pub fn chars_of(text: &str) -> (chars: Vec<char>)
    ensures
        chars@ == text@,
{
    let mut chars: Vec<char> = Vec::new();
    for c in it: text.chars()
        invariant
            chars@ == it.seq().take(it.index() as int),
            it.seq() == text@,
    {
        chars.push(c);
    }
    chars
}

/// The character that stands for the digit `d`.
pub open spec fn digit_char(d: nat) -> char
    recommends
        d < 10,
{
    (48 + d) as char
}

/// The decimal numeral of `n`, without leading zeros.
pub open spec fn decimal(n: nat) -> Seq<char>
    decreases n,
{
    if n < 10 {
        seq![digit_char(n)]
    } else {
        decimal(n / 10).push(digit_char(n % 10))
    }
}

/// Formats `n` as a decimal numeral.
pub fn decimal_text(n: usize) -> (text: String)
    ensures
        text@ == decimal(n as nat),
{
    let mut reversed: Vec<char> = Vec::new();
    let mut rest: usize = n;
    while rest >= 10
        invariant
            decimal(n as nat) == decimal(rest as nat) + reversed@.reverse(),
        decreases rest,
    {
        let d: u8 = (rest % 10) as u8;
        let ghost before = reversed@;
        reversed.push((48u8 + d) as char);
        proof {
            assert(reversed@.reverse() =~= seq![digit_char((rest % 10) as nat)] + before.reverse());
            assert(decimal(rest as nat) == decimal((rest / 10) as nat).push(
                digit_char((rest % 10) as nat),
            ));
            assert(decimal(rest as nat) + before.reverse() =~= decimal((rest / 10) as nat)
                + reversed@.reverse());
        }
        rest = rest / 10;
    }
    let ghost before = reversed@;
    reversed.push((48u8 + (rest as u8)) as char);
    proof {
        assert(reversed@.reverse() =~= seq![digit_char(rest as nat)] + before.reverse());
    }
    let mut chars: Vec<char> = Vec::new();
    let mut i: usize = reversed.len();
    while i > 0
        invariant
            i <= reversed@.len(),
            chars@ == reversed@.reverse().take(reversed@.len() - i),
        decreases i,
    {
        i -= 1;
        let ghost prior = chars@;
        chars.push(reversed[i]);
        proof {
            assert(chars@ =~= reversed@.reverse().take(reversed@.len() - i));
        }
    }
    proof {
        assert(chars@ =~= reversed@.reverse());
    }
    text_of(chars.as_slice())
}

/// The value of a decimal digit.
pub open spec fn digit_value(c: char) -> Option<nat> {
    if '0' <= c <= '9' {
        Some((c as nat - 48) as nat)
    } else {
        None
    }
}

/// The value of a non-empty run of decimal digits.
pub open spec fn digits_value(digits: Seq<char>) -> Option<nat>
    decreases digits.len(),
{
    if digits.len() == 0 {
        None
    } else if digits.len() == 1 {
        digit_value(digits[0])
    } else {
        match (digits_value(digits.drop_last()), digit_value(digits.last())) {
            (Some(high), Some(low)) => Some(high * 10 + low),
            _ => None,
        }
    }
}

/// The number that a text denotes: decimal digits, which one `+` may precede.
pub open spec fn number(text: Seq<char>) -> Option<nat> {
    if text.len() > 0 && text[0] == '+' {
        digits_value(text.subrange(1, text.len() as int))
    } else {
        digits_value(text)
    }
}

/// Reads a number that fits in `usize`: `None` where the text denotes no
/// number or one that is too large.
pub fn parse_usize(text: &[char]) -> (value: Option<usize>)
    ensures
        value == match number(text@) {
            Some(n) => if n <= usize::MAX {
                Some(n as usize)
            } else {
                None
            },
            None => None,
        },
{
    let start: usize = if text.len() > 0 && text[0] == '+' {
        1
    } else {
        0
    };
    let ghost digits = text@.subrange(start as int, text@.len() as int);
    proof {
        assert(text@.subrange(0, text@.len() as int) =~= text@);
        assert(number(text@) == digits_value(digits));
    }
    if start == text.len() {
        return None;
    }
    let mut total: usize = 0;
    let mut i: usize = start;
    while i < text.len()
        invariant
            start <= i <= text@.len(),
            start < text@.len(),
            digits == text@.subrange(start as int, text@.len() as int),
            number(text@) == digits_value(digits),
            i > start ==> digits_value(digits.take(i - start)) == Some(total as nat),
            i == start ==> total == 0,
        decreases text@.len() - i,
    {
        let c = text[i];
        let ghost seen = digits.take(i - start);
        let ghost next = digits.take(i + 1 - start);
        proof {
            assert(next.drop_last() =~= seen);
            assert(next.last() == c);
        }
        proof {
            assert(next.len() == i + 1 - start);
            assert(i > start ==> digits_value(next) == match digit_value(c) {
                Some(low) => Some(total as nat * 10 + low),
                None => None,
            });
            assert(i == start ==> digits_value(next) == digit_value(c));
        }
        if !('0' <= c && c <= '9') {
            proof {
                lemma_digits_prefix(digits, i + 1 - start);
            }
            return None;
        }
        let d: usize = (c as u32 - 48) as usize;
        let grown = match total.checked_mul(10) {
            Some(tens) => tens.checked_add(d),
            None => None,
        };
        match grown {
            Some(g) => {
                total = g;
            },
            None => {
                proof {
                    assert(digits_value(next) == Some((total * 10 + d) as nat));
                    lemma_digits_grow(digits, i + 1 - start);
                    if digits_value(digits) is None {
                    } else {
                        assert(digits_value(digits).unwrap() >= total * 10 + d);
                    }
                }
                return None;
            },
        }
        i += 1;
    }
    proof {
        assert(digits.take(digits.len() as int) =~= digits);
    }
    Some(total)
}

/// Where a prefix of a run of characters is no number, the run is none.
pub proof fn lemma_digits_prefix(digits: Seq<char>, len: int)
    requires
        0 < len <= digits.len(),
        digits_value(digits.take(len)) is None,
    ensures
        digits_value(digits) is None,
    decreases digits.len() - len,
{
    if len < digits.len() {
        let longer = digits.take(len + 1);
        assert(longer.drop_last() =~= digits.take(len));
        assert(digits_value(longer) is None);
        lemma_digits_prefix(digits, len + 1);
    } else {
        assert(digits.take(len) =~= digits);
    }
}

/// The value of a run of digits is at least that of each of its prefixes.
pub proof fn lemma_digits_grow(digits: Seq<char>, len: int)
    requires
        0 < len <= digits.len(),
    ensures
        digits_value(digits) matches Some(whole) ==> (digits_value(digits.take(len)) matches Some(
            part,
        ) && part <= whole),
    decreases digits.len() - len,
{
    if len < digits.len() {
        let longer = digits.take(len + 1);
        assert(longer.drop_last() =~= digits.take(len));
        assert(longer.len() == len + 1);
        lemma_digits_grow(digits, len + 1);
    } else {
        assert(digits.take(len) =~= digits);
    }
}

} // verus!
