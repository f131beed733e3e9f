//! Searching and splitting sequences of bytes and of characters.
//!
//! The specifications are generic over the element type; the executable
//! functions come in one flavour for bytes, built on `memchr`, and one for
//! characters.

use vstd::prelude::*;

verus! {

/// `pattern` occurs in `text` starting at index `at`.
pub open spec fn occurs_at<T>(text: Seq<T>, pattern: Seq<T>, at: int) -> bool {
    &&& 0 <= at
    &&& at + pattern.len() <= text.len()
    &&& text.subrange(at, at + pattern.len()) == pattern
}

/// `at` is the leftmost index at which `pattern` occurs in `text`.
pub open spec fn is_first_occurrence<T>(text: Seq<T>, pattern: Seq<T>, at: int) -> bool {
    &&& occurs_at(text, pattern, at)
    &&& forall|j: int| 0 <= j < at ==> !occurs_at(text, pattern, j)
}

/// `pattern` occurs nowhere in `text`.
pub open spec fn absent<T>(text: Seq<T>, pattern: Seq<T>) -> bool {
    forall|j: int| !occurs_at(text, pattern, j)
}

/// The leftmost index at which `pattern` occurs in `text`, if it occurs.
pub open spec fn index_of<T>(text: Seq<T>, pattern: Seq<T>) -> Option<int> {
    if exists|at: int| is_first_occurrence(text, pattern, at) {
        Some(choose|at: int| is_first_occurrence(text, pattern, at))
    } else {
        None
    }
}

/// `text` contains `pattern` somewhere.
pub open spec fn contains<T>(text: Seq<T>, pattern: Seq<T>) -> bool {
    index_of(text, pattern) is Some
}

/// The parts of `text` between the leftmost, non-overlapping occurrences of
/// `pattern`. There is always at least one part; with an empty pattern the
/// text is its own single part.
pub open spec fn pieces<T>(text: Seq<T>, pattern: Seq<T>) -> Seq<Seq<T>>
    decreases text.len(),
{
    match index_of(text, pattern) {
        Some(at) => if pattern.len() > 0 && 0 <= at && at + pattern.len() <= text.len() {
            seq![text.subrange(0, at)] + pieces(
                text.subrange(at + pattern.len(), text.len() as int),
                pattern,
            )
        } else {
            seq![text]
        },
        None => seq![text],
    }
}

/// The part of `text` before the first occurrence of `pattern`; the whole
/// text if `pattern` does not occur.
pub open spec fn before<T>(text: Seq<T>, pattern: Seq<T>) -> Seq<T> {
    match index_of(text, pattern) {
        Some(at) => text.subrange(0, at),
        None => text,
    }
}

/// The part of `text` after the first occurrence of `pattern`, if it occurs.
pub open spec fn after<T>(text: Seq<T>, pattern: Seq<T>) -> Option<Seq<T>> {
    match index_of(text, pattern) {
        Some(at) => Some(text.subrange(at + pattern.len(), text.len() as int)),
        None => None,
    }
}

/// A first occurrence is the value of `index_of`.
pub proof fn lemma_first_occurrence_is_index<T>(text: Seq<T>, pattern: Seq<T>, at: int)
    requires
        is_first_occurrence(text, pattern, at),
    ensures
        index_of(text, pattern) == Some(at),
{
    let chosen = choose|k: int| is_first_occurrence(text, pattern, k);
    assert(is_first_occurrence(text, pattern, chosen));
    if chosen < at {
        assert(!occurs_at(text, pattern, chosen));
    }
    if at < chosen {
        assert(!occurs_at(text, pattern, at));
    }
}

/// Where the pattern is absent, `index_of` is `None`.
pub proof fn lemma_absent_has_no_index<T>(text: Seq<T>, pattern: Seq<T>)
    requires
        absent(text, pattern),
    ensures
        index_of(text, pattern) is None,
{
    if exists|at: int| is_first_occurrence(text, pattern, at) {
        let at = choose|at: int| is_first_occurrence(text, pattern, at);
        assert(occurs_at(text, pattern, at));
    }
}

/// Where the pattern occurs at all, it has a first occurrence.
pub proof fn lemma_occurrence_has_index<T>(text: Seq<T>, pattern: Seq<T>, at: int)
    requires
        occurs_at(text, pattern, at),
    ensures
        index_of(text, pattern) is Some,
    decreases at,
{
    if exists|j: int| 0 <= j < at && occurs_at(text, pattern, j) {
        let j = choose|j: int| 0 <= j < at && occurs_at(text, pattern, j);
        lemma_occurrence_has_index(text, pattern, j);
    } else {
        assert(is_first_occurrence(text, pattern, at));
        lemma_first_occurrence_is_index(text, pattern, at);
    }
}

/// A text has at least one piece, and at least two where the pattern, not
/// empty, occurs in it.
pub proof fn lemma_pieces_len<T>(text: Seq<T>, pattern: Seq<T>)
    ensures
        pieces(text, pattern).len() >= 1,
        pattern.len() > 0 && index_of(text, pattern) is Some ==> pieces(text, pattern).len() >= 2,
    decreases text.len(),
{
    match index_of(text, pattern) {
        Some(at) => {
            if pattern.len() > 0 && 0 <= at && at + pattern.len() <= text.len() {
                lemma_pieces_len(text.subrange(at + pattern.len(), text.len() as int), pattern);
            }
        },
        None => {},
    }
}

/// What `index_of` says of its result.
pub proof fn lemma_index_of<T>(text: Seq<T>, pattern: Seq<T>)
    ensures
        match index_of(text, pattern) {
            Some(at) => is_first_occurrence(text, pattern, at),
            None => true,
        },
{
}

/// An occurrence in a prefix of the text is an occurrence in the text, and
/// an occurrence in the text that ends inside the prefix is one in the prefix.
pub proof fn lemma_occurs_in_prefix<T>(text: Seq<T>, pattern: Seq<T>, len: int, at: int)
    requires
        0 <= len <= text.len(),
        0 <= at,
        at + pattern.len() <= len,
    ensures
        occurs_at(text.subrange(0, len), pattern, at) == occurs_at(text, pattern, at),
{
    assert(text.subrange(0, len).subrange(at, at + pattern.len()) =~= text.subrange(
        at,
        at + pattern.len(),
    ));
}

/// `memchr::memmem::find` returns the index of the first occurrence of the
/// needle in the haystack, or `None` if the needle does not occur.
pub assume_specification[ memchr::memmem::find ](haystack: &[u8], needle: &[u8]) -> (found: Option<
    usize,
>)
    ensures
        match found {
            Some(at) => is_first_occurrence(haystack@, needle@, at as int),
            None => absent(haystack@, needle@),
        },
;

/// `memchr::memchr` returns the index of the first byte of the haystack equal
/// to the needle, or `None` if there is none.
pub assume_specification[ memchr::memchr ](needle: u8, haystack: &[u8]) -> (found: Option<usize>)
    ensures
        match found {
            Some(at) => is_first_occurrence(haystack@, seq![needle], at as int),
            None => absent(haystack@, seq![needle]),
        },
;

/// The index of the first occurrence of `needle` in `haystack`.
pub fn find_bytes(haystack: &[u8], needle: &[u8]) -> (found: Option<usize>)
    ensures
        found is Some <==> index_of(haystack@, needle@) is Some,
        found matches Some(at) ==> index_of(haystack@, needle@) == Some(at as int) && at
            + needle@.len() <= haystack@.len(),
{
    let found = memchr::memmem::find(haystack, needle);
    proof {
        match found {
            Some(at) => lemma_first_occurrence_is_index(haystack@, needle@, at as int),
            None => lemma_absent_has_no_index(haystack@, needle@),
        }
    }
    found
}

/// The index of the first byte of `haystack` equal to `needle`.
pub fn find_byte(haystack: &[u8], needle: u8) -> (found: Option<usize>)
    ensures
        found is Some <==> index_of(haystack@, seq![needle]) is Some,
        found matches Some(at) ==> index_of(haystack@, seq![needle]) == Some(at as int) && at
            < haystack@.len(),
{
    let found = memchr::memchr(needle, haystack);
    proof {
        match found {
            Some(at) => lemma_first_occurrence_is_index(haystack@, seq![needle], at as int),
            None => lemma_absent_has_no_index(haystack@, seq![needle]),
        }
    }
    found
}

/// Whether `pattern` occurs in `text` at index `at`.
fn matches_at(text: &[char], pattern: &[char], at: usize) -> (same: bool)
    requires
        at + pattern@.len() <= text@.len(),
    ensures
        same == occurs_at(text@, pattern@, at as int),
{
    let length: usize = text.len();
    let mut k: usize = 0;
    while k < pattern.len()
        invariant
            k <= pattern@.len(),
            at + pattern@.len() <= text@.len() == length,
            forall|j: int| 0 <= j < k ==> text@[at + j] == pattern@[j],
        decreases pattern@.len() - k,
    {
        if text[at + k] != pattern[k] {
            assert(text@.subrange(at as int, at + pattern@.len())[k as int] == text@[at + k]);
            return false;
        }
        k += 1;
    }
    assert(text@.subrange(at as int, at + pattern@.len()) =~= pattern@);
    true
}

/// The index of the first occurrence of `pattern` in `text`.
pub fn find_chars(text: &[char], pattern: &[char]) -> (found: Option<usize>)
    ensures
        found is Some <==> index_of(text@, pattern@) is Some,
        found matches Some(at) ==> index_of(text@, pattern@) == Some(at as int) && at
            + pattern@.len() <= text@.len(),
{
    if pattern.len() > text.len() {
        proof {
            lemma_absent_has_no_index(text@, pattern@);
        }
        return None;
    }
    let last: usize = text.len() - pattern.len();
    let mut at: usize = 0;
    loop
        invariant
            last == text@.len() - pattern@.len(),
            at <= last,
            forall|j: int| 0 <= j < at ==> !occurs_at(text@, pattern@, j),
        decreases last - at,
    {
        if matches_at(text, pattern, at) {
            proof {
                lemma_first_occurrence_is_index(text@, pattern@, at as int);
            }
            return Some(at);
        }
        if at == last {
            proof {
                lemma_absent_has_no_index(text@, pattern@);
            }
            return None;
        }
        at += 1;
    }
}

/// The views of a list of slices.
pub open spec fn views<T>(parts: Seq<&[T]>) -> Seq<Seq<T>> {
    Seq::new(parts.len(), |i: int| parts[i]@)
}

/// Splits `text` at the leftmost, non-overlapping occurrences of `pattern`.
pub fn split_bytes<'a>(text: &'a [u8], pattern: &[u8]) -> (parts: Vec<&'a [u8]>)
    requires
        pattern@.len() > 0,
    ensures
        views(parts@) == pieces(text@, pattern@),
        parts@.len() >= 1,
{
    let mut parts: Vec<&'a [u8]> = Vec::new();
    let mut start: usize = 0;
    proof {
        assert(text@.subrange(0, text@.len() as int) =~= text@);
        assert(views(parts@) + pieces(text@, pattern@) =~= pieces(text@, pattern@));
    }
    loop
        invariant_except_break
            pieces(text@, pattern@) == views(parts@) + pieces(
                text@.subrange(start as int, text@.len() as int),
                pattern@,
            ),
        invariant
            pattern@.len() > 0,
            start <= text@.len(),
        ensures
            views(parts@) == pieces(text@, pattern@),
            parts@.len() >= 1,
        decreases text@.len() - start,
    {
        let rest = &text[start..text.len()];
        let ghost before_parts = parts@;
        match find_bytes(rest, pattern) {
            Some(at) => {
                parts.push(&rest[0..at]);
                proof {
                    let next = rest@.subrange(at + pattern@.len(), rest@.len() as int);
                    assert(next =~= text@.subrange(
                        start + at + pattern@.len(),
                        text@.len() as int,
                    ));
                    assert(views(parts@) =~= views(before_parts) + seq![rest@.subrange(0, at as int)]);
                }
                start = start + at + pattern.len();
            },
            None => {
                parts.push(rest);
                proof {
                    assert(views(parts@) =~= views(before_parts) + seq![rest@]);
                }
                break ;
            },
        }
    }
    parts
}

/// Splits `text` at the leftmost, non-overlapping occurrences of `pattern`.
pub fn split_chars<'a>(text: &'a [char], pattern: &[char]) -> (parts: Vec<&'a [char]>)
    requires
        pattern@.len() > 0,
    ensures
        views(parts@) == pieces(text@, pattern@),
        parts@.len() >= 1,
{
    let mut parts: Vec<&'a [char]> = Vec::new();
    let mut start: usize = 0;
    proof {
        assert(text@.subrange(0, text@.len() as int) =~= text@);
        assert(views(parts@) + pieces(text@, pattern@) =~= pieces(text@, pattern@));
    }
    loop
        invariant_except_break
            pieces(text@, pattern@) == views(parts@) + pieces(
                text@.subrange(start as int, text@.len() as int),
                pattern@,
            ),
        invariant
            pattern@.len() > 0,
            start <= text@.len(),
        ensures
            views(parts@) == pieces(text@, pattern@),
            parts@.len() >= 1,
        decreases text@.len() - start,
    {
        let rest = &text[start..text.len()];
        let ghost before_parts = parts@;
        match find_chars(rest, pattern) {
            Some(at) => {
                parts.push(&rest[0..at]);
                proof {
                    let next = rest@.subrange(at + pattern@.len(), rest@.len() as int);
                    assert(next =~= text@.subrange(
                        start + at + pattern@.len(),
                        text@.len() as int,
                    ));
                    assert(views(parts@) =~= views(before_parts) + seq![rest@.subrange(0, at as int)]);
                }
                start = start + at + pattern.len();
            },
            None => {
                parts.push(rest);
                proof {
                    assert(views(parts@) =~= views(before_parts) + seq![rest@]);
                }
                break ;
            },
        }
    }
    parts
}

/// Cuts `text` at the first occurrence of `pattern`: what stands before it,
/// and what follows it if it occurs.
pub fn cut_bytes<'a>(text: &'a [u8], pattern: &[u8]) -> (parts: (&'a [u8], Option<&'a [u8]>))
    ensures
        parts.0@ == before(text@, pattern@),
        match parts.1 {
            Some(rest) => after(text@, pattern@) == Some(rest@),
            None => after(text@, pattern@) is None,
        },
{
    let end: usize = text.len();
    match find_bytes(text, pattern) {
        Some(at) => (&text[0..at], Some(&text[at + pattern.len()..end])),
        None => (text, None),
    }
}

/// Cuts `text` at the first occurrence of `pattern`: what stands before it,
/// and what follows it if it occurs.
pub fn cut_chars<'a>(text: &'a [char], pattern: &[char]) -> (parts: (
    &'a [char],
    Option<&'a [char]>,
))
    ensures
        parts.0@ == before(text@, pattern@),
        match parts.1 {
            Some(rest) => after(text@, pattern@) == Some(rest@),
            None => after(text@, pattern@) is None,
        },
{
    let end: usize = text.len();
    match find_chars(text, pattern) {
        Some(at) => (&text[0..at], Some(&text[at + pattern.len()..end])),
        None => (text, None),
    }
}

/// Cuts `text` at the first byte equal to `mark`: what stands before it, and
/// what follows it if there is one.
pub fn cut_at_byte<'a>(text: &'a [u8], mark: u8) -> (parts: (&'a [u8], Option<&'a [u8]>))
    ensures
        parts.0@ == before(text@, seq![mark]),
        match parts.1 {
            Some(rest) => after(text@, seq![mark]) == Some(rest@),
            None => after(text@, seq![mark]) is None,
        },
{
    let end: usize = text.len();
    match find_byte(text, mark) {
        Some(at) => {
            assert(seq![mark].len() == 1);
            (&text[0..at], Some(&text[at + 1..end]))
        },
        None => (text, None),
    }
}

} // verus!
