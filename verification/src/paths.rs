//! Request paths: their directories, the wildcard patterns that cover them,
//! and the files that they name.
//!
//! A request path is text with `/` between its components, on every
//! machine; what a directory is follows from the text alone and does not
//! depend on the paths of the system that the server runs on.

use crate::http::MimeType;
use crate::text::{chars_of, text_of};
use vstd::prelude::*;
use vstd::string::StringExecFns;

verus! {

/// A path without what ends it and names nothing: slashes, and dots that
/// stand alone after a slash.
pub open spec fn trimmed(path: Seq<char>) -> Seq<char>
    decreases path.len(),
{
    if path.len() > 0 && path.last() == '/' {
        trimmed(path.drop_last())
    } else if path.len() >= 2 && path.last() == '.' && path[path.len() - 2] == '/' {
        trimmed(path.drop_last())
    } else {
        path
    }
}

/// A path without its last component: what is left ends with a slash or is
/// empty.
pub open spec fn without_leaf(path: Seq<char>) -> Seq<char>
    decreases path.len(),
{
    if path.len() > 0 && path.last() != '/' {
        without_leaf(path.drop_last())
    } else {
        path
    }
}

/// The directory that a path lies in. The root and the empty path lie in
/// none; a path of one component lies in the root, if a slash stands before
/// it, and else in the empty path. Slashes that follow one another count as
/// one, and a dot that stands alone after a slash names nothing.
pub open spec fn parent(path: Seq<char>) -> Option<Seq<char>> {
    if trimmed(path).len() == 0 {
        None
    } else if without_leaf(trimmed(path)).len() == 0 {
        Some(Seq::empty())
    } else if trimmed(without_leaf(trimmed(path))).len() == 0 {
        Some(path.take(1))
    } else {
        Some(trimmed(without_leaf(trimmed(path))))
    }
}

/// The pattern that covers all that lies in a directory.
pub open spec fn wildcard(dir: Seq<char>) -> Seq<char> {
    if dir.len() == 0 {
        "*"@
    } else if dir.last() == '/' {
        dir + "*"@
    } else {
        dir + "/*"@
    }
}

/// A path without the slashes that it starts with.
pub open spec fn without_root(path: Seq<char>) -> Seq<char>
    decreases path.len(),
{
    if path.len() > 0 && path[0] == '/' {
        without_root(path.drop_first())
    } else {
        path
    }
}

/// What follows the last occurrence of `mark` in a text; the whole text
/// where `mark` does not occur.
pub open spec fn tail(text: Seq<char>, mark: char) -> Seq<char>
    decreases text.len(),
{
    if text.len() == 0 || text.last() == mark {
        Seq::empty()
    } else {
        tail(text.drop_last(), mark).push(text.last())
    }
}

/// The extension of the file that a path names: what follows the last dot
/// of its last component, if something stands before that dot.
pub open spec fn extension(path: Seq<char>) -> Option<Seq<char>> {
    if tail(tail(path, '/'), '.').len() + 1 < tail(path, '/').len() {
        Some(tail(tail(path, '/'), '.'))
    } else {
        None
    }
}

/// `trimmed` and `without_leaf` cut a path down to one of its prefixes.
pub proof fn lemma_prefixes(path: Seq<char>)
    ensures
        trimmed(path).len() <= path.len(),
        trimmed(path) == path.take(trimmed(path).len() as int),
        trimmed(path).len() > 0 ==> trimmed(path).last() != '/',
        without_leaf(path).len() <= path.len(),
        without_leaf(path) == path.take(without_leaf(path).len() as int),
        without_leaf(path).len() > 0 ==> without_leaf(path).last() == '/',
    decreases path.len(),
{
    if path.len() > 0 {
        lemma_prefixes(path.drop_last());
        let shorter = path.drop_last();
        assert(shorter.take(trimmed(shorter).len() as int) =~= path.take(
            trimmed(shorter).len() as int,
        ));
        assert(shorter.take(without_leaf(shorter).len() as int) =~= path.take(
            without_leaf(shorter).len() as int,
        ));
    }
    assert(path.take(path.len() as int) =~= path);
}

/// The directory of a path is a prefix of it, and shorter.
pub proof fn lemma_parent_is_shorter(path: Seq<char>)
    ensures
        parent(path) matches Some(dir) ==> dir.len() < path.len() && dir == path.take(
            dir.len() as int,
        ),
{
    let name = trimmed(path);
    lemma_prefixes(path);
    lemma_prefixes(name);
    let dir = without_leaf(name);
    lemma_prefixes(dir);
    if name.len() > 0 {
        assert(dir.len() < name.len()) by {
            if dir.len() == name.len() {
                assert(dir =~= name);
            }
        }
        assert(dir =~= path.take(dir.len() as int));
        assert(trimmed(dir) =~= path.take(trimmed(dir).len() as int));
        assert(Seq::<char>::empty() =~= path.take(0));
    }
}

/// The length of a path without what ends it and names nothing.
fn trimmed_len(path: &[char], len: usize) -> (n: usize)
    requires
        len <= path@.len(),
    ensures
        n <= len,
        path@.take(n as int) == trimmed(path@.take(len as int)),
{
    let mut n: usize = len;
    while n > 0 && (path[n - 1] == '/' || (n >= 2 && path[n - 1] == '.' && path[n - 2] == '/'))
        invariant
            n <= len <= path@.len(),
            trimmed(path@.take(n as int)) == trimmed(path@.take(len as int)),
        decreases n,
    {
        proof {
            assert(path@.take(n as int).drop_last() =~= path@.take(n - 1));
        }
        n -= 1;
    }
    n
}

/// The length of a path without its last component.
fn without_leaf_len(path: &[char], len: usize) -> (n: usize)
    requires
        len <= path@.len(),
    ensures
        n <= len,
        path@.take(n as int) == without_leaf(path@.take(len as int)),
{
    let mut n: usize = len;
    while n > 0 && path[n - 1] != '/'
        invariant
            n <= len <= path@.len(),
            without_leaf(path@.take(n as int)) == without_leaf(path@.take(len as int)),
        decreases n,
    {
        proof {
            assert(path@.take(n as int).drop_last() =~= path@.take(n - 1));
        }
        n -= 1;
    }
    n
}

/// The directory that a path lies in.
pub fn parent_of<'a>(path: &'a [char]) -> (dir: Option<&'a [char]>)
    ensures
        match dir {
            Some(dir) => parent(path@) == Some(dir@) && dir@.len() < path@.len(),
            None => parent(path@) is None,
        },
{
    proof {
        assert(path@.take(path@.len() as int) =~= path@);
        lemma_parent_is_shorter(path@);
    }
    let name = trimmed_len(path, path.len());
    if name == 0 {
        return None;
    }
    let dir = without_leaf_len(path, name);
    if dir == 0 {
        proof {
            assert(path@.take(0) =~= Seq::<char>::empty());
        }
        return Some(&path[0..0]);
    }
    let up = trimmed_len(path, dir);
    if up == 0 {
        Some(&path[0..1])
    } else {
        Some(&path[0..up])
    }
}

/// The pattern that covers all that lies in a directory.
pub fn wildcard_of(dir: &[char]) -> (pattern: String)
    ensures
        pattern@ == wildcard(dir@),
{
    let length: usize = dir.len();
    if length == 0 {
        String::from_str("*")
    } else if dir[length - 1] == '/' {
        let mut pattern = text_of(dir);
        pattern.append("*");
        pattern
    } else {
        let mut pattern = text_of(dir);
        pattern.append("/*");
        pattern
    }
}

/// The path of a file below a document root that a request path names: the
/// path without the slashes that it starts with.
pub fn relative(path: &str) -> (file: String)
    ensures
        file@ == without_root(path@),
{
    let chars = chars_of(path);
    let length: usize = chars.len();
    let mut start: usize = 0;
    proof {
        assert(chars@.subrange(0, length as int) =~= chars@);
    }
    while start < length && chars[start] == '/'
        invariant
            start <= length == chars@.len(),
            without_root(chars@.subrange(start as int, length as int)) == without_root(chars@),
        decreases length - start,
    {
        proof {
            assert(chars@.subrange(start as int, length as int).drop_first() =~= chars@.subrange(
                start + 1,
                length as int,
            ));
        }
        start += 1;
    }
    text_of(&chars.as_slice()[start..length])
}

/// The index at which what follows the last `mark` starts, in the first
/// `len` characters of a text.
fn tail_start(text: &[char], len: usize, mark: char) -> (start: usize)
    requires
        len <= text@.len(),
    ensures
        start <= len,
        text@.subrange(start as int, len as int) == tail(text@.take(len as int), mark),
{
    let mut start: usize = len;
    proof {
        lemma_tail(text@.take(len as int), mark, len as int);
    }
    while start > 0 && text[start - 1] != mark
        invariant
            start <= len <= text@.len(),
            tail(text@.take(len as int), mark) == tail(text@.take(start as int), mark)
                + text@.subrange(start as int, len as int),
        decreases start,
    {
        proof {
            let shorter = text@.take(start as int);
            assert(shorter.drop_last() =~= text@.take(start - 1));
            assert(tail(shorter, mark) == tail(text@.take(start - 1), mark).push(
                text@[start - 1],
            ));
            assert(tail(text@.take(start - 1), mark).push(text@[start - 1]) + text@.subrange(
                start as int,
                len as int,
            ) =~= tail(text@.take(start - 1), mark) + text@.subrange(start - 1, len as int));
        }
        start -= 1;
    }
    proof {
        assert(tail(text@.take(start as int), mark) =~= Seq::<char>::empty());
        assert(Seq::<char>::empty() + text@.subrange(start as int, len as int) =~= text@.subrange(
            start as int,
            len as int,
        ));
    }
    start
}

/// A tail taken of the whole of a text is the tail of the text.
proof fn lemma_tail(text: Seq<char>, mark: char, len: int)
    requires
        len == text.len(),
    ensures
        tail(text, mark) == tail(text.take(len), mark) + text.subrange(len, len),
{
    assert(text.take(len) =~= text);
    assert(tail(text, mark) + text.subrange(len, len) =~= tail(text, mark));
}

/// The extension of the file that a path names.
pub fn extension_of(path: &str) -> (found: Option<String>)
    ensures
        extension(path@) == match found {
            Some(text) => Some(text@),
            None => None,
        },
{
    let chars = chars_of(path);
    let length: usize = chars.len();
    proof {
        assert(chars@.take(length as int) =~= chars@);
    }
    let leaf = tail_start(chars.as_slice(), length, '/');
    let name = &chars.as_slice()[leaf..length];
    proof {
        assert(name@.take(name@.len() as int) =~= name@);
    }
    let dot = tail_start(name, length - leaf, '.');
    if dot >= 2 {
        Some(text_of(&name[dot..length - leaf]))
    } else {
        None
    }
}

impl MimeType {
    /// The media type of the file that a path names: that of its extension,
    /// and plain text where it has none.
    pub open spec fn of_path(path: Seq<char>) -> MimeType {
        match extension(path) {
            Some(name) => MimeType::of_extension(name),
            None => MimeType::PlainText,
        }
    }

    /// The media type of the file that a path names.
    pub fn from_path(path: &str) -> (mime: MimeType)
        ensures
            mime == MimeType::of_path(path@),
    {
        match extension_of(path) {
            Some(name) => MimeType::from_extension(name.as_str()),
            None => MimeType::PlainText,
        }
    }
}

} // verus!
