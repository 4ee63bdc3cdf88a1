//! Paths as plain text: the last component, its extension, joining, and the
//! part of a path below a root directory.
//!
//! A path here has `/` between its components, on every platform, and every
//! other character, a backslash too, belongs to a name. Where the platform
//! separates components by another character, `portable` turns a path of the
//! platform into this form, and paths are handed to the library in it.

use vstd::prelude::*;
use crate::text::{chars_of, push_char, text_of};

verus! {

/// The index of the last `c` in `s`, or -1 where `s` holds none.
pub open spec fn last_index_of(s: Seq<char>, c: char) -> int
    decreases s.len(),
{
    if s.len() == 0 {
        -1
    } else if s.last() == c {
        s.len() - 1
    } else {
        last_index_of(s.drop_last(), c)
    }
}

/// `last_index_of` points at an occurrence after which there is no other.
pub proof fn lemma_last_index_of(s: Seq<char>, c: char)
    ensures
        -1 <= last_index_of(s, c) < s.len(),
        last_index_of(s, c) >= 0 ==> s[last_index_of(s, c)] == c,
        forall|k: int| last_index_of(s, c) < k < s.len() ==> s[k] != c,
    decreases s.len(),
{
    if s.len() > 0 && s.last() != c {
        lemma_last_index_of(s.drop_last(), c);
        assert forall|k: int| last_index_of(s, c) < k < s.len() implies s[k] != c by {
            if k < s.len() - 1 {
                assert(s.drop_last()[k] == s[k]);
            }
        }
    }
}

/// The last component of a path: what follows its last `/`, or the whole path
/// where it holds none.
pub open spec fn file_name_of(path: Seq<char>) -> Seq<char> {
    path.skip(last_index_of(path, '/') + 1)
}

/// The extension of a path: what follows the last `.` of its last component.
/// A component without a `.`, or whose only `.` is its first character, has
/// the empty extension.
pub open spec fn extension_of(path: Seq<char>) -> Seq<char> {
    let name = file_name_of(path);
    let dot = last_index_of(name, '.');
    if dot <= 0 {
        Seq::empty()
    } else {
        name.skip(dot + 1)
    }
}

/// `name` appended to `base` as one more component. An absolute `name`
/// replaces `base`; a separator is added unless `base` is empty or already
/// ends in one.
pub open spec fn join_of(base: Seq<char>, name: Seq<char>) -> Seq<char> {
    if name.len() > 0 && name[0] == '/' {
        name
    } else if base.len() == 0 || base.last() == '/' {
        base + name
    } else {
        base.push('/') + name
    }
}

/// What is left of `path` below the directory `root`, if `path` lies there:
/// `path` is `root`, or `root` followed by a separator and the rest.
pub open spec fn relative_to(root: Seq<char>, path: Seq<char>) -> Option<Seq<char>> {
    if root.len() == 0 || !root.is_prefix_of(path) {
        None
    } else if root.len() == path.len() {
        Some(Seq::empty())
    } else if root.last() == '/' {
        Some(path.skip(root.len() as int))
    } else if path[root.len() as int] == '/' {
        Some(path.skip(root.len() as int + 1))
    } else {
        None
    }
}

/// `s` with every `separator` turned into a forward slash.
pub open spec fn with_separator(s: Seq<char>, separator: char) -> Seq<char> {
    Seq::new(s.len(), |i: int| if s[i] == separator { '/' } else { s[i] })
}

/// `s` with every backslash turned into a forward slash.
pub open spec fn with_forward_slashes(s: Seq<char>) -> Seq<char> {
    with_separator(s, '\\')
}

/// The name under which a file is handed on: its path below `root` with
/// forward slashes, or, for a file that does not lie below `root`, the last
/// component of the path it was given by.
pub open spec fn relative_name_of(root: Seq<char>, absolute: Seq<char>, given: Seq<char>) -> Seq<char> {
    match relative_to(root, absolute) {
        Some(rest) => with_forward_slashes(rest),
        None => file_name_of(given),
    }
}

/// The last component of a path holds no separator.
pub proof fn lemma_file_name_is_bare(path: Seq<char>)
    ensures
        !file_name_of(path).contains('/'),
        file_name_of(path).len() <= path.len(),
{
    lemma_last_index_of(path, '/');
}

/// A file outside the root is named by the last component of the path it was
/// given by, in which nothing of the directories above it remains.
pub proof fn lemma_outside_root_is_bare_name(root: Seq<char>, absolute: Seq<char>, given: Seq<char>)
    requires
        relative_to(root, absolute) is None,
    ensures
        relative_name_of(root, absolute, given) == file_name_of(given),
        !relative_name_of(root, absolute, given).contains('/'),
{
    lemma_file_name_is_bare(given);
}

/// A name below the root holds no backslash.
pub proof fn lemma_inside_root_has_forward_slashes(root: Seq<char>, absolute: Seq<char>, given: Seq<char>)
    requires
        relative_to(root, absolute) is Some,
    ensures
        !relative_name_of(root, absolute, given).contains('\\'),
{
}

fn find_last(chars: &Vec<char>, c: char) -> (found: Option<usize>)
    ensures
        match found {
            Some(i) => i == last_index_of(chars@, c) && i < chars.len(),
            None => last_index_of(chars@, c) == -1,
        },
{
    let mut i: usize = chars.len();
    assert(chars@.take(i as int) == chars@);
    while i > 0
        invariant
            i <= chars.len(),
            last_index_of(chars@, c) == last_index_of(chars@.take(i as int), c),
        decreases i,
    {
        assert(chars@.take(i as int).drop_last() == chars@.take(i - 1));
        if chars[i - 1] == c {
            return Some(i - 1);
        }
        i -= 1;
    }
    None
}

fn file_name_start(chars: &Vec<char>) -> (start: usize)
    ensures
        start == last_index_of(chars@, '/') + 1,
        start <= chars.len(),
{
    proof {
        lemma_last_index_of(chars@, '/');
    }
    match find_last(chars, '/') {
        Some(i) => i + 1,
        None => 0,
    }
}

/// The last component of `path`.
pub fn file_name(path: &str) -> (name: String)
    ensures
        name@ == file_name_of(path@),
{
    let chars = chars_of(path);
    let start = file_name_start(&chars);
    text_of(&chars, start, chars.len())
}

/// The extension of `path`; empty where it has none.
pub fn extension(path: &str) -> (ext: String)
    ensures
        ext@ == extension_of(path@),
{
    let chars = chars_of(path);
    let start = file_name_start(&chars);
    let mut name: Vec<char> = Vec::new();
    let mut i: usize = start;
    while i < chars.len()
        invariant
            start <= i <= chars.len(),
            name@ == chars@.subrange(start as int, i as int),
        decreases chars.len() - i,
    {
        name.push(chars[i]);
        i += 1;
    }
    assert(name@ == file_name_of(path@));
    proof {
        lemma_last_index_of(name@, '.');
    }
    match find_last(&name, '.') {
        Some(dot) => {
            if dot == 0 {
                String::new()
            } else {
                text_of(&name, dot + 1, name.len())
            }
        },
        None => String::new(),
    }
}

/// `name` appended to `base` as one more component.
pub fn join(base: &str, name: &str) -> (joined: String)
    ensures
        joined@ == join_of(base@, name@),
{
    let b = chars_of(base);
    let n = chars_of(name);
    if n.len() > 0 && n[0] == '/' {
        return name.to_owned();
    }
    let mut joined = base.to_owned();
    if b.len() > 0 && b[b.len() - 1] != '/' {
        push_char(&mut joined, '/');
    }
    joined.append(name);
    joined
}

/// What is left of `path` below `root`, if `path` lies there.
pub fn strip_root(root: &str, path: &str) -> (rest: Option<String>)
    ensures
        match rest {
            Some(r) => relative_to(root@, path@) == Some(r@),
            None => relative_to(root@, path@) is None,
        },
{
    let r = chars_of(root);
    let p = chars_of(path);
    if r.len() == 0 || r.len() > p.len() {
        return None;
    }
    let mut i: usize = 0;
    while i < r.len()
        invariant
            i <= r.len() <= p.len(),
            r@ == root@,
            p@ == path@,
            r@.take(i as int) == p@.take(i as int),
        decreases r.len() - i,
    {
        if r[i] != p[i] {
            assert(p@.subrange(0, r.len() as int)[i as int] != r@[i as int]);
            return None;
        }
        assert(r@.take(i + 1) == r@.take(i as int).push(r@[i as int]));
        assert(p@.take(i + 1) == p@.take(i as int).push(p@[i as int]));
        i += 1;
    }
    assert(r@.take(r.len() as int) == r@);
    assert(r@ == p@.subrange(0, r.len() as int));
    if r.len() == p.len() {
        Some(String::new())
    } else if r[r.len() - 1] == '/' {
        Some(text_of(&p, r.len(), p.len()))
    } else if p[r.len()] == '/' {
        Some(text_of(&p, r.len() + 1, p.len()))
    } else {
        None
    }
}

/// A path of a platform that separates components by `separator`, in the
/// form that this library takes: every `separator` becomes a forward slash.
pub fn portable(path: &str, separator: char) -> (out: String)
    ensures
        out@ == with_separator(path@, separator),
{
    let chars = chars_of(path);
    let mut out = String::new();
    let mut i: usize = 0;
    while i < chars.len()
        invariant
            i <= chars.len(),
            chars@ == path@,
            out@ == with_separator(path@, separator).take(i as int),
        decreases chars.len() - i,
    {
        let c = chars[i];
        if c == separator {
            push_char(&mut out, '/');
        } else {
            push_char(&mut out, c);
        }
        assert(with_separator(path@, separator).take(i + 1) == with_separator(
            path@,
            separator,
        ).take(i as int).push(with_separator(path@, separator)[i as int]));
        i += 1;
    }
    assert(with_separator(path@, separator).take(chars.len() as int) == with_separator(
        path@,
        separator,
    ));
    out
}

/// `text` with every backslash turned into a forward slash.
pub fn forward_slashes(text: &str) -> (out: String)
    ensures
        out@ == with_forward_slashes(text@),
{
    portable(text, '\\')
}

/// The name under which the file at `absolute` is handed on, given the root
/// directory and the path the file was given by.
pub fn relative_name(root: &str, absolute: &str, given: &str) -> (name: String)
    ensures
        name@ == relative_name_of(root@, absolute@, given@),
{
    match strip_root(root, absolute) {
        Some(rest) => forward_slashes(rest.as_str()),
        None => file_name(given),
    }
}

} // verus!
