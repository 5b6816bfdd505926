//! Paths as sequences of characters: prefixes, nesting, joining, and the
//! name an entry carries inside an archive.

use vstd::prelude::*;
use vstd::string::*;

verus! {

/// The path separator.
pub const SEPARATOR: char = '/';

/// Whether `path` starts at the root.
pub open spec fn absolute(path: Seq<char>) -> bool {
    path.len() > 0 && path[0] == SEPARATOR
}

/// Whether `path` lies strictly below the directory `dir`: it continues
/// `dir` past a separator.
pub open spec fn nested_under(dir: Seq<char>, path: Seq<char>) -> bool {
    &&& dir.len() > 0
    &&& dir.len() < path.len()
    &&& dir.is_prefix_of(path)
    &&& (dir.last() == SEPARATOR || path[dir.len() as int] == SEPARATOR)
}

/// Whether `path` is `dir` itself or lies below it.
pub open spec fn covers(dir: Seq<char>, path: Seq<char>) -> bool {
    path == dir || nested_under(dir, path)
}

/// `path` without its leading separators.
pub open spec fn strip_root(path: Seq<char>) -> Seq<char>
    decreases path.len(),
{
    if path.len() > 0 && path[0] == SEPARATOR {
        strip_root(path.drop_first())
    } else {
        path
    }
}

/// `name` resolved against `base`: `name` itself where it is absolute,
/// else `base` followed by `name`, with one separator between them unless
/// `base` is empty or ends in one.
pub open spec fn joined(base: Seq<char>, name: Seq<char>) -> Seq<char> {
    if absolute(name) {
        name
    } else if base.len() == 0 || base.last() == SEPARATOR {
        base + name
    } else {
        base + seq![SEPARATOR] + name
    }
}

/// The characters of `s`, in order.
pub fn to_chars(s: &str) -> (chars: Vec<char>)
    ensures
        chars@ == s@,
{
    let mut chars: Vec<char> = Vec::new();
    for c in it: s.chars()
        invariant
            it.seq() == s@,
            chars@ == it.seq().take(it.index()),
    {
        chars.push(c);
    }
    chars
}

/// Whether `prefix` is a prefix of `text`.
pub fn starts_with(text: &Vec<char>, prefix: &Vec<char>) -> (found: bool)
    ensures
        found == prefix@.is_prefix_of(text@),
{
    if prefix.len() > text.len() {
        return false;
    }
    let mut i: usize = 0;
    while i < prefix.len()
        invariant
            i <= prefix.len() <= text.len(),
            forall|j: int| 0 <= j < i ==> prefix@[j] == text@[j],
        decreases prefix.len() - i,
    {
        if prefix[i] != text[i] {
            return false;
        }
        i += 1;
    }
    true
}

/// Whether `text` holds the character `wanted`.
pub fn contains_char(text: &str, wanted: char) -> (found: bool)
    ensures
        found == text@.contains(wanted),
{
    let chars = to_chars(text);
    let mut i: usize = 0;
    while i < chars.len()
        invariant
            i <= chars.len(),
            chars@ == text@,
            forall|j: int| 0 <= j < i ==> chars@[j] != wanted,
        decreases chars.len() - i,
    {
        if chars[i] == wanted {
            return true;
        }
        i += 1;
    }
    false
}

/// Whether `path` is `dir` itself or lies below it.
pub fn path_covers(dir: &Vec<char>, path: &Vec<char>) -> (covered: bool)
    ensures
        covered == covers(dir@, path@),
{
    if !starts_with(path, dir) {
        return false;
    }
    if dir.len() == path.len() {
        assert(path@ =~= path@.subrange(0, dir@.len() as int));
        return true;
    }
    dir.len() > 0 && (dir[dir.len() - 1] == SEPARATOR || path[dir.len()] == SEPARATOR)
}

/// Whether `path` starts at the root.
pub fn is_absolute(path: &str) -> (result: bool)
    ensures
        result == absolute(path@),
{
    path.unicode_len() > 0 && path.get_char(0) == SEPARATOR
}

/// The name under which the entry at `path` is archived: `path` without
/// its leading separators, so that it is relative.
pub fn archive_name(path: &str) -> (name: String)
    ensures
        name@ == strip_root(path@),
{
    let len = path.unicode_len();
    let mut start: usize = 0;
    assert(path@.subrange(0, len as int) =~= path@);
    while start < len && path.get_char(start) == SEPARATOR
        invariant
            start <= len == path@.len(),
            strip_root(path@) == strip_root(path@.subrange(start as int, len as int)),
        decreases len - start,
    {
        proof {
            let rest = path@.subrange(start as int, len as int);
            assert(rest.drop_first() =~= path@.subrange(start + 1, len as int));
        }
        start += 1;
    }
    path.substring_char(start, len).to_owned()
}

/// `name` resolved against `base`.
pub fn join(base: &str, name: &str) -> (path: String)
    ensures
        path@ == joined(base@, name@),
{
    if is_absolute(name) {
        return name.to_owned();
    }
    let len = base.unicode_len();
    let mut path = base.to_owned();
    if len > 0 && base.get_char(len - 1) != SEPARATOR {
        path.append("/");
        proof {
            reveal_strlit("/");
        }
    }
    path.append(name);
    path
}

/// What is nested under a directory is nested under every directory that
/// covers that one.
pub proof fn lemma_covers_transitive(a: Seq<char>, b: Seq<char>, c: Seq<char>)
    requires
        covers(a, b),
        covers(b, c),
    ensures
        covers(a, c),
{
    if a != b && b != c {
        assert(a.is_prefix_of(c));
        assert(b[a.len() as int] == c[a.len() as int]);
    }
}

/// A prefix of a prefix is a prefix.
pub proof fn lemma_prefix_transitive(a: Seq<char>, b: Seq<char>, c: Seq<char>)
    requires
        a.is_prefix_of(b),
        b.is_prefix_of(c),
    ensures
        a.is_prefix_of(c),
{
}

/// An archive name is relative: it is what follows the leading separators
/// of the path it came from.
pub proof fn lemma_strip_root_relative(path: Seq<char>)
    ensures
        !absolute(strip_root(path)),
        strip_root(path).len() <= path.len(),
        strip_root(path) == path.subrange(
            path.len() - strip_root(path).len(),
            path.len() as int,
        ),
        forall|i: int| 0 <= i < path.len() - strip_root(path).len() ==> path[i] == SEPARATOR,
    decreases path.len(),
{
    if path.len() > 0 && path[0] == SEPARATOR {
        let tail = path.drop_first();
        lemma_strip_root_relative(tail);
        let kept = strip_root(tail);
        assert(tail.subrange(tail.len() - kept.len(), tail.len() as int) =~= path.subrange(
            path.len() - kept.len(),
            path.len() as int,
        ));
        assert forall|i: int| 0 <= i < path.len() - kept.len() implies path[i] == SEPARATOR by {
            if i > 0 {
                assert(path[i] == tail[i - 1]);
            }
        }
    }
}

/// The archive name of a relative path behind one separator is that
/// relative path: what is extracted below a target directory lies there as
/// it lay below the root.
pub proof fn lemma_name_of_rooted_path(relative: Seq<char>)
    requires
        !absolute(relative),
    ensures
        strip_root(seq![SEPARATOR] + relative) == relative,
{
    reveal_with_fuel(strip_root, 2);
}

} // verus!
