//! Paths as text: components, parents, and the test that keeps an archive
//! entry inside the directory it is unpacked into.
//!
//! A path is modelled by the sequence of its characters. For the paths of
//! archive entries both `/` and `\` separate components, whatever the
//! platform, so that a name that would climb out of a directory on any one
//! of them is recognised on all.

use vstd::prelude::*;

verus! {

/// `c` separates two components of a path.
pub open spec fn is_separator(c: char) -> bool {
    c == '/' || c == '\\'
}

/// The position of the last `a` or `b` in `text`, or -1 where it holds neither.
pub open spec fn last_of(text: Seq<char>, a: char, b: char) -> int
    decreases text.len(),
{
    if text.len() == 0 {
        -1
    } else if text.last() == a || text.last() == b {
        text.len() - 1
    } else {
        last_of(text.drop_last(), a, b)
    }
}

/// The position of the last separator in `path`, or -1.
pub open spec fn last_separator(path: Seq<char>) -> int {
    last_of(path, '/', '\\')
}

/// What precedes the last separator of `path`; empty where it has none.
pub open spec fn parent(path: Seq<char>) -> Seq<char> {
    if last_separator(path) < 0 {
        Seq::empty()
    } else {
        path.take(last_separator(path))
    }
}

/// `name` without its extension: the part before its last `.`, or all of it
/// where it has no `.` or only a leading one.
pub open spec fn strip_extension(name: Seq<char>) -> Seq<char> {
    if last_of(name, '.', '.') <= 0 {
        name
    } else {
        name.take(last_of(name, '.', '.'))
    }
}

/// `name` can name a file: it is not empty and is neither `.` nor `..`.
pub open spec fn names_file(name: Seq<char>) -> bool {
    name.len() > 0 && name != seq!['.'] && name != seq!['.', '.']
}

/// `name` is written as a directory: it ends in `/`.
pub open spec fn names_directory(name: Seq<char>) -> bool {
    name.len() > 0 && name.last() == '/'
}

/// `dir` and `rest`, with one `/` between them.
pub open spec fn joined(dir: Seq<char>, rest: Seq<char>) -> Seq<char> {
    dir + seq!['/'] + rest
}

/// `path` starts at a root: with a separator, or with a drive letter's colon.
pub open spec fn rooted(path: Seq<char>) -> bool {
    (path.len() > 0 && is_separator(path[0])) || (path.len() >= 2 && path[1] == ':')
}

/// The component `..` stands in `path` at position `at`.
pub open spec fn parent_at(path: Seq<char>, at: int) -> bool {
    &&& 0 <= at
    &&& at + 2 <= path.len()
    &&& path[at] == '.'
    &&& path[at + 1] == '.'
    &&& (at == 0 || is_separator(path[at - 1]))
    &&& (at + 2 == path.len() || is_separator(path[at + 2]))
}

/// Some component of `path` is `..`.
pub open spec fn climbs(path: Seq<char>) -> bool {
    exists|at: int| parent_at(path, at)
}

/// `path` stays below the directory it is resolved in: it is relative, and
/// none of its components steps to a parent.
pub open spec fn confined(path: Seq<char>) -> bool {
    !rooted(path) && !climbs(path)
}

/// `name` names one entry of a directory: it can name a file, and holds no
/// separator.
pub open spec fn plain_name(name: Seq<char>) -> bool {
    names_file(name) && forall|i: int| 0 <= i < name.len() ==> !is_separator(#[trigger] name[i])
}

/// The last separator of a path, where it has one, is a separator at a
/// position of the path.
pub proof fn lemma_last_of(text: Seq<char>, a: char, b: char)
    ensures
        -1 <= last_of(text, a, b) < text.len(),
        last_of(text, a, b) >= 0 ==> text[last_of(text, a, b)] == a || text[last_of(text, a, b)]
            == b,
    decreases text.len(),
{
    if text.len() > 0 && !(text.last() == a || text.last() == b) {
        lemma_last_of(text.drop_last(), a, b);
    }
}

/// The parent of a confined path is confined.
pub proof fn lemma_parent_confined(path: Seq<char>)
    requires
        confined(path),
    ensures
        confined(parent(path)),
{
    lemma_last_of(path, '/', '\\');
    let cut = last_separator(path);
    let dir = parent(path);
    if cut >= 0 {
        assert(is_separator(path[cut]));
        assert forall|at: int| !parent_at(dir, at) by {
            if parent_at(dir, at) {
                assert(parent_at(path, at));
            }
        }
    } else {
        assert forall|at: int| !parent_at(dir, at) by {}
    }
}

/// No `a` or `b` stands after the last of them.
pub proof fn lemma_reaches_last(text: Seq<char>, a: char, b: char, at: int)
    requires
        0 <= at < text.len(),
    ensures
        text[at] == a || text[at] == b ==> at <= last_of(text, a, b),
        last_of(text, a, b) < at ==> text[at] != a && text[at] != b,
    decreases text.len(),
{
    if !(text.last() == a || text.last() == b) && at < text.len() - 1 {
        lemma_reaches_last(text.drop_last(), a, b, at);
    }
}

/// The characters of `text`, in order.
pub fn chars_of(text: &str) -> (chars: Vec<char>)
    ensures
        chars@ == text@,
{
    let mut chars: Vec<char> = Vec::new();
    for c in it: text.chars()
        invariant
            it.seq() == text@,
            chars@ == it.seq().take(it.index() as int),
    {
        chars.push(c);
    }
    chars
}

/// Tells whether `c` separates path components.
pub fn separates(c: char) -> (b: bool)
    ensures
        b == is_separator(c),
{
    c == '/' || c == '\\'
}

/// Finds the last `a` or `b` among `chars`.
pub fn find_last(chars: &Vec<char>, a: char, b: char) -> (found: Option<usize>)
    ensures
        match found {
            Some(at) => at == last_of(chars@, a, b) && at < chars.len(),
            None => last_of(chars@, a, b) == -1,
        },
{
    let mut end: usize = chars.len();
    assert(chars@.take(end as int) =~= chars@);
    while end > 0
        invariant
            end <= chars.len(),
            last_of(chars@, a, b) == last_of(chars@.take(end as int), a, b),
        decreases end,
    {
        let c = chars[end - 1];
        if c == a || c == b {
            return Some(end - 1);
        }
        assert(chars@.take(end as int).drop_last() =~= chars@.take(end - 1));
        end = end - 1;
    }
    None
}

/// Tells whether an entry name is written as a directory.
pub fn is_directory_name(name: &str) -> (b: bool)
    ensures
        b == names_directory(name@),
{
    let chars = chars_of(name);
    chars.len() > 0 && chars[chars.len() - 1] == '/'
}

/// The parent directory of `path`, as text; empty where `path` has a single
/// component.
pub fn parent_of(path: &str) -> (dir: String)
    ensures
        dir@ == parent(path@),
{
    let chars = chars_of(path);
    match find_last(&chars, '/', '\\') {
        Some(at) => {
            let dir = String::from_str(path.substring_char(0, at));
            assert(dir@ =~= parent(path@));
            dir
        },
        None => {
            let dir = String::new();
            assert(dir@ =~= parent(path@));
            dir
        },
    }
}

/// `dir` and `rest` as one path, with `/` between them.
pub fn join(dir: &str, rest: &str) -> (path: String)
    ensures
        path@ == joined(dir@, rest@),
{
    proof {
        reveal_strlit("/");
    }
    let path = String::from_str(dir).concat("/").concat(rest);
    assert("/"@ =~= seq!['/']);
    assert(path@ =~= joined(dir@, rest@));
    path
}

/// Tells whether `path` stays below the directory it is resolved in.
pub fn is_confined(path: &str) -> (b: bool)
    ensures
        b == confined(path@),
{
    let chars = chars_of(path);
    let n = chars.len();
    if n > 0 && separates(chars[0]) {
        return false;
    }
    if n >= 2 && chars[1] == ':' {
        return false;
    }
    if n < 2 {
        return true;
    }
    let mut at: usize = 0;
    while at <= n - 2
        invariant
            2 <= n == chars.len(),
            chars@ == path@,
            forall|k: int| 0 <= k < at ==> !parent_at(path@, k),
        decreases n - at,
    {
        if chars[at] == '.' && chars[at + 1] == '.' && (at == 0 || separates(chars[at - 1])) && (at
            + 2 == n || separates(chars[at + 2])) {
            assert(parent_at(path@, at as int));
            return false;
        }
        at = at + 1;
    }
    true
}

} // verus!
