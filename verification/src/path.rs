//! File names and extensions of paths.
//!
//! A path is split at `/` and `\`, whatever the platform, and letters are
//! compared without regard to the case of ASCII letters. Separators and
//! `.` components at the end of a path count for nothing, and a path that
//! ends in `..` has no file name.
use crate::text::{copy_range, lemma_lowered_twice, lower, lowered, text_is, to_lower};
use vstd::prelude::*;

verus! {

/// Whether a character separates the components of a path.
pub open spec fn is_separator(c: char) -> bool {
    c == '/' || c == '\\'
}

/// Where the last component begins among the first `n` characters: behind
/// the last separator, or at the start.
pub open spec fn name_start(path: Seq<char>, n: int) -> int
    decreases n,
{
    if n <= 0 {
        0
    } else if is_separator(path[n - 1]) {
        n
    } else {
        name_start(path, n - 1)
    }
}

/// Where the last component ends among the first `n` characters, once
/// the separators and the `.` components at the end are left off.
pub open spec fn name_end(path: Seq<char>, n: int) -> int
    decreases n,
{
    if n <= 0 {
        0
    } else if is_separator(path[n - 1]) {
        name_end(path, n - 1)
    } else if path[n - 1] == '.' && (n == 1 || is_separator(path[n - 2])) {
        name_end(path, n - 1)
    } else {
        n
    }
}

/// The last component of a path.
pub open spec fn last_component(path: Seq<char>) -> Seq<char> {
    let end = name_end(path, path.len() as int);
    path.subrange(name_start(path, end), end)
}

/// The file name of a path: its last component, unless that is `..`.
pub open spec fn file_name(path: Seq<char>) -> Seq<char> {
    if last_component(path) == ".."@ {
        Seq::empty()
    } else {
        last_component(path)
    }
}

/// The place of the last dot among the first `n` characters; -1 if there is none.
pub open spec fn last_dot(name: Seq<char>, n: int) -> int
    decreases n,
{
    if n <= 0 {
        -1
    } else if name[n - 1] == '.' {
        n - 1
    } else {
        last_dot(name, n - 1)
    }
}

/// The extension of a file name: what stands behind its last dot, in lower
/// case. A name without a dot, and a name whose only dot is its first
/// character, has the empty extension.
pub open spec fn name_extension(name: Seq<char>) -> Seq<char> {
    let dot = last_dot(name, name.len() as int);
    if dot <= 0 {
        Seq::empty()
    } else {
        lowered(name.subrange(dot + 1, name.len() as int))
    }
}

/// The extension of a path: that of its file name.
pub open spec fn extension(path: Seq<char>) -> Seq<char> {
    name_extension(file_name(path))
}

/// The file name of a path.
pub fn path_file_name(path: &[char]) -> (r: Vec<char>)
    ensures
        r@ == file_name(path@),
{
    let mut end: usize = path.len();
    while end > 0 && (path[end - 1] == '/' || path[end - 1] == '\\' || (path[end - 1] == '.' && (end
        == 1 || path[end - 2] == '/' || path[end - 2] == '\\')))
        invariant
            end <= path.len(),
            name_end(path@, end as int) == name_end(path@, path.len() as int),
        decreases end,
    {
        end -= 1;
    }
    let mut n: usize = end;
    while n > 0 && !(path[n - 1] == '/' || path[n - 1] == '\\')
        invariant
            n <= end <= path.len(),
            name_start(path@, n as int) == name_start(path@, end as int),
        decreases n,
    {
        n -= 1;
    }
    let name = copy_range(path, n, end);
    if text_is(name.as_slice(), "..") {
        Vec::new()
    } else {
        name
    }
}

/// The extension of a file name, in lower case.
pub fn file_name_extension(name: &[char]) -> (r: Vec<char>)
    ensures
        r@ == name_extension(name@),
{
    let mut n: usize = name.len();
    while n > 0 && name[n - 1] != '.'
        invariant
            n <= name.len(),
            last_dot(name@, n as int) == last_dot(name@, name.len() as int),
        decreases n,
    {
        n -= 1;
    }
    if n <= 1 {
        return Vec::new();
    }
    let tail = copy_range(name, n, name.len());
    to_lower(tail.as_slice())
}

/// The extension of a path, in lower case.
pub fn path_extension(path: &[char]) -> (r: Vec<char>)
    ensures
        r@ == extension(path@),
{
    let name = path_file_name(path);
    file_name_extension(name.as_slice())
}

proof fn lemma_name_start_ignores_case(path: Seq<char>, n: int)
    requires
        0 <= n <= path.len(),
    ensures
        name_start(lowered(path), n) == name_start(path, n),
        0 <= name_start(path, n) <= n,
    decreases n,
{
    if n > 0 {
        lemma_name_start_ignores_case(path, n - 1);
    }
}

proof fn lemma_last_dot_ignores_case(name: Seq<char>, n: int)
    requires
        0 <= n <= name.len(),
    ensures
        last_dot(lowered(name), n) == last_dot(name, n),
        -1 <= last_dot(name, n) < n,
    decreases n,
{
    if n > 0 {
        lemma_last_dot_ignores_case(name, n - 1);
    }
}

proof fn lemma_name_end_ignores_case(path: Seq<char>, n: int)
    requires
        0 <= n <= path.len(),
    ensures
        name_end(lowered(path), n) == name_end(path, n),
        0 <= name_end(path, n) <= n,
    decreases n,
{
    if n > 0 {
        lemma_name_end_ignores_case(path, n - 1);
        assert(lowered(path)[n - 1] == lower(path[n - 1]));
        if n > 1 {
            assert(lowered(path)[n - 2] == lower(path[n - 2]));
        }
    }
}

/// The file name of a path in lower case is the file name in lower case.
pub proof fn lemma_file_name_in_lower_case(path: Seq<char>)
    ensures
        file_name(lowered(path)) == lowered(file_name(path)),
{
    let n = path.len() as int;
    lemma_name_end_ignores_case(path, n);
    let end = name_end(path, n);
    lemma_name_start_ignores_case(path, end);
    let name = last_component(path);
    assert(last_component(lowered(path)) =~= lowered(name));
    reveal_strlit("..");
    if name == ".."@ {
        assert(lowered(name) =~= ".."@);
        assert(lowered(Seq::<char>::empty()) =~= Seq::<char>::empty());
    } else if lowered(name) == ".."@ {
        assert(lowered(name)[0] == lower(name[0]));
        assert(lowered(name)[1] == lower(name[1]));
        assert(name =~= ".."@);
    }
}

/// The extension of a path does not depend on the case of its letters, and
/// is itself in lower case.
pub proof fn lemma_extension_ignores_case(path: Seq<char>)
    ensures
        extension(lowered(path)) == extension(path),
        lowered(extension(path)) == extension(path),
{
    lemma_file_name_in_lower_case(path);
    let name = file_name(path);
    let m = name.len() as int;
    lemma_last_dot_ignores_case(name, m);
    let dot = last_dot(name, m);
    if dot > 0 {
        let tail = name.subrange(dot + 1, m);
        assert(lowered(name).subrange(dot + 1, m) =~= lowered(tail));
        lemma_lowered_twice(tail);
    } else {
        assert(lowered(Seq::<char>::empty()) =~= Seq::<char>::empty());
    }
}

} // verus!
