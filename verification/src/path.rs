//! File names, stems and extensions of `/`-separated paths.
//!
//! A path is plain text here, with `/` between its components. Empty
//! components and components `.` do not count, so separators and `.` at the
//! end of a path are passed over. The file name of a path is its last
//! component that counts; a path without such a component, or with `..` as
//! that component, has none.

use vstd::prelude::*;
use vstd::string::*;

verus! {

/// Position of the last occurrence of `c` in `s`.
pub open spec fn last_position(s: Seq<char>, c: char) -> Option<int>
    decreases s.len(),
{
    if s.len() == 0 {
        None
    } else if s.last() == c {
        Some(s.len() - 1)
    } else {
        last_position(s.drop_last(), c)
    }
}

/// Whether `path` ends in a separator or in a component `.`.
pub open spec fn ends_in_passed_over(path: Seq<char>) -> bool {
    path.len() > 0 && (path.last() == '/' || (path.last() == '.' && (path.len() == 1
        || path[path.len() - 2] == '/')))
}

/// `path` without the separators and components `.` at its end.
pub open spec fn trimmed(path: Seq<char>) -> Seq<char>
    decreases path.len(),
{
    if ends_in_passed_over(path) {
        trimmed(path.drop_last())
    } else {
        path
    }
}

/// What follows the last `/` of `path`; the whole of `path` if it holds none.
pub open spec fn last_component(path: Seq<char>) -> Seq<char> {
    match last_position(path, '/') {
        Some(i) => path.subrange(i + 1, path.len() as int),
        None => path,
    }
}

/// The file name of `path`: its last component that is neither empty nor
/// `.`, unless there is none or it is `..`.
pub open spec fn file_name_of(path: Seq<char>) -> Option<Seq<char>> {
    let name = last_component(trimmed(path));
    if name.len() == 0 || name == seq!['.', '.'] {
        None
    } else {
        Some(name)
    }
}

/// Whether `path` names a file.
pub open spec fn has_file_name(path: Seq<char>) -> bool {
    file_name_of(path) is Some
}

/// Position of the dot that separates stem and extension in a file name: the
/// last dot, unless it is the first character.
pub open spec fn extension_dot(name: Seq<char>) -> Option<int> {
    match last_position(name, '.') {
        Some(i) => if i > 0 { Some(i) } else { None },
        None => None,
    }
}

/// The extension of `path`: what follows the last dot of its file name.
/// There is none if the path has no file name, if the file name holds no dot,
/// or if its only dot comes first.
pub open spec fn extension_of(path: Seq<char>) -> Option<Seq<char>> {
    match file_name_of(path) {
        Some(name) => match extension_dot(name) {
            Some(i) => Some(name.subrange(i + 1, name.len() as int)),
            None => None,
        },
        None => None,
    }
}

/// The stem of `path`: its file name without the extension and the dot
/// before it.
pub open spec fn file_stem_of(path: Seq<char>) -> Option<Seq<char>> {
    match file_name_of(path) {
        Some(name) => match extension_dot(name) {
            Some(i) => Some(name.subrange(0, i)),
            None => Some(name),
        },
        None => None,
    }
}

/// `last_position` finds an occurrence, and nothing occurs after it.
pub proof fn lemma_last_position(s: Seq<char>, c: char)
    ensures
        match last_position(s, c) {
            Some(i) => 0 <= i < s.len() && s[i] == c && (forall|j: int|
                i < j < s.len() ==> s[j] != c),
            None => forall|j: int| 0 <= j < s.len() ==> s[j] != c,
        },
    decreases s.len(),
{
    if s.len() > 0 && s.last() != c {
        let front = s.drop_last();
        lemma_last_position(front, c);
        match last_position(front, c) {
            Some(i) => {
                assert forall|j: int| i < j < s.len() implies s[j] != c by {
                    if j < front.len() {
                        assert(front[j] == s[j]);
                    }
                }
            },
            None => {
                assert forall|j: int| 0 <= j < s.len() implies s[j] != c by {
                    if j < front.len() {
                        assert(front[j] == s[j]);
                    }
                }
            },
        }
    }
}

/// An occurrence with nothing after it is the one `last_position` finds.
pub proof fn lemma_last_position_is(s: Seq<char>, c: char, i: int)
    requires
        0 <= i < s.len(),
        s[i] == c,
        forall|j: int| i < j < s.len() ==> s[j] != c,
    ensures
        last_position(s, c) == Some(i),
    decreases s.len(),
{
    if s.last() != c {
        lemma_last_position_is(s.drop_last(), c, i);
    }
}

/// Where `c` does not occur, `last_position` finds nothing.
pub proof fn lemma_last_position_none(s: Seq<char>, c: char)
    requires
        forall|j: int| 0 <= j < s.len() ==> s[j] != c,
    ensures
        last_position(s, c) is None,
    decreases s.len(),
{
    if s.len() > 0 {
        lemma_last_position_none(s.drop_last(), c);
    }
}

/// A file name is a component that counts: it is not empty, holds no
/// separator and is neither `.` nor `..`.
pub proof fn lemma_file_name_counts(path: Seq<char>)
    ensures
        match file_name_of(path) {
            Some(name) => name.len() > 0 && name != seq!['.'] && name != seq!['.', '.'] && (
            forall|j: int| 0 <= j < name.len() ==> name[j] != '/'),
            None => true,
        },
{
    let cut = trimmed(path);
    lemma_trimmed(path);
    lemma_last_position(cut, '/');
    if file_name_of(path) is Some {
        let name = last_component(cut);
        if name == seq!['.'] {
            assert(name.len() == 1 && name[0] == '.');
            assert(cut.last() == name[0]);
            if cut.len() > 1 {
                let at = last_position(cut, '/');
                assert(at == Some(cut.len() - 2));
            }
            assert(ends_in_passed_over(cut));
        }
    }
}

/// What `trimmed` gives does not end in a separator or a component `.`, and
/// is the beginning of the path.
pub proof fn lemma_trimmed(path: Seq<char>)
    ensures
        !ends_in_passed_over(trimmed(path)),
        trimmed(path).len() <= path.len(),
        trimmed(path) == path.take(trimmed(path).len() as int),
    decreases path.len(),
{
    if ends_in_passed_over(path) {
        let front = path.drop_last();
        lemma_trimmed(front);
        assert(front.take(trimmed(front).len() as int) =~= path.take(trimmed(front).len() as int));
    } else {
        assert(path.take(path.len() as int) =~= path);
    }
}

/// Finds the last occurrence of `c` among the first `len` characters of `s`,
/// where `len` is the number of characters of `s`.
fn rfind_char(s: &str, len: usize, c: char) -> (r: Option<usize>)
    requires
        len == s@.len(),
    ensures
        match r {
            Some(i) => i < len && last_position(s@, c) == Some(i as int),
            None => last_position(s@, c) is None,
        },
{
    let mut i: usize = len;
    while i > 0
        invariant
            i <= len,
            len == s@.len(),
            forall|j: int| i <= j < len ==> s@[j] != c,
        decreases i,
    {
        i = i - 1;
        if s.get_char(i) == c {
            proof {
                lemma_last_position_is(s@, c, i as int);
            }
            return Some(i);
        }
    }
    proof {
        lemma_last_position_none(s@, c);
    }
    None
}

/// Whether the first `end` characters of `path` end in a separator or in a
/// component `.`.
fn passed_over_at(path: &str, end: usize) -> (r: bool)
    requires
        end <= path@.len(),
    ensures
        r == ends_in_passed_over(path@.take(end as int)),
{
    if end == 0 {
        return false;
    }
    let last = path.get_char(end - 1);
    if last == '/' {
        true
    } else if last == '.' {
        end == 1 || path.get_char(end - 2) == '/'
    } else {
        false
    }
}

/// The number of characters of `path` before the separators and components
/// `.` at its end.
fn trimmed_len(path: &str, len: usize) -> (end: usize)
    requires
        len == path@.len(),
    ensures
        end <= len,
        trimmed(path@) == path@.take(end as int),
{
    let mut end: usize = len;
    assert(path@.take(len as int) =~= path@);
    while passed_over_at(path, end)
        invariant
            end <= len,
            len == path@.len(),
            trimmed(path@) == trimmed(path@.take(end as int)),
        decreases end,
    {
        proof {
            assert(path@.take(end as int).drop_last() =~= path@.take(end - 1));
        }
        end = end - 1;
    }
    end
}

/// The file name of `path`, if it has one.
pub fn file_name(path: &str) -> (r: Option<&str>)
    ensures
        match r {
            Some(name) => file_name_of(path@) == Some(name@),
            None => file_name_of(path@) is None,
        },
{
    let len = path.unicode_len();
    let end = trimmed_len(path, len);
    let cut = path.substring_char(0, end);
    let name = match rfind_char(cut, end, '/') {
        Some(i) => cut.substring_char(i + 1, end),
        None => cut,
    };
    let count = name.unicode_len();
    if count == 0 {
        None
    } else if count == 2 && name.get_char(0) == '.' && name.get_char(1) == '.' {
        assert(name@ =~= seq!['.', '.']);
        None
    } else {
        Some(name)
    }
}

/// The extension of `path`, if it has one.
pub fn extension(path: &str) -> (r: Option<String>)
    ensures
        match r {
            Some(e) => extension_of(path@) == Some(e@),
            None => extension_of(path@) is None,
        },
{
    match file_name(path) {
        Some(name) => {
            let len = name.unicode_len();
            match rfind_char(name, len, '.') {
                Some(i) => {
                    if i > 0 {
                        Some(name.substring_char(i + 1, len).to_owned())
                    } else {
                        None
                    }
                },
                None => None,
            }
        },
        None => None,
    }
}

/// The stem of `path`, if it has a file name.
pub fn file_stem(path: &str) -> (r: Option<String>)
    ensures
        match r {
            Some(e) => file_stem_of(path@) == Some(e@),
            None => file_stem_of(path@) is None,
        },
{
    match file_name(path) {
        Some(name) => {
            let len = name.unicode_len();
            match rfind_char(name, len, '.') {
                Some(i) => {
                    if i > 0 {
                        Some(name.substring_char(0, i).to_owned())
                    } else {
                        Some(name.to_owned())
                    }
                },
                None => Some(name.to_owned()),
            }
        },
        None => None,
    }
}

/// A path with a file name has a stem, and one with an extension has a file
/// name: stem, dot and extension make up the file name again.
pub proof fn lemma_stem_and_extension(path: Seq<char>)
    ensures
        has_file_name(path) <==> file_stem_of(path) is Some,
        extension_of(path) is Some ==> has_file_name(path),
        extension_of(path) is Some ==> file_name_of(path).unwrap() == file_stem_of(path).unwrap()
            + seq!['.'] + extension_of(path).unwrap(),
        extension_of(path) is None && has_file_name(path) ==> file_stem_of(path) == file_name_of(
            path,
        ),
{
    if file_name_of(path) is Some {
        let name = file_name_of(path).unwrap();
        lemma_last_position(name, '.');
        if extension_of(path) is Some {
            let i = extension_dot(name).unwrap();
            assert(name =~= name.subrange(0, i) + seq!['.'] + name.subrange(
                i + 1,
                name.len() as int,
            ));
        }
    }
}

} // verus!
