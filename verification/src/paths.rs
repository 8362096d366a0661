//! File names and extensions of project paths.

use vstd::prelude::*;

use crate::text::str_chars;

verus! {

/// The final component of `path`, as `std::path::Path::file_name` gives it.
pub uninterp spec fn path_file_name(path: Seq<char>) -> Option<Seq<char>>;

/// Calls `std::path::Path::file_name` on `path` and turns the component back into a
/// `String` (a component of a `&str` path is always valid UTF-8). The contract names the
/// outcome, a function of the path alone; the parsing of path components is left unsaid.
#[verifier::external_body]
fn path_file_name_of(path: &str) -> (r: Option<String>)
    ensures
        match r {
            Some(n) => path_file_name(path@) == Some(n@),
            None => path_file_name(path@) is None,
        },
{
    std::path::Path::new(path).file_name().and_then(|n| n.to_str()).map(|n| n.to_string())
}

/// The final component of `path`, if it has one.
pub fn file_name(path: &str) -> (r: Option<String>)
    ensures
        match r {
            Some(n) => path_file_name(path@) == Some(n@),
            None => path_file_name(path@) is None,
        },
{
    path_file_name_of(path)
}

/// The index of the last `c` in `s`.
pub open spec fn last_index_of(s: Seq<char>, c: char) -> Option<int>
    decreases s.len(),
{
    if s.len() == 0 {
        None
    } else if s.last() == c {
        Some(s.len() - 1)
    } else {
        last_index_of(s.drop_last(), c)
    }
}

/// The extension of a file name, as `Path::extension` documents it: the text after the
/// last `.`, unless the name has no `.`, or its only `.` is the first character, or the
/// name is `..`.
pub open spec fn extension_of_name(f: Seq<char>) -> Option<Seq<char>> {
    if f == seq!['.', '.'] {
        None
    } else {
        match last_index_of(f, '.') {
            Some(i) => if i > 0 {
                Some(f.skip(i + 1))
            } else {
                None
            },
            None => None,
        }
    }
}

/// The extension of `path`: that of its final component.
pub open spec fn path_extension(path: Seq<char>) -> Option<Seq<char>> {
    match path_file_name(path) {
        Some(f) => extension_of_name(f),
        None => None,
    }
}

/// The extension of a file name.
pub fn name_extension(name: &str) -> (r: Option<Vec<char>>)
    ensures
        match r {
            Some(e) => extension_of_name(name@) == Some(e@),
            None => extension_of_name(name@) is None,
        },
{
    let cs = str_chars(name);
    if cs.len() == 2 && cs[0] == '.' && cs[1] == '.' {
        assert(cs@ =~= seq!['.', '.']);
        return None;
    }
    assert(cs@ != seq!['.', '.']) by {
        if cs@ == seq!['.', '.'] {
            assert(cs@[0] == '.' && cs@[1] == '.');
        }
    }
    let mut i: usize = cs.len();
    assert(cs@.take(i as int) =~= cs@);
    while i > 0
        invariant
            i <= cs.len(),
            cs@ != seq!['.', '.'],
            cs@ == name@,
            last_index_of(cs@, '.') == last_index_of(cs@.take(i as int), '.'),
        decreases i,
    {
        assert(cs@.take(i as int).drop_last() =~= cs@.take(i - 1));
        if cs[i - 1] == '.' {
            assert(cs@.take(i as int).last() == cs@[i - 1]);
            if i - 1 == 0 {
                return None;
            }
            let mut ext: Vec<char> = Vec::new();
            let mut k: usize = i;
            while k < cs.len()
                invariant
                    i <= k <= cs.len(),
                    ext@ == cs@.subrange(i as int, k as int),
                decreases cs.len() - k,
            {
                ext.push(cs[k]);
                k += 1;
                assert(ext@ =~= cs@.subrange(i as int, k as int));
            }
            assert(ext@ =~= cs@.skip(i as int));
            return Some(ext);
        }
        i -= 1;
    }
    None
}

/// The extension of `path`, if it has one.
pub fn extension(path: &str) -> (r: Option<Vec<char>>)
    ensures
        match r {
            Some(e) => path_extension(path@) == Some(e@),
            None => path_extension(path@) is None,
        },
{
    match file_name(path) {
        Some(f) => name_extension(f.as_str()),
        None => None,
    }
}

} // verus!
