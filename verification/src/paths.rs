//! Paths and addresses as text: which names may stand as one part of a path,
//! and how a name is put under a directory.

use vstd::prelude::*;
use vstd::string::*;
use crate::text::chars_of;

verus! {

/// `name` can stand as one part of a path and stays below the directory that
/// it is put under: it is not empty, is neither `.` nor `..`, and holds no `/`
/// and no NUL.
pub open spec fn is_safe_name(name: Seq<char>) -> bool {
    &&& name.len() > 0
    &&& name != seq!['.']
    &&& name != seq!['.', '.']
    &&& !name.contains('/')
    &&& !name.contains('\0')
}

/// The path of `name` under the directory `root`: the two joined by one `/`,
/// which is left out where `root` ends in one; and `name` alone where `root`
/// is empty.
pub open spec fn joined(root: Seq<char>, name: Seq<char>) -> Seq<char> {
    if root.len() == 0 {
        name
    } else if root.last() == '/' {
        root + name
    } else {
        root + seq!['/'] + name
    }
}

/// Whether `name` can stand as one part of a path.
pub fn check_name(name: &str) -> (safe: bool)
    ensures
        safe == is_safe_name(name@),
{
    let chars = chars_of(name);
    if chars.len() == 0 {
        return false;
    }
    if chars.len() == 1 && chars[0] == '.' {
        assert(name@ =~= seq!['.']);
        return false;
    }
    if chars.len() == 2 && chars[0] == '.' && chars[1] == '.' {
        assert(name@ =~= seq!['.', '.']);
        return false;
    }
    let mut i: usize = 0;
    while i < chars.len()
        invariant
            i <= chars.len(),
            chars@ == name@,
            forall|k: int| 0 <= k < i ==> name@[k] != '/' && name@[k] != '\0',
        decreases chars.len() - i,
    {
        if chars[i] == '/' || chars[i] == '\0' {
            return false;
        }
        i += 1;
    }
    proof {
        if name@ == seq!['.'] {
            assert(name@[0] == '.');
        }
        if name@ == seq!['.', '.'] {
            assert(name@[0] == '.' && name@[1] == '.');
        }
    }
    true
}

/// The last character of `s`, if it has one.
fn last_char(s: &str) -> (last: Option<char>)
    ensures
        s@.len() == 0 ==> last is None,
        s@.len() > 0 ==> last == Some(s@.last()),
{
    let mut last: Option<char> = None;
    for c in it: s.chars()
        invariant
            it.seq() == s@,
            it.index() == 0 ==> last is None,
            it.index() > 0 ==> last == Some(s@[it.index() - 1]),
    {
        last = Some(c);
    }
    last
}

/// The path of `name` under the directory `root`.
pub fn join(root: &str, name: &str) -> (path: String)
    ensures
        path@ == joined(root@, name@),
{
    match last_char(root) {
        None => {
            assert(root@ + name@ =~= name@);
            String::from_str(name)
        },
        Some(c) => {
            let mut path = String::from_str(root);
            if c != '/' {
                proof {
                    reveal_strlit("/");
                    assert("/"@ =~= seq!['/']);
                }
                path.append("/");
            }
            path.append(name);
            path
        },
    }
}

/// Whether `path` starts at the root of the file system.
pub fn is_absolute(path: &str) -> (yes: bool)
    ensures
        yes == (path@.len() > 0 && path@[0] == '/'),
{
    let mut rest = path.chars();
    match rest.next() {
        Some(c) => c == '/',
        None => false,
    }
}

} // verus!
