//! Paths as texts: a name below a directory, and the extension of a file
//! name.

use crate::text::{push_chars, to_chars};
use vstd::prelude::*;

verus! {

/// The path of `name` below the directory `dir`: the two joined by one `/`,
/// which an empty `dir` or one that ends in `/` does not need.
pub open spec fn path_below(dir: Seq<char>, name: Seq<char>) -> Seq<char> {
    if dir.len() == 0 || dir.last() == '/' {
        dir + name
    } else {
        dir + seq!['/'] + name
    }
}

/// The path of `name` below the directory `dir`.
pub fn child_path(dir: &str, name: &str) -> (path: String)
    ensures
        path@ == path_below(dir@, name@),
{
    let chars = to_chars(dir);
    let mut path = String::from_str(dir);
    if chars.len() > 0 && chars[chars.len() - 1] != '/' {
        path.push('/');
    }
    path.append(name);
    path
}

/// Whether the `.` at position `dot` opens the extension of `path`: nothing
/// after it is a `.` or a `/`, and it is not the first character of its
/// path component.
pub open spec fn opens_extension(path: Seq<char>, dot: int) -> bool {
    &&& 0 < dot < path.len()
    &&& path[dot] == '.'
    &&& path[dot - 1] != '/'
    &&& forall|j: int| dot < j < path.len() ==> path[j] != '.' && path[j] != '/'
}

/// The extension of a path: what follows the last `.` of its last
/// component. A component without a `.`, or whose only `.` is its first
/// character, has none.
pub open spec fn extension(path: Seq<char>) -> Option<Seq<char>> {
    if exists|dot: int| opens_extension(path, dot) {
        let dot = choose|dot: int| opens_extension(path, dot);
        Some(path.skip(dot + 1))
    } else {
        None
    }
}

/// At most one `.` opens the extension.
pub proof fn lemma_extension_dot_unique(path: Seq<char>, a: int, b: int)
    requires
        opens_extension(path, a),
        opens_extension(path, b),
    ensures
        a == b,
{
}

/// The extension of a path, as `extension` states it.
pub fn file_extension(path: &str) -> (ext: Option<String>)
    ensures
        match ext {
            Some(e) => extension(path@) == Some(e@),
            None => extension(path@) is None,
        },
{
    let chars = to_chars(path);
    let n = chars.len();
    let mut i: usize = n;
    while i > 0
        invariant
            i <= n,
            n == chars.len(),
            chars@ == path@,
            forall|j: int| i <= j < n ==> chars@[j] != '.' && chars@[j] != '/',
        decreases i,
    {
        let c = chars[i - 1];
        if c == '/' {
            assert forall|dot: int| !opens_extension(path@, dot) by {
                if opens_extension(path@, dot) {
                    if dot < i - 1 {
                        assert(path@[i - 1] == '/');
                    }
                }
            }
            return None;
        }
        if c == '.' {
            let first = i == 1 || chars[i - 2] == '/';
            if first {
                assert forall|dot: int| !opens_extension(path@, dot) by {
                    if opens_extension(path@, dot) {
                        if dot < i - 1 {
                            assert(path@[i - 1] == '.');
                        }
                    }
                }
                return None;
            }
            assert(opens_extension(path@, i - 1));
            proof {
                let dot = choose|dot: int| opens_extension(path@, dot);
                lemma_extension_dot_unique(path@, dot, i - 1);
            }
            let mut out = String::new();
            push_chars(&mut out, &chars, i, n);
            assert(out@ =~= path@.skip(i as int));
            return Some(out);
        }
        i -= 1;
    }
    assert forall|dot: int| !opens_extension(path@, dot) by {}
    None
}

} // verus!
