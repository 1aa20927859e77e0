//! Locating the model files relative to an installation root.

use vstd::prelude::*;
use vstd::string::*;

verus! {

/// True when `path` names a location from the file-system root.
pub open spec fn is_absolute(path: Seq<char>) -> bool {
    path.len() > 0 && path[0] == '/'
}

/// The path that results from extending `root` by `path`, as Unix paths
/// join: an absolute `path` replaces `root`; otherwise the two are put
/// together with exactly one separator between them, and none is added
/// to an empty `root` or to one that already ends in a separator.
pub open spec fn joined_path(root: Seq<char>, path: Seq<char>) -> Seq<char> {
    if is_absolute(path) {
        path
    } else if root.len() == 0 || root.last() == '/' {
        root + path
    } else {
        root + seq!['/'] + path
    }
}

/// Resolves `path` against the installation root `root`.
pub fn file_path(root: &str, path: &str) -> (abs_path: String)
    ensures
        abs_path@ == joined_path(root@, path@),
{
    let path_len: usize = path.unicode_len();
    if path_len > 0 && path.get_char(0) == '/' {
        return String::from_str(path);
    }
    let root_len: usize = root.unicode_len();
    let mut abs_path = String::from_str(root);
    if root_len > 0 && root.get_char(root_len - 1) != '/' {
        proof {
            reveal_strlit("/");
            assert("/"@ =~= seq!['/']);
        }
        abs_path.append("/");
    }
    abs_path.append(path);
    abs_path
}

} // verus!
