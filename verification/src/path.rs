//! Paths as text: components separated by `/`.

use vstd::prelude::*;
use vstd::string::*;

verus! {

/// The path that `part` names when it is looked up from `base`.
///
/// An empty `part` names `base` itself, an absolute `part` names itself, and
/// any other `part` is appended to `base` behind exactly one separator.
pub open spec fn joined(base: Seq<char>, part: Seq<char>) -> Seq<char> {
    if part.len() == 0 {
        base
    } else if part[0] == '/' {
        part
    } else if base.len() == 0 || base.last() == '/' {
        base + part
    } else {
        base.push('/') + part
    }
}

/// Joins `part` onto `base`.
pub fn join(base: &str, part: &str) -> (path: String)
    ensures
        path@ == joined(base@, part@),
{
    if part.is_empty() {
        return String::from_str(base);
    }
    if part.get_char(0) == '/' {
        return String::from_str(part);
    }
    let mut path = String::from_str(base);
    let n: usize = base.unicode_len();
    if n > 0 && base.get_char(n - 1) != '/' {
        proof {
            reveal_strlit("/");
        }
        path.append("/");
        assert(path@ =~= base@.push('/'));
    }
    path.append(part);
    path
}

} // verus!
