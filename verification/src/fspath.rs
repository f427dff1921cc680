//! Joining directory and file paths, and the one filesystem probe the asset
//! directories need.

use vstd::prelude::*;

verus! {

/// What joining a relative path onto a base directory yields: the relative
/// path alone when it is absolute, otherwise the two with exactly one `/`
/// between them.
pub open spec fn path_join(base: Seq<char>, rel: Seq<char>) -> Seq<char> {
    if rel.len() > 0 && rel[0] == '/' {
        rel
    } else if base.len() == 0 {
        rel
    } else if base[base.len() - 1] == '/' {
        base + rel
    } else {
        base + "/"@ + rel
    }
}

/// Joins a relative path onto a base directory.
pub fn path_join_str(base: &str, rel: &str) -> (r: String)
    ensures
        r@ == path_join(base@, rel@),
{
    let bl = base.unicode_len();
    let rl = rel.unicode_len();
    if rl > 0 && rel.get_char(0) == '/' {
        rel.to_owned()
    } else if bl == 0 {
        rel.to_owned()
    } else if base.get_char(bl - 1) == '/' {
        let mut s = base.to_owned();
        s.append(rel);
        s
    } else {
        let mut s = base.to_owned();
        s.append("/");
        s.append(rel);
        s
    }
}

/// Relies on `std::path::Path::exists`. Whether a file is present depends on
/// the machine's filesystem at the moment of the call, so nothing is promised
/// of the result.
#[verifier::external_body]
pub(crate) fn path_exists(path: &str) -> bool {
    std::path::Path::new(path).exists()
}

} // verus!
