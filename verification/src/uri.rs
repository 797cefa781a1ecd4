//! Resolving a request path against the session's base address.

use vstd::prelude::*;
use vstd::string::StrSliceExecFns;
use vstd::string::StringExecFns;

verus! {

/// The URI-join rule: an empty path leaves the base address unchanged; a
/// path with a leading slash is appended directly; any other path is
/// appended behind a single `/`.  No further normalization takes place.
pub open spec fn spec_join(base: Seq<char>, path: Seq<char>) -> Seq<char> {
    if path.len() == 0 {
        base
    } else if path[0] == '/' {
        base + path
    } else {
        base + seq!['/'] + path
    }
}

/// Resolve `path` against `base` by the URI-join rule.
pub fn build_request_path(base: &str, path: &str) -> (r: String)
    ensures
        r@ == spec_join(base@, path@),
{
    if path.is_empty() {
        return base.to_owned();
    }
    if path.get_char(0) == '/' {
        let mut s = base.to_owned();
        s.append(path);
        return s;
    }
    let mut s = base.to_owned();
    s.append("/");
    s.append(path);
    proof {
        reveal_strlit("/");
        assert("/"@ =~= seq!['/']);
        assert(s@ =~= base@ + seq!['/'] + path@);
    }
    s
}

} // verus!
