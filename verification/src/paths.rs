//! Filesystem paths as strings, joined the way `std::path::Path::join` joins
//! them on Unix.
use vstd::prelude::*;
use vstd::string::{StrSliceExecFns, StringExecFns};

verus! {

/// `base` joined with `name`: an absolute `name` replaces `base`; otherwise a
/// `/` separates them unless `base` is empty or already ends with one.
pub open spec fn path_join(base: Seq<char>, name: Seq<char>) -> Seq<char> {
    if name.len() > 0 && name[0] == '/' {
        name
    } else if base.len() == 0 || base.last() == '/' {
        base + name
    } else {
        base + seq!['/'] + name
    }
}

/// `Path::new(base).join(name)`.
pub fn join_path(base: &str, name: &str) -> (r: String)
    ensures
        r@ == path_join(base@, name@),
{
    if name.unicode_len() > 0 && name.get_char(0) == '/' {
        return name.to_owned();
    }
    let mut r = base.to_owned();
    let n = base.unicode_len();
    if n == 0 || base.get_char(n - 1) == '/' {
        r.append(name);
        return r;
    }
    proof {
        reveal_strlit("/");
        assert("/"@ =~= seq!['/']);
    }
    let ghost b = r@;
    r.append("/");
    r.append(name);
    assert(b == base@);
    assert(r@ =~= base@ + seq!['/'] + name@);
    r
}

/// The parent directory `std::path::Path::parent` gives for a path: `None`
/// for a root or an empty path.
pub uninterp spec fn unix_path_parent(path: Seq<char>) -> Option<Seq<char>>;

/// `Path::new(path).parent()`, as a string. The parent of a string path is
/// a prefix of it, so it is a string too; it is named, not stated.
#[verifier::external_body]
pub(crate) fn path_parent(path: &str) -> (r: Option<String>)
    ensures
        match r {
            Some(p) => unix_path_parent(path@) == Some(p@),
            None => unix_path_parent(path@) is None,
        },
{
    std::path::Path::new(path).parent().and_then(|p| p.to_str()).map(str::to_owned)
}

} // verus!
