//! Which documents are `control` files.

use vstd::prelude::*;
use vstd::string::*;
use crate::strings::ends_with;

verus! {

/// The path component of the URI `uri`, as `Url::path` of the `url` crate
/// gives it for what `Url::parse` makes of `uri`; `None` where `uri` is no
/// absolute URL.
pub uninterp spec fn uri_path_of(uri: Seq<char>) -> Option<Seq<char>>;

/// The view of an optional owned string.
pub open spec fn opt_string_view(s: Option<String>) -> Option<Seq<char>> {
    match s {
        Some(t) => Some(t@),
        None => None,
    }
}

/// Calls `Url::parse` and, on what it accepts, `Url::path`. Trusted: the
/// result is the path that the `url` crate finds in `uri`, a function of the
/// text of `uri` alone, and `None` exactly where the crate rejects `uri`.
#[verifier::external_body]
pub(crate) fn uri_path(uri: &str) -> (path: Option<String>)
    ensures
        opt_string_view(path) == uri_path_of(uri@),
{
    match tower_lsp::lsp_types::Url::parse(uri) {
        Ok(url) => Some(url.path().to_string()),
        Err(_) => None,
    }
}

/// A path names a `control` file: it ends with `/control`.
pub open spec fn control_path(path: Seq<char>) -> bool {
    ends_with(path, "/control"@)
}

/// A URI names a `control` file: it has a path, which ends with `/control`.
pub open spec fn control_uri(uri: Seq<char>) -> bool {
    match uri_path_of(uri) {
        Some(path) => control_path(path),
        None => false,
    }
}

/// Whether the path of a URI is that of a `control` file.
pub fn is_control_path(path: &str) -> (r: bool)
    ensures
        r == control_path(path@),
{
    let suffix = "/control";
    proof {
        reveal_strlit("/control");
    }
    let n: usize = path.unicode_len();
    if n < 8 {
        return false;
    }
    let mut k: usize = 0;
    while k < 8
        invariant
            k <= 8,
            n == path@.len(),
            n >= 8,
            suffix@ == "/control"@,
            suffix@.len() == 8,
            forall|j: int| 0 <= j < k ==> path@[n - 8 + j] == suffix@[j],
        decreases 8 - k,
    {
        if path.get_char(n - 8 + k) != suffix.get_char(k) {
            assert(path@.subrange(n - 8, n as int)[k as int] == path@[n - 8 + k]);
            return false;
        }
        k = k + 1;
    }
    assert(path@.subrange(n - 8, n as int) =~= suffix@);
    true
}

/// Whether a URI names a Debian `control` file. A string that is no
/// absolute URL names none.
pub fn is_control_file(uri: &str) -> (r: bool)
    ensures
        r == control_uri(uri@),
{
    match uri_path(uri) {
        Some(path) => is_control_path(path.as_str()),
        None => false,
    }
}

}
