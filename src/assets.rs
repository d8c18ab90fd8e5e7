//! Which bundled file a request path names, and its content type.
use vstd::prelude::*;
use vstd::string::StringExecFns;
use crate::text::{has_prefix, same_text, starts_with};

verus! {

/// The content type that mime_guess gives for a path by its extension.
pub uninterp spec fn mime_of(path: Seq<char>) -> Seq<char>;

/// Relies on `mime_guess::from_path(..).first_or_octet_stream()`: the first
/// content type known for the path's extension, else
/// `application/octet-stream`; a function of the path alone.
#[verifier::external_body]
fn content_type_for(path: &str) -> (r: String)
    ensures
        r@ == mime_of(path@),
{
    mime_guess::from_path(path).first_or_octet_stream().as_ref().to_string()
}

/// `s` without every leading repetition of `p`, as `str::trim_start_matches`.
pub open spec fn strip_leading(s: Seq<char>, p: Seq<char>) -> Seq<char>
    decreases s.len(),
{
    if p.len() > 0 && has_prefix(s, p) {
        strip_leading(s.subrange(p.len() as int, s.len() as int), p)
    } else {
        s
    }
}

/// The bundled file that a request path names: the path without its leading
/// slashes, and `index.html` for the root.
pub open spec fn asset_path_text(uri_path: Seq<char>) -> Seq<char> {
    let p = strip_leading(uri_path, "/"@);
    if p.len() == 0 || p == "index.html"@ {
        "index.html"@
    } else {
        p
    }
}

/// Where a built administration page lies on disk: `admin/dist/` and the
/// path after its `admin/` prefix.
pub open spec fn admin_dist_text(file_path: Seq<char>) -> Option<Seq<char>> {
    if has_prefix(file_path, "admin/"@) {
        Some("admin/dist/"@ + strip_leading(file_path, "admin/"@))
    } else {
        None
    }
}

/// `s` without every leading repetition of `p`.
pub fn strip_leading_text(s: &str, p: &str) -> (r: String)
    ensures
        r@ == strip_leading(s@, p@),
{
    let n = s.unicode_len();
    let k = p.unicode_len();
    if k == 0 {
        return String::from_str(s);
    }
    let mut i: usize = 0;
    assert(s@.subrange(0, n as int) =~= s@);
    while k <= n - i && starts_with(s.substring_char(i, n), p)
        invariant
            n == s@.len(),
            k == p@.len(),
            k > 0,
            i <= n,
            strip_leading(s@, p@) == strip_leading(s@.subrange(i as int, n as int), p@),
        decreases n - i,
    {
        proof {
            let rest = s@.subrange(i as int, n as int);
            assert(rest.subrange(k as int, rest.len() as int) =~= s@.subrange(i + k, n as int));
        }
        i = i + k;
    }
    proof {
        let rest = s@.subrange(i as int, n as int);
        if !(k <= n - i) {
            assert(!has_prefix(rest, p@));
        }
    }
    String::from_str(s.substring_char(i, n))
}

/// The bundled file that a request path names.
pub fn asset_path(uri_path: &str) -> (r: String)
    ensures
        r@ == asset_path_text(uri_path@),
{
    let p = strip_leading_text(uri_path, "/");
    if p.as_str().is_empty() || same_text(p.as_str(), "index.html") {
        String::from_str("index.html")
    } else {
        p
    }
}

/// Where a built administration page lies on disk, for paths under `admin/`.
pub fn admin_dist_path(file_path: &str) -> (r: Option<String>)
    ensures
        r matches Some(x) ==> admin_dist_text(file_path@) == Some(x@),
        r is None ==> admin_dist_text(file_path@) is None,
{
    if starts_with(file_path, "admin/") {
        let rest = strip_leading_text(file_path, "admin/");
        let mut out = String::from_str("admin/dist/");
        out.append(rest.as_str());
        Some(out)
    } else {
        None
    }
}

/// The content type under which a file is served, by its extension.
pub fn asset_content_type(file_path: &str) -> (r: String)
    ensures
        r@ == mime_of(file_path@),
{
    content_type_for(file_path)
}

} // verus!
