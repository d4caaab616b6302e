//! Trusted view of the `url` crate: validating a configured origin URL and
//! serializing the outbound URL a forwarded request is sent to. Every result
//! here is a deterministic function of the argument strings alone, so each is
//! given a name that the callers' contracts speak of.

use vstd::prelude::*;

verus! {

/// Whether `s` parses as an absolute URL whose host is present:
/// `url::Url::parse(s)` returns `Ok(u)` and `u.has_host()` holds.
pub uninterp spec fn url_ok(s: Seq<char>) -> bool;

/// The path component (`url::Url::path`) of the URL parsed from `s`;
/// meaningful only when `url_ok(s)` holds.
pub uninterp spec fn url_path_of(s: Seq<char>) -> Seq<char>;

/// The serialization (`url::Url::as_str`) of the URL parsed from `s` after
/// its path is replaced by `path` (`url::Url::set_path`) and its query by
/// `query` (`url::Url::set_query`); meaningful only when `url_ok(s)` holds.
pub uninterp spec fn url_with(s: Seq<char>, path: Seq<char>, query: Option<Seq<char>>) -> Seq<
    char,
>;

/// Relies on `url::Url::parse` and `url::Url::has_host`: decides whether `s`
/// is an absolute URL with a host. Both read only `s`, so the result is a
/// function of `s` alone.
#[verifier::external_body]
pub(crate) fn origin_is_valid(s: &str) -> (r: bool)
    ensures
        r == url_ok(s@),
{
    match url::Url::parse(s) {
        Ok(u) => u.has_host(),
        Err(_) => false,
    }
}

/// Relies on `url::Url::parse` and `url::Url::path`: returns the path
/// component of the origin URL. `parse` is deterministic, so under
/// `url_ok(s@)` it cannot fail here.
#[verifier::external_body]
pub(crate) fn origin_base_path(s: &str) -> (r: String)
    requires
        url_ok(s@),
    ensures
        r@ == url_path_of(s@),
{
    url::Url::parse(s).unwrap().path().to_string()
}

/// Combined character budget for the parts of an outbound URL. The `url`
/// crate refuses to grow a URL's serialization to 4 GiB: `set_path` and
/// `set_query` end in `to_u32(serialization.len()).unwrap()`, which panics
/// there. One character contributes at most a dozen-odd bytes to the
/// serialization (four UTF-8 bytes, tripled by percent-encoding in a path or
/// query; punycode in a host stays under that too), so capping the parts'
/// total at `0x800_0000` characters keeps every write far below the limit.
pub const MAX_URL_PART_CHARS: usize = 0x800_0000;

/// Relies on `url::Url::parse`, `url::Url::set_path`, `url::Url::set_query`
/// and `url::Url::as_str`: the serialization of the origin URL with its path
/// and query replaced. All four read only their arguments, so the result is
/// a function of the three arguments alone. The length bound keeps the
/// serialization below the 4 GiB ceiling at which `set_path` and `set_query`
/// panic (see [`MAX_URL_PART_CHARS`]).
#[verifier::external_body]
pub(crate) fn url_set_path_query(origin: &str, path: &str, query: Option<&str>) -> (r: String)
    requires
        url_ok(origin@),
        origin@.len() + path@.len() + (match query {
            Some(q) => q@.len() as int,
            None => 0int,
        }) + 2 <= MAX_URL_PART_CHARS as int,
    ensures
        r@ == url_with(
            origin@,
            path@,
            match query {
                Some(q) => Some(q@),
                None => None,
            },
        ),
{
    let mut u = url::Url::parse(origin).unwrap();
    u.set_path(path);
    u.set_query(query);
    String::from(u.as_str())
}

} // verus!
