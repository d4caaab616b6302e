//! The reverse-proxy forwarder: builds the outbound request sent to a
//! matched proxy origin (path rewrite, query copy, hop-by-hop header
//! exclusion, client-identity headers) and the response returned to the
//! original caller (status and headers copied, `Connection` excluded).
//! The transport itself — streaming the bodies over the network — is the
//! HTTP client's work and stays outside this module.

use vstd::prelude::*;
use crate::origin::origin_base_path;
use crate::origin::origin_is_valid;
use crate::origin::url_ok;
use crate::origin::url_path_of;
use crate::origin::url_set_path_query;
use crate::origin::url_with;
use crate::origin::MAX_URL_PART_CHARS;
use crate::text::spec_trim_final_slash;
use crate::text::trim_final_slash;
use crate::routing::normalize_path;

verus! {

/// The inbound request, as plain values: method, path and query as received,
/// the request headers in order, and the peer address's IP when known.
pub struct InboundRequest {
    pub method: String,
    pub path: String,
    pub query: Option<String>,
    pub headers: Vec<(String, String)>,
    pub peer_ip: Option<String>,
}

/// The outbound request to the backend origin: method, full URL, and the
/// headers to send. The inbound body is streamed alongside it, untouched.
pub struct OutboundRequest {
    pub method: String,
    pub url: String,
    pub headers: Vec<(String, String)>,
}

/// The response returned to the original caller: the backend's status and
/// its headers with `Connection` excluded. The body is streamed alongside.
pub struct ClientResponse {
    pub status: u16,
    pub headers: Vec<(String, String)>,
}

/// A forwarding failure: the matched origin URL does not parse (never the
/// case for a table built by `build_route_table`), the outbound URL's parts
/// exceed the length budget of the URL serializer, or the transport to the
/// backend failed (connection refused, name resolution, timeout).
#[derive(Debug, Clone, PartialEq, Eq, Structural)]
pub enum ForwardError {
    InvalidOrigin,
    UrlTooLong,
    Transport,
}

/// Whether `name` is the hop-by-hop header name `Connection`, compared
/// ASCII-case-insensitively.
pub open spec fn is_connection_header(name: Seq<char>) -> bool {
    &&& name.len() == 10
    &&& (name[0] == 'c' || name[0] == 'C')
    &&& (name[1] == 'o' || name[1] == 'O')
    &&& (name[2] == 'n' || name[2] == 'N')
    &&& (name[3] == 'n' || name[3] == 'N')
    &&& (name[4] == 'e' || name[4] == 'E')
    &&& (name[5] == 'c' || name[5] == 'C')
    &&& (name[6] == 't' || name[6] == 'T')
    &&& (name[7] == 'i' || name[7] == 'I')
    &&& (name[8] == 'o' || name[8] == 'O')
    &&& (name[9] == 'n' || name[9] == 'N')
}

/// Whether `name` is the header name `X-Forwarded-For`, compared
/// ASCII-case-insensitively.
pub open spec fn is_x_forwarded_for_header(name: Seq<char>) -> bool {
    &&& name.len() == 15
    &&& (name[0] == 'x' || name[0] == 'X')
    &&& name[1] == '-'
    &&& (name[2] == 'f' || name[2] == 'F')
    &&& (name[3] == 'o' || name[3] == 'O')
    &&& (name[4] == 'r' || name[4] == 'R')
    &&& (name[5] == 'w' || name[5] == 'W')
    &&& (name[6] == 'a' || name[6] == 'A')
    &&& (name[7] == 'r' || name[7] == 'R')
    &&& (name[8] == 'd' || name[8] == 'D')
    &&& (name[9] == 'e' || name[9] == 'E')
    &&& (name[10] == 'd' || name[10] == 'D')
    &&& name[11] == '-'
    &&& (name[12] == 'f' || name[12] == 'F')
    &&& (name[13] == 'o' || name[13] == 'O')
    &&& (name[14] == 'r' || name[14] == 'R')
}

/// A header is forwarded unless it is the `Connection` header.
pub open spec fn keep_header(h: (String, String)) -> bool {
    !is_connection_header(h.0@)
}

/// A request header survives forwarding with a known peer unless it is the
/// `Connection` header or an `X-Forwarded-For` the forwarder will set anew.
pub open spec fn keep_request_header(h: (String, String)) -> bool {
    !is_connection_header(h.0@) && !is_x_forwarded_for_header(h.0@)
}

/// The forwarded copy of a header sequence: every header except
/// `Connection`, in order, duplicates kept.
pub open spec fn spec_filter_headers(hs: Seq<(String, String)>) -> Seq<(String, String)> {
    hs.filter(|h: (String, String)| keep_header(h))
}

/// The forwarded copy of the request headers when the peer is known: every
/// header except `Connection` and `X-Forwarded-For`, in order.
pub open spec fn spec_filter_request_headers(hs: Seq<(String, String)>) -> Seq<(String, String)> {
    hs.filter(|h: (String, String)| keep_request_header(h))
}

/// Decides `is_connection_header` on a header name.
pub fn is_connection_header_name(name: &str) -> (r: bool)
    ensures
        r == is_connection_header(name@),
{
    let n = name.unicode_len();
    if n != 10 {
        return false;
    }
    let c0 = name.get_char(0);
    let c1 = name.get_char(1);
    let c2 = name.get_char(2);
    let c3 = name.get_char(3);
    let c4 = name.get_char(4);
    let c5 = name.get_char(5);
    let c6 = name.get_char(6);
    let c7 = name.get_char(7);
    let c8 = name.get_char(8);
    let c9 = name.get_char(9);
    (c0 == 'c' || c0 == 'C') && (c1 == 'o' || c1 == 'O') && (c2 == 'n' || c2 == 'N') && (c3 == 'n'
        || c3 == 'N') && (c4 == 'e' || c4 == 'E') && (c5 == 'c' || c5 == 'C') && (c6 == 't' || c6
        == 'T') && (c7 == 'i' || c7 == 'I') && (c8 == 'o' || c8 == 'O') && (c9 == 'n' || c9 == 'N')
}

/// Decides `is_x_forwarded_for_header` on a header name.
pub fn is_x_forwarded_for_header_name(name: &str) -> (r: bool)
    ensures
        r == is_x_forwarded_for_header(name@),
{
    let n = name.unicode_len();
    if n != 15 {
        return false;
    }
    let c0 = name.get_char(0);
    let c1 = name.get_char(1);
    let c2 = name.get_char(2);
    let c3 = name.get_char(3);
    let c4 = name.get_char(4);
    let c5 = name.get_char(5);
    let c6 = name.get_char(6);
    let c7 = name.get_char(7);
    let c8 = name.get_char(8);
    let c9 = name.get_char(9);
    let c10 = name.get_char(10);
    let c11 = name.get_char(11);
    let c12 = name.get_char(12);
    let c13 = name.get_char(13);
    let c14 = name.get_char(14);
    (c0 == 'x' || c0 == 'X') && c1 == '-' && (c2 == 'f' || c2 == 'F') && (c3 == 'o' || c3 == 'O')
        && (c4 == 'r' || c4 == 'R') && (c5 == 'w' || c5 == 'W') && (c6 == 'a' || c6 == 'A') && (c7
        == 'r' || c7 == 'R') && (c8 == 'd' || c8 == 'D') && (c9 == 'e' || c9 == 'E') && (c10 == 'd'
        || c10 == 'D') && c11 == '-' && (c12 == 'f' || c12 == 'F') && (c13 == 'o' || c13 == 'O')
        && (c14 == 'r' || c14 == 'R')
}

/// Filtering distributes over appending one header.
proof fn lemma_filter_headers_push(hs: Seq<(String, String)>, h: (String, String))
    ensures
        spec_filter_headers(hs.push(h)) == if keep_header(h) {
            spec_filter_headers(hs).push(h)
        } else {
            spec_filter_headers(hs)
        },
{
    reveal_with_fuel(Seq::filter, 2);
    assert(hs.push(h).drop_last() =~= hs);
    assert(hs.push(h).last() == h);
    assert(spec_filter_headers(hs.push(h)) =~= (if keep_header(h) {
        spec_filter_headers(hs).push(h)
    } else {
        spec_filter_headers(hs)
    }));
}

/// Request-header filtering distributes over appending one header.
proof fn lemma_filter_request_headers_push(hs: Seq<(String, String)>, h: (String, String))
    ensures
        spec_filter_request_headers(hs.push(h)) == if keep_request_header(h) {
            spec_filter_request_headers(hs).push(h)
        } else {
            spec_filter_request_headers(hs)
        },
{
    reveal_with_fuel(Seq::filter, 2);
    assert(hs.push(h).drop_last() =~= hs);
    assert(hs.push(h).last() == h);
    assert(spec_filter_request_headers(hs.push(h)) =~= (if keep_request_header(h) {
        spec_filter_request_headers(hs).push(h)
    } else {
        spec_filter_request_headers(hs)
    }));
}

/// Copies the request headers in order for a forward with a known peer,
/// leaving out every `Connection` and every `X-Forwarded-For` header.
fn filter_request_headers(headers: &Vec<(String, String)>) -> (r: Vec<(String, String)>)
    ensures
        r@ == spec_filter_request_headers(headers@),
{
    let n = headers.len();
    let mut out: Vec<(String, String)> = Vec::new();
    let mut i: usize = 0;
    proof {
        assert(headers@.subrange(0, 0) =~= Seq::<(String, String)>::empty());
        assert(spec_filter_request_headers(headers@.subrange(0, 0)) =~= Seq::<
            (String, String),
        >::empty());
    }
    while i < n
        invariant
            i <= n,
            n == headers@.len(),
            out@ == spec_filter_request_headers(headers@.subrange(0, i as int)),
        decreases n - i,
    {
        proof {
            assert(headers@.subrange(0, i + 1) =~= headers@.subrange(0, i as int).push(
                headers@[i as int],
            ));
            lemma_filter_request_headers_push(headers@.subrange(0, i as int), headers@[i as int]);
        }
        let h = &headers[i];
        if !is_connection_header_name(h.0.as_str()) && !is_x_forwarded_for_header_name(
            h.0.as_str(),
        ) {
            out.push((h.0.clone(), h.1.clone()));
        }
        i = i + 1;
    }
    proof {
        assert(headers@.subrange(0, n as int) =~= headers@);
    }
    out
}

/// Copies `headers` in order, leaving out every `Connection` header.
pub fn filter_hop_headers(headers: &Vec<(String, String)>) -> (r: Vec<(String, String)>)
    ensures
        r@ == spec_filter_headers(headers@),
{
    let n = headers.len();
    let mut out: Vec<(String, String)> = Vec::new();
    let mut i: usize = 0;
    proof {
        assert(headers@.subrange(0, 0) =~= Seq::<(String, String)>::empty());
        assert(spec_filter_headers(headers@.subrange(0, 0)) =~= Seq::<(String, String)>::empty());
    }
    while i < n
        invariant
            i <= n,
            n == headers@.len(),
            out@ == spec_filter_headers(headers@.subrange(0, i as int)),
        decreases n - i,
    {
        proof {
            assert(headers@.subrange(0, i + 1) =~= headers@.subrange(0, i as int).push(
                headers@[i as int],
            ));
            lemma_filter_headers_push(headers@.subrange(0, i as int), headers@[i as int]);
        }
        let h = &headers[i];
        if !is_connection_header_name(h.0.as_str()) {
            out.push((h.0.clone(), h.1.clone()));
        }
        i = i + 1;
    }
    proof {
        assert(headers@.subrange(0, n as int) =~= headers@);
    }
    out
}

/// Builds the response for the original caller from the backend's status
/// and headers: the status is kept, the headers are copied in order with
/// `Connection` excluded.
pub fn build_client_response(status: u16, headers: &Vec<(String, String)>) -> (r: ClientResponse)
    ensures
        r.status == status,
        r.headers@ == spec_filter_headers(headers@),
{
    ClientResponse { status, headers: filter_hop_headers(headers) }
}

/// The HTTP status returned to the caller when the transport to the backend
/// fails: an internal server error, in the 5xx class. Forwarding is never
/// retried.
pub fn forward_failure_status() -> (r: u16)
    ensures
        r == 500,
{
    500
}

/// The HTTP status returned to the caller when no configured route covers
/// the request path.
pub fn no_match_status() -> (r: u16)
    ensures
        r == 404,
{
    404
}

/// The rewritten outbound path: the origin's base path with a final slash
/// trimmed, followed by the inbound path with the matched prefix, less its
/// final slash, stripped from the front.
pub open spec fn outbound_path(origin: Seq<char>, path: Seq<char>, prefix_len: int) -> Seq<char> {
    spec_trim_final_slash(url_path_of(origin)) + path.skip(prefix_len - 1)
}

/// The inbound query, as the forwarder copies it.
pub open spec fn spec_query(q: Option<String>) -> Option<Seq<char>> {
    match q {
        Some(s) => Some(s@),
        None => None,
    }
}

/// The length of a query, zero when there is none.
pub open spec fn spec_query_len(q: Option<Seq<char>>) -> int {
    match q {
        Some(s) => s.len() as int,
        None => 0,
    }
}

/// Whether the outbound URL's parts fit the URL serializer's length budget
/// (a machine limit, see [`MAX_URL_PART_CHARS`]).
pub open spec fn outbound_fits(origin: Seq<char>, opath: Seq<char>, query: Option<Seq<char>>) -> bool {
    origin.len() + opath.len() + spec_query_len(query) + 2 <= MAX_URL_PART_CHARS
}

/// Builds the outbound request for a request matched to a proxy origin.
///
/// The outbound URL is the origin with its path replaced by the origin's
/// base path (final slash trimmed) followed by the inbound path with the
/// matched prefix, less its final slash, stripped from the front; the
/// inbound query is copied verbatim. Inbound headers are forwarded with
/// `Connection` excluded; when the peer address is known, any inbound
/// `X-Forwarded-For` is dropped too and `X-Forwarded-For: <ip>` and
/// `Forwarded: for=<ip>` are appended; when it is unknown, neither is added.
/// Fails only when the origin URL is invalid, or when the URL's parts
/// exceed the serializer's length budget.
pub fn build_outbound(req: &InboundRequest, matched_prefix: &str, origin: &str) -> (r: Result<
    OutboundRequest,
    ForwardError,
>)
    requires
        matched_prefix@.len() >= 1,
        matched_prefix@.is_prefix_of(normalize_path(req.path@)),
    ensures
        r is Ok <==> (url_ok(origin@) && outbound_fits(
            origin@,
            outbound_path(origin@, req.path@, matched_prefix@.len() as int),
            spec_query(req.query),
        )),
        r matches Err(e) ==> e == (if url_ok(origin@) {
            ForwardError::UrlTooLong
        } else {
            ForwardError::InvalidOrigin
        }),
        r matches Ok(ob) ==> {
            &&& ob.method == req.method
            &&& ob.url@ == url_with(
                origin@,
                outbound_path(origin@, req.path@, matched_prefix@.len() as int),
                spec_query(req.query),
            )
            &&& match req.peer_ip {
                None => ob.headers@ == spec_filter_headers(req.headers@),
                Some(ip) => {
                    let base = spec_filter_request_headers(req.headers@);
                    &&& ob.headers@.len() == base.len() + 2
                    &&& ob.headers@.subrange(0, base.len() as int) == base
                    &&& ob.headers@[base.len() as int].0@ == "X-Forwarded-For"@
                    &&& ob.headers@[base.len() as int].1@ == ip@
                    &&& ob.headers@[base.len() as int + 1].0@ == "Forwarded"@
                    &&& ob.headers@[base.len() as int + 1].1@ == "for="@ + ip@
                },
            }
        },
{
    if !origin_is_valid(origin) {
        return Err(ForwardError::InvalidOrigin);
    }
    let base_path = origin_base_path(origin);
    let mut joined = trim_final_slash(base_path.as_str());
    let plen = matched_prefix.unicode_len();
    let pathlen = req.path.as_str().unicode_len();
    let suffix = req.path.as_str().substring_char(plen - 1, pathlen);
    proof {
        assert(suffix@ =~= req.path@.skip(matched_prefix@.len() - 1));
    }
    joined.append(suffix);
    let olen = origin.unicode_len();
    let jlen = joined.as_str().unicode_len();
    let qlen: usize = match &req.query {
        Some(q) => q.as_str().unicode_len(),
        None => 0,
    };
    if olen > MAX_URL_PART_CHARS || jlen > MAX_URL_PART_CHARS || qlen > MAX_URL_PART_CHARS || olen
        + jlen + qlen + 2 > MAX_URL_PART_CHARS {
        return Err(ForwardError::UrlTooLong);
    }
    let url = url_set_path_query(
        origin,
        joined.as_str(),
        match &req.query {
            Some(q) => Some(q.as_str()),
            None => None,
        },
    );
    let mut headers: Vec<(String, String)>;
    if let Some(ip) = &req.peer_ip {
        headers = filter_request_headers(&req.headers);
        let ghost base = headers@;
        headers.push((String::from_str("X-Forwarded-For"), ip.clone()));
        let mut forwarded_value = String::from_str("for=");
        forwarded_value.append(ip.as_str());
        headers.push((String::from_str("Forwarded"), forwarded_value));
        proof {
            assert(headers@.subrange(0, base.len() as int) =~= base);
        }
    } else {
        headers = filter_hop_headers(&req.headers);
    }
    Ok(OutboundRequest { method: req.method.clone(), url, headers })
}

} // verus!
