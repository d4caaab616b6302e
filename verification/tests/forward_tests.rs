use httpho::forward::{
    build_client_response, build_outbound, filter_hop_headers, forward_failure_status,
    is_connection_header_name, is_x_forwarded_for_header_name, no_match_status, ForwardError,
    InboundRequest,
};

fn header(name: &str, value: &str) -> (String, String) {
    (name.to_string(), value.to_string())
}

fn get_request(path: &str, query: Option<&str>, peer_ip: Option<&str>) -> InboundRequest {
    InboundRequest {
        method: "GET".to_string(),
        path: path.to_string(),
        query: query.map(|q| q.to_string()),
        headers: Vec::new(),
        peer_ip: peer_ip.map(|p| p.to_string()),
    }
}

#[test]
fn forward_url_rewrite() {
    let req = get_request("/svc/foo", Some("x=1"), None);
    let ob = build_outbound(&req, "/svc/", "http://backend.example/").unwrap();
    assert_eq!("GET", ob.method);
    assert_eq!("http://backend.example/foo?x=1", ob.url);
}

#[test]
fn forward_url_without_query() {
    let req = get_request("/svc/foo", None, None);
    let ob = build_outbound(&req, "/svc/", "http://backend.example/").unwrap();
    assert_eq!("http://backend.example/foo", ob.url);
}

#[test]
fn forward_url_appends_to_origin_base_path() {
    let req = get_request("/svc/foo", None, None);
    let ob = build_outbound(&req, "/svc/", "http://backend.example/base/").unwrap();
    assert_eq!("http://backend.example/base/foo", ob.url);
}

#[test]
fn forward_root_mount_keeps_whole_path() {
    let req = get_request("/foo/bar", None, None);
    let ob = build_outbound(&req, "/", "http://backend.example/").unwrap();
    assert_eq!("http://backend.example/foo/bar", ob.url);
}

#[test]
fn forward_invalid_origin_is_an_error() {
    let req = get_request("/svc/foo", None, None);
    let r = build_outbound(&req, "/svc/", "not a url");
    assert_eq!(Err(ForwardError::InvalidOrigin), r.map(|ob| ob.url));
}

#[test]
fn peer_address_sets_client_identity_headers() {
    let mut req = get_request("/svc/foo", None, Some("203.0.113.5"));
    req.headers.push(header("accept", "*/*"));
    let ob = build_outbound(&req, "/svc/", "http://backend.example/").unwrap();
    assert_eq!(3, ob.headers.len());
    assert_eq!(header("accept", "*/*"), ob.headers[0]);
    assert_eq!(header("X-Forwarded-For", "203.0.113.5"), ob.headers[1]);
    assert_eq!(header("Forwarded", "for=203.0.113.5"), ob.headers[2]);
}

#[test]
fn peer_address_replaces_inbound_x_forwarded_for() {
    let mut req = get_request("/svc/foo", None, Some("203.0.113.5"));
    req.headers.push(header("X-Forwarded-For", "198.51.100.7"));
    req.headers.push(header("accept", "*/*"));
    req.headers.push(header("Forwarded", "for=198.51.100.7"));
    let ob = build_outbound(&req, "/svc/", "http://backend.example/").unwrap();
    assert_eq!(
        vec![
            header("accept", "*/*"),
            header("Forwarded", "for=198.51.100.7"),
            header("X-Forwarded-For", "203.0.113.5"),
            header("Forwarded", "for=203.0.113.5"),
        ],
        ob.headers
    );
}

#[test]
fn missing_peer_address_omits_client_identity_headers() {
    let mut req = get_request("/svc/foo", None, None);
    req.headers.push(header("accept", "*/*"));
    let ob = build_outbound(&req, "/svc/", "http://backend.example/").unwrap();
    assert_eq!(vec![header("accept", "*/*")], ob.headers);
}

#[test]
fn missing_peer_address_keeps_inbound_x_forwarded_for() {
    let mut req = get_request("/svc/foo", None, None);
    req.headers.push(header("X-Forwarded-For", "198.51.100.7"));
    let ob = build_outbound(&req, "/svc/", "http://backend.example/").unwrap();
    assert_eq!(vec![header("X-Forwarded-For", "198.51.100.7")], ob.headers);
}

#[test]
fn oversized_query_is_refused() {
    let mut req = get_request("/svc/foo", None, None);
    req.query = Some("x".repeat(0x800_0000));
    let r = build_outbound(&req, "/svc/", "http://backend.example/");
    assert_eq!(Err(ForwardError::UrlTooLong), r.map(|ob| ob.url));
}

#[test]
fn request_connection_header_is_not_forwarded() {
    let mut req = get_request("/svc/foo", None, None);
    req.headers.push(header("connection", "keep-alive"));
    req.headers.push(header("accept", "*/*"));
    let ob = build_outbound(&req, "/svc/", "http://backend.example/").unwrap();
    assert_eq!(vec![header("accept", "*/*")], ob.headers);
}

#[test]
fn response_headers_exclude_connection_keep_duplicates() {
    let headers = vec![
        header("connection", "keep-alive"),
        header("Connection", "close"),
        header("set-cookie", "a=1"),
        header("set-cookie", "b=2"),
        header("content-encoding", "gzip"),
    ];
    let resp = build_client_response(200, &headers);
    assert_eq!(200, resp.status);
    assert_eq!(
        vec![
            header("set-cookie", "a=1"),
            header("set-cookie", "b=2"),
            header("content-encoding", "gzip"),
        ],
        resp.headers
    );
}

#[test]
fn filter_keeps_order_of_other_headers() {
    let headers = vec![header("b", "2"), header("a", "1"), header("CONNECTION", "x")];
    let filtered = filter_hop_headers(&headers);
    assert_eq!(vec![header("b", "2"), header("a", "1")], filtered);
}

#[test]
fn connection_header_name_is_case_insensitive() {
    assert!(is_connection_header_name("connection"));
    assert!(is_connection_header_name("Connection"));
    assert!(is_connection_header_name("CONNECTION"));
    assert!(!is_connection_header_name("connectio"));
    assert!(!is_connection_header_name("connection2"));
    assert!(!is_connection_header_name("keep-alive"));
}

#[test]
fn x_forwarded_for_name_is_case_insensitive() {
    assert!(is_x_forwarded_for_header_name("x-forwarded-for"));
    assert!(is_x_forwarded_for_header_name("X-Forwarded-For"));
    assert!(is_x_forwarded_for_header_name("X-FORWARDED-FOR"));
    assert!(!is_x_forwarded_for_header_name("x-forwarded-fo"));
    assert!(!is_x_forwarded_for_header_name("xxforwardedxfor"));
    assert!(!is_x_forwarded_for_header_name("forwarded"));
}

#[test]
fn backend_failure_maps_to_5xx() {
    let status = forward_failure_status();
    assert_eq!(500, status);
    assert!(500 <= status && status < 600);
}

#[test]
fn unrouted_request_maps_to_not_found() {
    assert_eq!(404, no_match_status());
}
