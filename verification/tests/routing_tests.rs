use httpho::routing::{build_route_table, route, ConfigError, RouteError};
use httpho::{trim_final_slash, Service};

fn files(path: &str, dir: &str) -> Service {
    Service::Files { path: path.to_string(), dir: dir.to_string() }
}

fn proxy(path: &str, url: &str) -> Service {
    Service::Proxy { path: path.to_string(), url: url.to_string() }
}

#[test]
fn test_trim_final_slash() {
    assert_eq!("/api", trim_final_slash("/api"));
    assert_eq!("/api", trim_final_slash("/api/"));
}

#[test]
fn trim_final_slash_edge_cases() {
    assert_eq!("", trim_final_slash(""));
    assert_eq!("", trim_final_slash("/"));
    assert_eq!("/a/b", trim_final_slash("/a/b/"));
}

#[test]
fn api_beats_root() {
    let services = vec![files("/", "./web"), proxy("/api", "http://example.com/")];
    let table = build_route_table(&services).unwrap();
    assert_eq!("/api/", table.entries[0].prefix.as_str());
    assert_eq!("/", table.entries[1].prefix.as_str());
    let entry = route("/api/users", &table).unwrap();
    assert_eq!("/api/", entry.prefix.as_str());
    match &entry.service {
        Service::Proxy { url, .. } => assert_eq!("http://example.com/", url),
        Service::Files { .. } => panic!("matched the wrong service"),
    }
}

#[test]
fn unrelated_entry_sorted_first_is_not_matched() {
    let services = vec![proxy("/api", "http://a.example/"), proxy("/zeta", "http://z.example/")];
    let table = build_route_table(&services).unwrap();
    assert_eq!("/zeta/", table.entries[0].prefix.as_str());
    assert_eq!("/api/", table.entries[1].prefix.as_str());
    let entry = route("/api/x", &table).unwrap();
    assert_eq!("/api/", entry.prefix.as_str());
}

#[test]
fn mount_with_and_without_slash_normalize_alike() {
    let t1 = build_route_table(&vec![files("/api", ".")]).unwrap();
    let t2 = build_route_table(&vec![files("/api/", ".")]).unwrap();
    assert_eq!("/api/", t1.entries[0].prefix.as_str());
    assert_eq!("/api/", t2.entries[0].prefix.as_str());
}

#[test]
fn exact_mount_path_matches() {
    let table = build_route_table(&vec![proxy("/svc", "http://backend.example/")]).unwrap();
    let entry = route("/svc", &table).unwrap();
    assert_eq!("/svc/", entry.prefix.as_str());
}

#[test]
fn no_match_is_reported() {
    let table = build_route_table(&vec![proxy("/api", "http://example.com/")]).unwrap();
    let r = route("/other", &table);
    assert_eq!(Err(RouteError::NoMatch), r.map(|e| e.prefix.clone()));
}

#[test]
fn empty_table_never_matches() {
    let table = build_route_table(&Vec::new()).unwrap();
    assert!(route("/anything", &table).is_err());
}

#[test]
fn invalid_origin_fails_build() {
    let r = build_route_table(&vec![proxy("/api", "not a url")]);
    match r {
        Err(ConfigError::InvalidOriginUrl { url }) => assert_eq!("not a url", url),
        Ok(_) => panic!("expected an invalid origin error"),
    }
}

#[test]
fn origin_without_host_fails_build() {
    let r = build_route_table(&vec![proxy("/d", "data:text/plain,x")]);
    assert!(matches!(r, Err(ConfigError::InvalidOriginUrl { .. })));
}

#[test]
fn longer_prefix_sorts_before_its_extension_base() {
    let services = vec![
        proxy("/api", "http://a.example/"),
        proxy("/api/v2", "http://b.example/"),
        files("/", "."),
    ];
    let table = build_route_table(&services).unwrap();
    assert_eq!("/api/v2/", table.entries[0].prefix.as_str());
    assert_eq!("/api/", table.entries[1].prefix.as_str());
    assert_eq!("/", table.entries[2].prefix.as_str());
    let entry = route("/api/v2/users", &table).unwrap();
    assert_eq!("/api/v2/", entry.prefix.as_str());
}
