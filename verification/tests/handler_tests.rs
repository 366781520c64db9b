use velocache::handler::{
    cache_key, connect_error_response, headers_dropped_from_cached_answer, connect_without_host_response, ends_with_text, forbidden_response,
    host_allowed, is_cacheable, plan_connect, proxy_error_response, route_request, same_text, ConnectPlan, Route,
};

#[test]
fn whitelist_rules() {
    let empty: Vec<String> = vec![];
    assert!(host_allowed(&empty, "anything.example"));
    let list = vec!["example.com".to_string(), "rust-lang.org".to_string()];
    assert!(host_allowed(&list, "www.example.com"));
    assert!(host_allowed(&list, "example.com"));
    assert!(host_allowed(&list, "crates.rust-lang.org"));
    assert!(!host_allowed(&list, "example.org"));
    assert!(!host_allowed(&list, ""));
}

#[test]
fn suffix_and_equality() {
    assert!(ends_with_text("abc", "bc"));
    assert!(ends_with_text("abc", ""));
    assert!(!ends_with_text("bc", "abc"));
    assert!(same_text("GET", "GET"));
    assert!(!same_text("GET", "get"));
}

#[test]
fn cache_key_is_method_and_uri() {
    assert_eq!(cache_key("GET", "http://example.com/a?b=1"), "GET::http://example.com/a?b=1");
    assert_eq!(cache_key("", ""), "::");
}

#[test]
fn only_successful_gets_are_cached() {
    assert!(is_cacheable("GET", 200));
    assert!(!is_cacheable("GET", 404));
    assert!(!is_cacheable("POST", 200));
    assert!(!is_cacheable("get", 200));
    assert!(!is_cacheable("GETX", 200));
}

#[test]
fn routing() {
    let list = vec!["example.com".to_string()];
    assert!(matches!(route_request(&list, "GET", "evil.org", "http://evil.org/"), Route::Forbidden));
    assert!(matches!(route_request(&list, "CONNECT", "example.com", "example.com:443"), Route::Tunnel));
    match route_request(&list, "GET", "example.com", "http://example.com/x") {
        Route::Cached { key } => assert_eq!(key, "GET::http://example.com/x"),
        _ => panic!("a GET to an allowed host goes through the cache"),
    }
    let empty: Vec<String> = vec![];
    assert!(matches!(route_request(&empty, "CONNECT", "", "a:1"), Route::Tunnel));
    assert!(matches!(route_request(&empty, "CONNEC", "", "a:1"), Route::Cached { .. }));
}

#[test]
fn plain_responses() {
    let r = forbidden_response();
    assert_eq!((r.status, r.body.as_str()), (403, "Bu alan adı whitelist'te değil."));
    let r = connect_without_host_response();
    assert_eq!((r.status, r.body.as_str()), (400, "CONNECT için host belirtilmemiş."));
    let r = connect_error_response("timeout");
    assert_eq!((r.status, r.body.as_str()), (502, "CONNECT hatası: timeout"));
    let r = proxy_error_response("dns");
    assert_eq!((r.status, r.body.as_str()), (502, "Proxy hatası: dns"));
}

#[test]
fn connect_plans() {
    match plan_connect(Some("example.com:443".to_string())) {
        ConnectPlan::TunnelTo(a) => assert_eq!(a, "example.com:443"),
        ConnectPlan::Refuse(_) => panic!("an authority is tunnelled to"),
    }
    match plan_connect(None) {
        ConnectPlan::Refuse(r) => assert_eq!(r.status, 400),
        ConnectPlan::TunnelTo(_) => panic!("no authority is refused"),
    }
}

#[test]
fn cached_answers_drop_length_and_encoding() {
    assert_eq!(headers_dropped_from_cached_answer(), vec!["transfer-encoding", "content-length"]);
}
