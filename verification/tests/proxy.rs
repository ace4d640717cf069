use cors_proxy::model::{Header, IncomingRequest};
use cors_proxy::proxy::{handle_request, is_preflight, preflight_response, rewrite_response,
    ProxyStep};
use cors_proxy::target::{normalize_host, UpstreamTarget};
use cors_proxy::text::{dec_string, eq_ignore_case, str_eq};

fn header(name: &str, value: &str) -> Header {
    Header::from_parts(name, value)
}

fn request(method: &str, path: &str, query: Option<&str>) -> IncomingRequest {
    IncomingRequest {
        method: method.to_string(),
        path: path.to_string(),
        query: query.map(|q| q.to_string()),
        headers: Vec::new(),
        peer_ip: None,
        body: Vec::new(),
    }
}

fn header_pairs(headers: &[Header]) -> Vec<(String, String)> {
    headers.iter().map(|h| (h.name.clone(), h.value.clone())).collect()
}

#[test]
fn preflight_response_has_fixed_header_set() {
    let resp = preflight_response();
    assert_eq!(resp.status, 204);
    assert!(resp.body.is_empty());
    assert_eq!(
        header_pairs(&resp.headers),
        vec![
            ("Access-Control-Allow-Origin".to_string(), "*".to_string()),
            ("Access-Control-Allow-Credentials".to_string(), "true".to_string()),
            (
                "Access-Control-Allow-Headers".to_string(),
                "Authorization,Accept,Origin,DNT,X-CustomHeader,Keep-Alive,User-Agent,\
                 X-Requested-With,If-Modified-Since,Cache-Control,Content-Type,\
                 Content-Range,Range"
                    .to_string()
            ),
            (
                "Access-Control-Allow-Methods".to_string(),
                "GET,POST,OPTIONS,PUT,DELETE,PATCH".to_string()
            ),
            ("Access-Control-Max-Age".to_string(), "1728000".to_string()),
            ("Content-Type".to_string(), "text/plain; charset=UTF-8".to_string()),
            ("Content-Length".to_string(), "0".to_string()),
        ]
    );
}

#[test]
fn options_request_is_answered_without_forwarding() {
    let target = UpstreamTarget::new("example.internal".to_string(), 8080);
    let mut req = request("OPTIONS", "/anything", Some("x=1"));
    req.headers.push(header("Origin", "https://site.example"));
    req.headers.push(header("Access-Control-Request-Method", "DELETE"));
    req.body = b"ignored".to_vec();
    match handle_request(&target, req) {
        ProxyStep::Respond(resp) => {
            assert_eq!(resp.status, 204);
            assert!(resp.body.is_empty());
            let reference = preflight_response();
            assert_eq!(header_pairs(&resp.headers), header_pairs(&reference.headers));
        }
        ProxyStep::Forward(_) => panic!("preflight must not be forwarded"),
    }
}

#[test]
fn preflight_method_is_exactly_options() {
    assert!(is_preflight("OPTIONS"));
    assert!(!is_preflight("options"));
    assert!(!is_preflight("GET"));
    assert!(!is_preflight("OPTION"));
    assert!(!is_preflight("OPTIONSX"));
}

#[test]
fn forwarded_request_keeps_path_and_query_bytes() {
    let target = UpstreamTarget::new("example.internal".to_string(), 8080);
    let mut req = request("POST", "/a%2Fb//c/", Some("x=%20&y=="));
    req.headers.push(header("Content-Type", "application/json"));
    req.body = b"{\"k\":1}".to_vec();
    match handle_request(&target, req) {
        ProxyStep::Forward(out) => {
            assert_eq!(out.method, "POST");
            assert_eq!(out.path, "/a%2Fb//c/");
            assert_eq!(out.query.as_deref(), Some("x=%20&y=="));
            assert_eq!(out.body, b"{\"k\":1}".to_vec());
            assert_eq!(
                header_pairs(&out.headers),
                vec![("Content-Type".to_string(), "application/json".to_string())]
            );
        }
        ProxyStep::Respond(_) => panic!("non-preflight must be forwarded"),
    }
}

#[test]
fn forwarded_url_matches_target_and_request() {
    let target = UpstreamTarget::new("example.internal".to_string(), 8080);
    let req = request("GET", "/items", Some("id=5"));
    match handle_request(&target, req) {
        ProxyStep::Forward(out) => {
            assert_eq!(out.url(), "http://example.internal:8080/items?id=5");
        }
        ProxyStep::Respond(_) => panic!("non-preflight must be forwarded"),
    }
}

#[test]
fn port_443_selects_https_and_others_http() {
    let secure = UpstreamTarget::new("backend".to_string(), 443);
    let req = request("GET", "/p", None);
    match handle_request(&secure, req) {
        ProxyStep::Forward(out) => {
            assert!(out.https);
            assert_eq!(out.url(), "https://backend:443/p");
        }
        ProxyStep::Respond(_) => panic!("non-preflight must be forwarded"),
    }
    let plain = UpstreamTarget::new("backend".to_string(), 80);
    let req = request("GET", "/p", None);
    match handle_request(&plain, req) {
        ProxyStep::Forward(out) => {
            assert!(!out.https);
            assert_eq!(out.url(), "http://backend:80/p");
        }
        ProxyStep::Respond(_) => panic!("non-preflight must be forwarded"),
    }
}

#[test]
fn peer_address_becomes_x_forwarded_for() {
    let target = UpstreamTarget::new("backend".to_string(), 8080);
    let mut req = request("GET", "/p", None);
    req.headers.push(header("Accept", "*/*"));
    req.peer_ip = Some("203.0.113.9".to_string());
    match handle_request(&target, req) {
        ProxyStep::Forward(out) => {
            assert_eq!(
                header_pairs(&out.headers),
                vec![
                    ("Accept".to_string(), "*/*".to_string()),
                    ("x-forwarded-for".to_string(), "203.0.113.9".to_string()),
                ]
            );
        }
        ProxyStep::Respond(_) => panic!("non-preflight must be forwarded"),
    }
}

#[test]
fn peer_address_overwrites_inbound_x_forwarded_for() {
    let target = UpstreamTarget::new("backend".to_string(), 8080);
    let mut req = request("GET", "/p", None);
    req.headers.push(header("X-Forwarded-For", "198.51.100.1"));
    req.headers.push(header("Accept", "*/*"));
    req.peer_ip = Some("203.0.113.9".to_string());
    match handle_request(&target, req) {
        ProxyStep::Forward(out) => {
            assert_eq!(
                header_pairs(&out.headers),
                vec![
                    ("Accept".to_string(), "*/*".to_string()),
                    ("x-forwarded-for".to_string(), "203.0.113.9".to_string()),
                ]
            );
        }
        ProxyStep::Respond(_) => panic!("non-preflight must be forwarded"),
    }
}

#[test]
fn missing_peer_address_leaves_headers_unchanged() {
    let target = UpstreamTarget::new("backend".to_string(), 8080);
    let mut req = request("GET", "/p", None);
    req.headers.push(header("Accept", "*/*"));
    match handle_request(&target, req) {
        ProxyStep::Forward(out) => {
            assert_eq!(
                header_pairs(&out.headers),
                vec![("Accept".to_string(), "*/*".to_string())]
            );
        }
        ProxyStep::Respond(_) => panic!("non-preflight must be forwarded"),
    }
}

#[test]
fn rewrite_drops_connection_and_forces_allow_origin() {
    let backend_headers = vec![
        header("Connection", "keep-alive"),
        header("X-Foo", "bar"),
        header("CONNECTION", "close"),
        header("Access-Control-Allow-Origin", "https://only.example"),
        header("content-type", "text/html"),
    ];
    let resp = rewrite_response(502, backend_headers, b"oops".to_vec());
    assert_eq!(resp.status, 502);
    assert_eq!(resp.body, b"oops".to_vec());
    assert_eq!(
        header_pairs(&resp.headers),
        vec![
            ("X-Foo".to_string(), "bar".to_string()),
            ("content-type".to_string(), "text/html".to_string()),
            ("Access-Control-Allow-Origin".to_string(), "*".to_string()),
        ]
    );
}

#[test]
fn rewrite_keeps_status_headers_and_body() {
    let backend_headers = vec![header("Content-Length", "2")];
    let resp = rewrite_response(201, backend_headers, vec![104, 105]);
    assert_eq!(resp.status, 201);
    assert_eq!(resp.body, vec![104, 105]);
    assert_eq!(
        header_pairs(&resp.headers),
        vec![
            ("Content-Length".to_string(), "2".to_string()),
            ("Access-Control-Allow-Origin".to_string(), "*".to_string()),
        ]
    );
}

#[test]
fn case_insensitive_name_comparison() {
    assert!(eq_ignore_case("Connection", "connection"));
    assert!(eq_ignore_case("CONNECTION", "connection"));
    assert!(eq_ignore_case("X-Foo", "x-foo"));
    assert!(!eq_ignore_case("X-Foo", "x-bar"));
    assert!(!eq_ignore_case("abc", "abcd"));
    // Only ASCII letters fold: a non-ASCII pair stays distinct.
    assert!(!eq_ignore_case("É", "é"));
}

#[test]
fn exact_string_comparison() {
    assert!(str_eq("OPTIONS", "OPTIONS"));
    assert!(!str_eq("OPTIONS", "options"));
    assert!(!str_eq("a", "ab"));
    assert!(str_eq("", ""));
}

#[test]
fn decimal_rendering_of_ports() {
    assert_eq!(dec_string(0), "0");
    assert_eq!(dec_string(7), "7");
    assert_eq!(dec_string(80), "80");
    assert_eq!(dec_string(443), "443");
    assert_eq!(dec_string(8080), "8080");
    assert_eq!(dec_string(65535), "65535");
}

#[test]
fn localhost_is_normalized() {
    assert_eq!(normalize_host("localhost".to_string()), "127.0.0.1");
    assert_eq!(normalize_host("example.com".to_string()), "example.com");
    assert_eq!(normalize_host("LOCALHOST".to_string()), "LOCALHOST");
    let target = UpstreamTarget::new("localhost".to_string(), 3000);
    assert_eq!(target.host, "127.0.0.1");
    assert_eq!(target.port, 3000);
}

#[test]
fn empty_query_still_renders_question_mark() {
    let target = UpstreamTarget::new("backend".to_string(), 8080);
    let req = request("GET", "/p", Some(""));
    match handle_request(&target, req) {
        ProxyStep::Forward(out) => {
            assert_eq!(out.url(), "http://backend:8080/p?");
        }
        ProxyStep::Respond(_) => panic!("non-preflight must be forwarded"),
    }
}
