use fatcat::middleware::{
    name_eq, set_header, Chain, Header, Middleware, Request, Response, XClacksOverheadMiddleware,
    X_CLACKS_OVERHEAD, X_CLACKS_OVERHEAD_VALUE,
};

fn h(name: &str, value: &str) -> Header {
    Header { name: name.to_string(), value: value.to_string() }
}

fn pairs(hs: &[Header]) -> Vec<(String, String)> {
    hs.iter().map(|x| (x.name.clone(), x.value.clone())).collect()
}

fn get_request() -> Request {
    Request { method: "GET".to_string(), path: "/v0/container/lookup".to_string(), headers: vec![] }
}

#[test]
fn header_names_compare_without_case() {
    assert!(name_eq("X-Clacks-Overhead", "x-clacks-overhead"));
    assert!(name_eq("Content-Type", "CONTENT-TYPE"));
    assert!(!name_eq("Content-Type", "Content-Typo"));
    assert!(!name_eq("Host", "Hosts"));
    assert!(name_eq("", ""));
    assert!(!name_eq("a-1", "a_1"));
}

#[test]
fn set_header_replaces_and_appends() {
    let hs = vec![h("Content-Type", "text/plain"), h("x-clacks-overhead", "old"), h("Server", "iron")];
    let out = set_header(hs, "X-Clacks-Overhead".to_string(), "new".to_string());
    assert_eq!(
        pairs(&out),
        vec![
            ("Content-Type".to_string(), "text/plain".to_string()),
            ("Server".to_string(), "iron".to_string()),
            ("X-Clacks-Overhead".to_string(), "new".to_string()),
        ]
    );
}

#[test]
fn set_header_on_empty_headers() {
    let out = set_header(vec![], "A".to_string(), "b".to_string());
    assert_eq!(pairs(&out), vec![("A".to_string(), "b".to_string())]);
}

#[test]
fn clacks_header_is_added_to_every_response() {
    let mw = XClacksOverheadMiddleware;
    let req = Request { method: "POST".to_string(), path: "/anything".to_string(), headers: vec![h("Cookie", "x")] };
    for status in [200u16, 404, 500] {
        let res = Response { status, headers: vec![h("Content-Length", "3")], body: b"abc".to_vec() };
        let out = mw.after(&req, res);
        assert_eq!(out.status, status);
        assert_eq!(out.body, b"abc".to_vec());
        assert_eq!(
            pairs(&out.headers),
            vec![
                ("Content-Length".to_string(), "3".to_string()),
                ("X-Clacks-Overhead".to_string(), "GNU aaronsw, jpb".to_string()),
            ]
        );
    }
}

#[test]
fn clacks_constants() {
    assert_eq!(X_CLACKS_OVERHEAD, "X-Clacks-Overhead");
    assert_eq!(X_CLACKS_OVERHEAD_VALUE, "GNU aaronsw, jpb");
}

#[test]
fn empty_chain_leaves_the_response_alone() {
    let chain = Chain::new();
    let res = Response { status: 204, headers: vec![h("A", "1")], body: vec![] };
    let out = chain.apply_all(&get_request(), res);
    assert_eq!(out.status, 204);
    assert_eq!(pairs(&out.headers), vec![("A".to_string(), "1".to_string())]);
}

#[test]
fn chain_with_marker_overrides_a_stale_marker() {
    let mut chain = Chain::new();
    chain.register(Middleware::XClacksOverhead);
    chain.register(Middleware::XClacksOverhead);
    let res = Response {
        status: 500,
        headers: vec![h("X-CLACKS-OVERHEAD", "stale"), h("B", "2")],
        body: b"error".to_vec(),
    };
    let out = chain.apply_all(&get_request(), res);
    assert_eq!(out.status, 500);
    assert_eq!(out.body, b"error".to_vec());
    assert_eq!(
        pairs(&out.headers),
        vec![
            ("B".to_string(), "2".to_string()),
            ("X-Clacks-Overhead".to_string(), "GNU aaronsw, jpb".to_string()),
        ]
    );
}

#[test]
fn chain_application_is_repeatable() {
    let mut chain = Chain::new();
    chain.register(Middleware::XClacksOverhead);
    let make = || Response { status: 200, headers: vec![h("A", "1")], body: b"{}".to_vec() };
    let first = chain.apply_all(&get_request(), make());
    let second = chain.apply_all(&get_request(), make());
    assert_eq!(pairs(&first.headers), pairs(&second.headers));
    assert_eq!(first.body, second.body);
}
