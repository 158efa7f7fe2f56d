use fatcat::config::{resolve, Config, ConfigError};
use fatcat::middleware::{Header, Request, Response};
use fatcat::pool::{Checkout, PoolError};
use fatcat::server::{server, Server, DEFAULT_MAX_SIZE, DEFAULT_TIMEOUT_MS};

fn config() -> Config {
    Config { database_url: "postgres://localhost/fatcat".to_string() }
}

#[test]
fn missing_database_url_stops_startup_before_connecting() {
    let mut connects = 0;
    let started: Option<Server<u32>> = match resolve(None) {
        Ok(c) => {
            connects += 1;
            server(c, DEFAULT_MAX_SIZE, DEFAULT_TIMEOUT_MS, 0u32).ok()
        }
        Err(e) => {
            assert_eq!(e, ConfigError::MissingRequiredSetting);
            None
        }
    };
    assert!(started.is_none());
    assert_eq!(connects, 0);
}

#[test]
fn server_owns_pool_and_config() {
    let mut s = server(config(), 2, 500, 11u32).ok().unwrap();
    assert_eq!(s.config.database_url, "postgres://localhost/fatcat");
    assert_eq!(s.db_pool.max_size(), 2);
    assert_eq!(s.db_pool.timeout_ms(), 500);
    match s.db_pool.checkout(0) {
        Ok(Checkout::Ready(l)) => assert_eq!(*l.connection(), 11),
        _ => panic!("expected the first connection"),
    }
}

#[test]
fn server_with_zero_pool_size_fails() {
    assert_eq!(server(config(), 0, 500, 11u32).err(), Some(PoolError::InvalidMaxSize));
}

#[test]
fn default_pool_settings() {
    assert_eq!(DEFAULT_MAX_SIZE, 10);
    assert_eq!(DEFAULT_TIMEOUT_MS, 30000);
}

#[test]
fn server_marks_every_response() {
    let s = server(config(), 1, 500, 0u32).ok().unwrap();
    let req = Request { method: "GET".to_string(), path: "/".to_string(), headers: vec![] };
    let res = Response {
        status: 404,
        headers: vec![Header { name: "Content-Type".to_string(), value: "application/json".to_string() }],
        body: b"{\"message\":\"not found\"}".to_vec(),
    };
    let out = s.finish(&req, res);
    assert_eq!(out.status, 404);
    assert_eq!(out.headers.len(), 2);
    assert_eq!(out.headers[1].name, "X-Clacks-Overhead");
    assert_eq!(out.headers[1].value, "GNU aaronsw, jpb");
    assert_eq!(out.body, b"{\"message\":\"not found\"}".to_vec());
}
