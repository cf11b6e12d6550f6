use phantasma::endpoints::{EndpointError, ServerEndpoints};

fn endpoints(arg: &str) -> ServerEndpoints {
    ServerEndpoints::from_optional_arg(Some(arg.to_string())).expect("server should parse")
}

#[test]
fn default_server_is_local_relay() {
    let e = ServerEndpoints::from_optional_arg(None).expect("default should parse");
    assert_eq!(e.http_base_url, "http://127.0.0.1:3000");
    assert_eq!(e.websocket_url("alice"), "ws://127.0.0.1:3000/ws/alice");
}

#[test]
fn http_and_https_map_to_ws_and_wss() {
    let e = endpoints("http://relay.example:3000/");
    assert_eq!(e.http_base_url, "http://relay.example:3000");
    assert_eq!(e.websocket_url("bob"), "ws://relay.example:3000/ws/bob");

    let e = endpoints("https://relay.example///");
    assert_eq!(e.http_base_url, "https://relay.example");
    assert_eq!(e.websocket_url("bob"), "wss://relay.example/ws/bob");
}

#[test]
fn websocket_urls_drop_the_ws_path() {
    let e = endpoints("ws://100.1.2.3:3000/ws");
    assert_eq!(e.http_base_url, "http://100.1.2.3:3000");
    assert_eq!(e.websocket_url("bob"), "ws://100.1.2.3:3000/ws/bob");

    let e = endpoints("wss://relay.example/ws/");
    assert_eq!(e.http_base_url, "https://relay.example");
    assert_eq!(e.websocket_url("alice"), "wss://relay.example/ws/alice");

    let e = endpoints("ws://relay.example");
    assert_eq!(e.http_base_url, "http://relay.example");
}

#[test]
fn other_schemes_are_refused() {
    let r = ServerEndpoints::from_optional_arg(Some("ftp://relay.example".to_string()));
    assert_eq!(r.unwrap_err(), EndpointError::UnsupportedScheme);
    let r = ServerEndpoints::from_optional_arg(Some("relay.example:3000".to_string()));
    assert!(r.is_err());
    assert_eq!(
        EndpointError::UnsupportedScheme.message(),
        "server must start with http://, https://, ws://, or wss://"
    );
}

#[test]
fn directory_urls_extend_the_http_base() {
    let e = endpoints("http://127.0.0.1:3000");
    assert_eq!(e.users_url(), "http://127.0.0.1:3000/users");
    assert_eq!(e.public_key_url("bob"), "http://127.0.0.1:3000/users/bob/public-key");
}

#[test]
fn http_base_given_back_names_the_same_relay() {
    for arg in ["http://a:1/", "https://b", "ws://c:2/ws", "wss://d/ws/", "ws://e"] {
        let e = endpoints(arg);
        assert_eq!(e.http_base_url(), e.http_base_url);
        let again = endpoints(e.http_base_url());
        assert_eq!(again.http_base_url, e.http_base_url);
        assert_eq!(again.websocket_url("x"), e.websocket_url("x"));
    }
    let e = endpoints("ws://host//ws");
    assert_eq!(e.http_base_url, "http://host/");
    assert_eq!(endpoints(e.http_base_url()).http_base_url, "http://host");
}
