use backend::env_map::EnvMap;
use backend::guacamole::{
    compute_websocket_url, connections_url, tokens_url, CreateConnectionRequest, GuacamoleConnection,
};

fn env_with(pairs: &[(&str, &str)]) -> EnvMap {
    let mut env = EnvMap::new();
    for (k, v) in pairs {
        env.insert(k.to_string(), v.to_string());
    }
    env
}

fn sample_env() -> EnvMap {
    env_with(&[
        ("GUAC_URL", " https://guac.example:8443/ "),
        ("GUAC_TUNNEL_PATH", "/guacamole/websocket-tunnel/"),
        ("GUAC_API_PATH", "guacamole/api"),
        ("GUAC_CONNECTION_PREFIX", "Net Lab"),
        ("GUAC_ADMIN_USER", "admin"),
        ("GUAC_ADMIN_PASS", "SECRET-REDACTED"),
    ])
}

#[test]
fn websocket_url_from_https() {
    assert_eq!(
        compute_websocket_url("https://guac.example:8443", "guacamole/websocket-tunnel"),
        "wss://guac.example:8443/guacamole/websocket-tunnel"
    );
}

#[test]
fn websocket_url_from_http() {
    assert_eq!(compute_websocket_url("http://localhost:8080/", "/tunnel/"), "ws://localhost:8080/tunnel");
}

#[test]
fn websocket_url_without_scheme() {
    assert_eq!(compute_websocket_url("/guac.local/", "t"), "ws://guac.local/t");
}

#[test]
fn env_config_from_settings() {
    let env = sample_env();
    let cfg = GuacamoleConnection::build_env_config(&env, "Router #1");
    assert_eq!(cfg.base_http_url, "https://guac.example:8443");
    assert_eq!(cfg.tunnel_path, "guacamole/websocket-tunnel");
    assert_eq!(cfg.api_path, "guacamole/api");
    assert_eq!(cfg.connection_prefix, "net-lab");
    assert_eq!(cfg.username, "admin");
    assert_eq!(cfg.password, "SECRET-REDACTED");
    assert_eq!(cfg.connection_key, "router-1");
    assert_eq!(cfg.client_identifier, "net-lab-router-1");
    assert_eq!(cfg.api_url, "https://guac.example:8443/guacamole/api");
    assert_eq!(cfg.tunnel_url, "https://guac.example:8443/guacamole/websocket-tunnel");
    assert_eq!(cfg.websocket_url, "wss://guac.example:8443/guacamole/websocket-tunnel");
}

#[test]
fn assembled_connection_has_client_url() {
    let env = sample_env();
    let cfg = GuacamoleConnection::build_env_config(&env, "vm");
    let c = GuacamoleConnection::assemble("vm", cfg, "42".to_string(), 5901);
    assert_eq!(c.connection_name, "vm");
    assert_eq!(c.connection_key, "vm");
    assert_eq!(c.connection_id, "42");
    assert_eq!(c.client_identifier, "net-lab-vm");
    assert_eq!(c.client_url, "https://guac.example:8443/#/client/net-lab-vm");
    assert_eq!(c.api_url, "https://guac.example:8443/guacamole/api");
    assert_eq!(c.vnc_port, 5901);
    assert_eq!(
        c.delete_url("postgresql"),
        "https://guac.example:8443/guacamole/api/session/data/postgresql/connections/42"
    );
}

#[test]
fn api_urls() {
    assert_eq!(tokens_url("http://h/api"), "http://h/api/tokens");
    assert_eq!(connections_url("http://h/api", "mysql"), "http://h/api/session/data/mysql/connections");
}

#[test]
fn create_connection_request_for_vnc() {
    let r = CreateConnectionRequest::for_vnc("desk", "10.0.0.5", 5902);
    assert_eq!(r.name, "desk");
    assert_eq!(r.parent_identifier, "ROOT");
    assert_eq!(r.protocol, "vnc");
    assert_eq!(r.parameters.hostname, "10.0.0.5");
    assert_eq!(r.parameters.port, "5902");
    assert_eq!(r.attributes.max_connections, "");
    assert_eq!(r.attributes.max_connections_per_user, "");
}

#[test]
fn surrounding_slashes_do_not_change_the_configuration() {
    let plain = env_with(&[
        ("GUAC_URL", " http://guac:8080"),
        ("GUAC_TUNNEL_PATH", "tunnel"),
        ("GUAC_API_PATH", "api"),
        ("GUAC_CONNECTION_PREFIX", "lab"),
        ("GUAC_ADMIN_USER", "u"),
        ("GUAC_ADMIN_PASS", "p"),
    ]);
    let slashed = env_with(&[
        ("GUAC_URL", " http://guac:8080/"),
        ("GUAC_TUNNEL_PATH", "tunnel"),
        ("GUAC_API_PATH", "/api/"),
        ("GUAC_CONNECTION_PREFIX", "lab"),
        ("GUAC_ADMIN_USER", "u"),
        ("GUAC_ADMIN_PASS", "p"),
    ]);
    let a = GuacamoleConnection::build_env_config(&plain, "n");
    let b = GuacamoleConnection::build_env_config(&slashed, "n");
    assert_eq!(a.base_http_url, b.base_http_url);
    assert_eq!(a.api_path, b.api_path);
    assert_eq!(a.api_url, b.api_url);
    assert_eq!(a.tunnel_url, b.tunnel_url);
    assert_eq!(a.websocket_url, b.websocket_url);
    assert_eq!(a.client_identifier, b.client_identifier);
    assert_eq!(b.api_url, "http://guac:8080/api");
}
