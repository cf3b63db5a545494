//! Guacamole configuration and connection records: the URLs and identifiers
//! that are derived from the environment, and the requests sent to the
//! Guacamole REST API.
use vstd::prelude::*;
use vstd::pervasive::unreached;
use vstd::string::*;

use crate::env_map::EnvMap;
use crate::identifier;
use crate::identifier::sanitize_identifier;
use crate::text;
use crate::text::{decimal_string, owned, skip_chars, starts_with, trim_class, trim_end_class, CharClass};

verus! {

/// The value of `key` in `env`.
pub open spec fn env_value(env: Map<Seq<char>, Seq<char>>, key: &str) -> Seq<char> {
    env[key@]
}

/// The Guacamole settings that `build_env_config` reads; it needs all of them.
pub open spec fn has_guacamole_settings(env: Map<Seq<char>, Seq<char>>) -> bool {
    &&& env.contains_key("GUAC_URL"@)
    &&& env.contains_key("GUAC_TUNNEL_PATH"@)
    &&& env.contains_key("GUAC_API_PATH"@)
    &&& env.contains_key("GUAC_CONNECTION_PREFIX"@)
    &&& env.contains_key("GUAC_ADMIN_USER"@)
    &&& env.contains_key("GUAC_ADMIN_PASS"@)
}

/// `s` with surrounding whitespace removed and then slashes removed at the end.
pub open spec fn base_url_of(s: Seq<char>) -> Seq<char> {
    text::trim_end_of(text::trim_of(s, CharClass::Whitespace), CharClass::Slash)
}

/// `s` with surrounding whitespace removed and then slashes removed at both ends.
pub open spec fn path_of(s: Seq<char>) -> Seq<char> {
    text::trim_of(text::trim_of(s, CharClass::Whitespace), CharClass::Slash)
}

/// The WebSocket URL of the tunnel: `https://` becomes `wss://`, `http://`
/// becomes `ws://`, a base without either scheme gets `ws://`; slashes at
/// either end of the remainder and of the tunnel path are dropped and the two
/// are joined by one slash.
pub open spec fn websocket_url(base: Seq<char>, tunnel_path: Seq<char>) -> Seq<char> {
    let scheme = if "https://"@.is_prefix_of(base) {
        "wss://"@
    } else {
        "ws://"@
    };
    let rest = if "https://"@.is_prefix_of(base) {
        base.skip("https://"@.len() as int)
    } else if "http://"@.is_prefix_of(base) {
        base.skip("http://"@.len() as int)
    } else {
        base
    };
    scheme + text::trim_of(rest, CharClass::Slash) + "/"@ + text::trim_of(tunnel_path, CharClass::Slash)
}

/// Computes the WebSocket URL of the Guacamole tunnel from the HTTP base URL
/// and the tunnel path.
pub fn compute_websocket_url(base_http_url: &str, tunnel_path: &str) -> (r: String)
    ensures
        r@ == websocket_url(base_http_url@, tunnel_path@),
{
    let https = "https://";
    let http = "http://";
    let (mut out, rest) = if starts_with(base_http_url, https) {
        (owned("wss://"), skip_chars(base_http_url, https.unicode_len()))
    } else if starts_with(base_http_url, http) {
        (owned("ws://"), skip_chars(base_http_url, http.unicode_len()))
    } else {
        (owned("ws://"), owned(base_http_url))
    };
    let rest_trimmed = trim_class(rest.as_str(), CharClass::Slash);
    let tunnel_trimmed = trim_class(tunnel_path, CharClass::Slash);
    out.append(rest_trimmed.as_str());
    out.append("/");
    out.append(tunnel_trimmed.as_str());
    out
}

/// The values `build_env_config` derives from the environment.
pub struct EnvConfig {
    pub base_http_url: String,
    pub tunnel_path: String,
    pub api_path: String,
    pub connection_prefix: String,
    pub username: String,
    pub password: String,
    pub connection_key: String,
    pub client_identifier: String,
    pub api_url: String,
    pub tunnel_url: String,
    pub websocket_url: String,
}

/// What `build_env_config` computes for `env` and `connection_name`.
pub open spec fn env_config_matches(
    cfg: EnvConfig,
    env: Map<Seq<char>, Seq<char>>,
    connection_name: Seq<char>,
) -> bool {
    let base = base_url_of(env_value(env, "GUAC_URL"));
    let tunnel = path_of(env_value(env, "GUAC_TUNNEL_PATH"));
    let api = path_of(env_value(env, "GUAC_API_PATH"));
    let prefix = identifier::sanitized(env_value(env, "GUAC_CONNECTION_PREFIX"));
    let key = identifier::sanitized(connection_name);
    &&& cfg.base_http_url@ == base
    &&& cfg.tunnel_path@ == tunnel
    &&& cfg.api_path@ == api
    &&& cfg.connection_prefix@ == prefix
    &&& cfg.username@ == env_value(env, "GUAC_ADMIN_USER")
    &&& cfg.password@ == env_value(env, "GUAC_ADMIN_PASS")
    &&& cfg.connection_key@ == key
    &&& cfg.client_identifier@ == prefix + "-"@ + key
    &&& cfg.api_url@ == base + "/"@ + api
    &&& cfg.tunnel_url@ == base + "/"@ + tunnel
    &&& cfg.websocket_url@ == websocket_url(base, tunnel)
}

/// Joins `a`, `sep` and `b`.
fn join3(a: &str, sep: &str, b: &str) -> (r: String)
    ensures
        r@ == a@ + sep@ + b@,
{
    let mut out = owned(a);
    out.append(sep);
    out.append(b);
    out
}

/// The value of `key`, which must be present.
fn required<'a>(env: &'a EnvMap, key: &str) -> (v: &'a String)
    requires
        env@.contains_key(key@),
    ensures
        v@ == env@[key@],
{
    match env.get(key) {
        Some(v) => v,
        None => unreached(),
    }
}

impl GuacamoleConnection {
    /// Reads the Guacamole settings from `env` and derives the URLs and
    /// identifiers for a connection named `connection_name`.
    pub fn build_env_config(env: &EnvMap, connection_name: &str) -> (cfg: EnvConfig)
        requires
            has_guacamole_settings(env@),
        ensures
            env_config_matches(cfg, env@, connection_name@),
    {
        let base_http_url = trim_end_class(
            trim_class(required(env, "GUAC_URL").as_str(), CharClass::Whitespace).as_str(),
            CharClass::Slash,
        );
        let tunnel_path = trim_class(
            trim_class(required(env, "GUAC_TUNNEL_PATH").as_str(), CharClass::Whitespace).as_str(),
            CharClass::Slash,
        );
        let api_path = trim_class(
            trim_class(required(env, "GUAC_API_PATH").as_str(), CharClass::Whitespace).as_str(),
            CharClass::Slash,
        );
        let connection_prefix = sanitize_identifier(
            required(env, "GUAC_CONNECTION_PREFIX").as_str(),
        );
        let username = required(env, "GUAC_ADMIN_USER").clone();
        let password = required(env, "GUAC_ADMIN_PASS").clone();
        let connection_key = sanitize_identifier(connection_name);
        let client_identifier = join3(connection_prefix.as_str(), "-", connection_key.as_str());
        let api_url = join3(base_http_url.as_str(), "/", api_path.as_str());
        let tunnel_url = join3(base_http_url.as_str(), "/", tunnel_path.as_str());
        let websocket_url = compute_websocket_url(base_http_url.as_str(), tunnel_path.as_str());
        EnvConfig {
            base_http_url,
            tunnel_path,
            api_path,
            connection_prefix,
            username,
            password,
            connection_key,
            client_identifier,
            api_url,
            tunnel_url,
            websocket_url,
        }
    }
}

/// A connection registered with Guacamole, with the URLs the UI needs.
#[derive(Debug, Clone)]
pub struct GuacamoleConnection {
    pub connection_name: String,
    pub connection_key: String,
    pub connection_id: String,
    pub client_identifier: String,
    pub api_url: String,
    pub client_url: String,
    pub websocket_url: String,
    pub tunnel_url: String,
    pub vnc_port: u16,
}

impl GuacamoleConnection {
    /// The record of a connection that Guacamole registered under
    /// `connection_id`, for the settings in `env_cfg`.
    pub fn assemble(
        connection_name: &str,
        env_cfg: EnvConfig,
        connection_id: String,
        vnc_port: u16,
    ) -> (c: GuacamoleConnection)
        ensures
            c.connection_name@ == connection_name@,
            c.connection_key@ == env_cfg.connection_key@,
            c.connection_id@ == connection_id@,
            c.client_identifier@ == env_cfg.client_identifier@,
            c.api_url@ == env_cfg.api_url@,
            c.client_url@ == env_cfg.base_http_url@ + "/#/client/"@ + env_cfg.client_identifier@,
            c.websocket_url@ == env_cfg.websocket_url@,
            c.tunnel_url@ == env_cfg.tunnel_url@,
            c.vnc_port == vnc_port,
    {
        let client_url = join3(
            env_cfg.base_http_url.as_str(),
            "/#/client/",
            env_cfg.client_identifier.as_str(),
        );
        GuacamoleConnection {
            connection_name: owned(connection_name),
            connection_key: env_cfg.connection_key,
            connection_id,
            client_identifier: env_cfg.client_identifier,
            api_url: env_cfg.api_url,
            client_url,
            websocket_url: env_cfg.websocket_url,
            tunnel_url: env_cfg.tunnel_url,
            vnc_port,
        }
    }

    /// The URL that deletes this connection from the data source `data_source`.
    pub fn delete_url(&self, data_source: &str) -> (r: String)
        ensures
            r@ == self.api_url@ + "/session/data/"@ + data_source@ + "/connections/"@
                + self.connection_id@,
    {
        let mut out = join3(self.api_url.as_str(), "/session/data/", data_source);
        out.append("/connections/");
        out.append(self.connection_id.as_str());
        out
    }
}

/// The URL that issues authentication tokens.
pub fn tokens_url(api_url: &str) -> (r: String)
    ensures
        r@ == api_url@ + "/tokens"@,
{
    let mut out = owned(api_url);
    out.append("/tokens");
    out
}

/// The URL under which connections of the data source `data_source` are created.
pub fn connections_url(api_url: &str, data_source: &str) -> (r: String)
    ensures
        r@ == api_url@ + "/session/data/"@ + data_source@ + "/connections"@,
{
    let mut out = join3(api_url, "/session/data/", data_source);
    out.append("/connections");
    out
}

/// The VNC server that a new connection points to.
#[derive(Debug)]
pub struct ConnectionParameters {
    pub hostname: String,
    pub port: String,
}

/// Per-connection limits; left empty, so Guacamole applies none.
#[derive(Debug)]
pub struct ConnectionAttributes {
    pub max_connections: String,
    pub max_connections_per_user: String,
}

/// The body of the request that creates a connection.
#[derive(Debug)]
pub struct CreateConnectionRequest {
    pub name: String,
    pub parent_identifier: String,
    pub protocol: String,
    pub parameters: ConnectionParameters,
    pub attributes: ConnectionAttributes,
}

impl CreateConnectionRequest {
    /// A VNC connection named `connection_name` to `vnc_host:vnc_port`, placed
    /// in the root group.
    pub fn for_vnc(connection_name: &str, vnc_host: &str, vnc_port: u16) -> (r:
        CreateConnectionRequest)
        ensures
            r.name@ == connection_name@,
            r.parent_identifier@ == "ROOT"@,
            r.protocol@ == "vnc"@,
            r.parameters.hostname@ == vnc_host@,
            r.parameters.port@ == text::decimal(vnc_port as nat),
            r.attributes.max_connections@ == Seq::<char>::empty(),
            r.attributes.max_connections_per_user@ == Seq::<char>::empty(),
    {
        CreateConnectionRequest {
            name: owned(connection_name),
            parent_identifier: owned("ROOT"),
            protocol: owned("vnc"),
            parameters: ConnectionParameters {
                hostname: owned(vnc_host),
                port: decimal_string(vnc_port as u64),
            },
            attributes: ConnectionAttributes {
                max_connections: String::new(),
                max_connections_per_user: String::new(),
            },
        }
    }
}

// ---------------------------------------------------------------------------
// Laws.

/// The tunnel's WebSocket URL is encrypted (`wss://`) exactly when the HTTP
/// base URL is (`https://`); otherwise it starts with `ws://`.
pub proof fn law_websocket_scheme(base: Seq<char>, tunnel_path: Seq<char>)
    ensures
        "wss://"@.is_prefix_of(websocket_url(base, tunnel_path)) <==> "https://"@.is_prefix_of(
            base,
        ),
        !"https://"@.is_prefix_of(base) ==> "ws://"@.is_prefix_of(websocket_url(base, tunnel_path)),
{
    reveal_strlit("wss://");
    reveal_strlit("ws://");
    reveal_strlit("/");
    let w = websocket_url(base, tunnel_path);
    let rest = if "https://"@.is_prefix_of(base) {
        base.skip("https://"@.len() as int)
    } else if "http://"@.is_prefix_of(base) {
        base.skip("http://"@.len() as int)
    } else {
        base
    };
    let tail = text::trim_of(rest, CharClass::Slash) + "/"@ + text::trim_of(tunnel_path, CharClass::Slash);
    if "https://"@.is_prefix_of(base) {
        assert(w =~= "wss://"@ + tail);
        assert(w.subrange(0, 6) =~= "wss://"@);
    } else {
        assert(w =~= "ws://"@ + tail);
        assert(w.subrange(0, 5) =~= "ws://"@);
        assert(w[2] == ':');
    }
}

/// The client identifier is the sanitized prefix and the sanitized connection
/// name joined by one hyphen; both parts are clean identifiers.
pub proof fn law_client_identifier_shape(cfg: EnvConfig, env: Map<Seq<char>, Seq<char>>, name: Seq<char>)
    requires
        env_config_matches(cfg, env, name),
    ensures
        cfg.client_identifier@ == cfg.connection_prefix@ + "-"@ + cfg.connection_key@,
        identifier::is_clean_identifier(cfg.connection_prefix@),
        identifier::is_clean_identifier(cfg.connection_key@),
{
    identifier::law_sanitized_is_clean(env_value(env, "GUAC_CONNECTION_PREFIX"));
    identifier::law_sanitized_is_clean(name);
}

proof fn lemma_base_url_trailing_slash(u: Seq<char>)
    requires
        text::trim_end_of(u, CharClass::Whitespace) == u,
    ensures
        base_url_of(u.push('/')) == base_url_of(u),
{
    let ws = CharClass::Whitespace;
    text::lemma_trim_end_len(u, ws);
    let a = text::trim_start_index(u, ws);
    let ts = text::trim_start_of(u, ws);
    text::lemma_trim_start_push(u, ws, '/');
    if ts.len() == 0 {
        if u.len() > 0 {
            assert(a < u.len());
            assert(ts[0] == u[a]);
        }
        assert(u =~= Seq::<char>::empty());
        assert(ts =~= Seq::<char>::empty());
        assert(ts.push('/') =~= seq!['/']);
    } else {
        assert(ts.last() == u.last());
    }
    assert(text::trim_start_of(u.push('/'), ws) == ts.push('/'));
    assert(text::trim_of(u.push('/'), ws) == ts.push('/'));
    assert(text::trim_of(u, ws) == ts);
    text::lemma_trim_end_push(ts, CharClass::Slash, '/');
}

proof fn lemma_path_surrounding_slashes(a: Seq<char>)
    requires
        text::trim_of(a, CharClass::Whitespace) == a,
    ensures
        path_of(seq!['/'] + a.push('/')) == path_of(a),
{
    let sl = CharClass::Slash;
    let x = seq!['/'] + a.push('/');
    assert(x[0] == '/');
    assert(x.last() == '/');
    text::lemma_trim_unchanged(x, CharClass::Whitespace);
    text::lemma_trim_start_prepend(a.push('/'), sl, '/');
    text::lemma_trim_start_push(a, sl, '/');
    let ts = text::trim_start_of(a, sl);
    if ts.len() > 0 {
        text::lemma_trim_end_push(ts, sl, '/');
    } else {
        assert(seq!['/'].drop_first() =~= Seq::<char>::empty());
        assert(seq!['/'][0] == '/');
        assert(text::trim_start_of(Seq::<char>::empty(), sl) =~= Seq::<char>::empty());
        assert(text::trim_start_of(seq!['/'], sl) =~= Seq::<char>::empty());
        assert(ts =~= Seq::<char>::empty());
    }
}

/// Slashes added around the settings change nothing: with `GUAC_URL` free
/// of trailing whitespace and `GUAC_API_PATH` free of surrounding whitespace,
/// a `/` appended to the URL and slashes put around the API path give the
/// same configuration.
pub proof fn law_surrounding_slashes_ignored(
    cfg: EnvConfig,
    cfg2: EnvConfig,
    env: Map<Seq<char>, Seq<char>>,
    name: Seq<char>,
)
    requires
        has_guacamole_settings(env),
        text::trim_end_of(env_value(env, "GUAC_URL"), CharClass::Whitespace) == env_value(
            env,
            "GUAC_URL",
        ),
        text::trim_of(env_value(env, "GUAC_API_PATH"), CharClass::Whitespace) == env_value(
            env,
            "GUAC_API_PATH",
        ),
        env_config_matches(cfg, env, name),
        env_config_matches(
            cfg2,
            env.insert("GUAC_URL"@, env_value(env, "GUAC_URL") + "/"@).insert(
                "GUAC_API_PATH"@,
                "/"@ + env_value(env, "GUAC_API_PATH") + "/"@,
            ),
            name,
        ),
    ensures
        cfg2.base_http_url@ == cfg.base_http_url@,
        cfg2.tunnel_path@ == cfg.tunnel_path@,
        cfg2.api_path@ == cfg.api_path@,
        cfg2.connection_prefix@ == cfg.connection_prefix@,
        cfg2.username@ == cfg.username@,
        cfg2.password@ == cfg.password@,
        cfg2.connection_key@ == cfg.connection_key@,
        cfg2.client_identifier@ == cfg.client_identifier@,
        cfg2.api_url@ == cfg.api_url@,
        cfg2.tunnel_url@ == cfg.tunnel_url@,
        cfg2.websocket_url@ == cfg.websocket_url@,
{
    reveal_strlit("/");
    reveal_strlit("GUAC_URL");
    reveal_strlit("GUAC_TUNNEL_PATH");
    reveal_strlit("GUAC_API_PATH");
    reveal_strlit("GUAC_CONNECTION_PREFIX");
    reveal_strlit("GUAC_ADMIN_USER");
    reveal_strlit("GUAC_ADMIN_PASS");
    let u = env_value(env, "GUAC_URL");
    let a = env_value(env, "GUAC_API_PATH");
    assert("/"@ =~= seq!['/']);
    assert(u + "/"@ =~= u.push('/'));
    assert("/"@ + a + "/"@ =~= seq!['/'] + a.push('/'));
    assert("GUAC_URL"@.len() == 8);
    assert("GUAC_API_PATH"@.len() == 13);
    assert("GUAC_TUNNEL_PATH"@.len() == 16);
    assert("GUAC_CONNECTION_PREFIX"@.len() == 22);
    assert("GUAC_ADMIN_USER"@.len() == 15);
    assert("GUAC_ADMIN_PASS"@.len() == 15);
    lemma_base_url_trailing_slash(u);
    lemma_path_surrounding_slashes(a);
}

/// Slashes at the end of the base URL, or between its scheme and its host,
/// do not change the WebSocket URL, whatever the scheme; nor do slashes
/// around the tunnel path.
pub proof fn law_websocket_ignores_extra_slashes(base: Seq<char>, tunnel_path: Seq<char>)
    ensures
        ("https://"@.is_prefix_of(base) == "https://"@.is_prefix_of(base.push('/'))
            && "http://"@.is_prefix_of(base) == "http://"@.is_prefix_of(base.push('/')))
            ==> websocket_url(base.push('/'), tunnel_path) == websocket_url(base, tunnel_path),
        websocket_url("https://"@ + seq!['/'] + base, tunnel_path) == websocket_url(
            "https://"@ + base,
            tunnel_path,
        ),
        websocket_url("http://"@ + seq!['/'] + base, tunnel_path) == websocket_url(
            "http://"@ + base,
            tunnel_path,
        ),
        websocket_url(base, tunnel_path.push('/')) == websocket_url(base, tunnel_path),
        websocket_url(base, seq!['/'] + tunnel_path) == websocket_url(base, tunnel_path),
{
    reveal_strlit("https://");
    reveal_strlit("http://");
    let sl = CharClass::Slash;
    text::lemma_trim_ignores_added_class_char(tunnel_path, sl, '/');
    let hs = "https://"@;
    let h = "http://"@;
    // a slash appended to the base
    if hs.is_prefix_of(base) == hs.is_prefix_of(base.push('/')) && h.is_prefix_of(base)
        == h.is_prefix_of(base.push('/')) {
        if hs.is_prefix_of(base) {
            assert(base.push('/').skip(hs.len() as int) =~= base.skip(hs.len() as int).push('/'));
            text::lemma_trim_ignores_added_class_char(base.skip(hs.len() as int), sl, '/');
        } else if h.is_prefix_of(base) {
            assert(base.push('/').skip(h.len() as int) =~= base.skip(h.len() as int).push('/'));
            text::lemma_trim_ignores_added_class_char(base.skip(h.len() as int), sl, '/');
        } else {
            text::lemma_trim_ignores_added_class_char(base, sl, '/');
        }
    }
    // a slash after the scheme
    let b1 = hs + seq!['/'] + base;
    let b2 = hs + base;
    assert(hs.is_prefix_of(b1)) by {
        assert(b1.subrange(0, hs.len() as int) =~= hs);
    }
    assert(hs.is_prefix_of(b2)) by {
        assert(b2.subrange(0, hs.len() as int) =~= hs);
    }
    assert(b1.skip(hs.len() as int) =~= seq!['/'] + base);
    assert(b2.skip(hs.len() as int) =~= base);
    text::lemma_trim_ignores_added_class_char(base, sl, '/');
    let c1 = h + seq!['/'] + base;
    let c2 = h + base;
    assert(!hs.is_prefix_of(c1)) by {
        assert(c1[4] == ':');
        assert(hs[4] == 's');
    }
    assert(!hs.is_prefix_of(c2)) by {
        if hs.is_prefix_of(c2) {
            assert(c2[4] == ':');
            assert(hs[4] == 's');
        }
    }
    assert(h.is_prefix_of(c1)) by {
        assert(c1.subrange(0, h.len() as int) =~= h);
    }
    assert(h.is_prefix_of(c2)) by {
        assert(c2.subrange(0, h.len() as int) =~= h);
    }
    assert(c1.skip(h.len() as int) =~= seq!['/'] + base);
    assert(c2.skip(h.len() as int) =~= base);
}

} // verus!
