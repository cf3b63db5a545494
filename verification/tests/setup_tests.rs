use backend::env_map::EnvMap;
use backend::setup::{
    build_guacamole_url, build_postgres_url, level_from_name, listen_address, load_env, load_envs,
    parse_log_level, LogLevel, SetupError,
};

fn strings(v: &[&str]) -> Vec<String> {
    v.iter().map(|s| s.to_string()).collect()
}

#[test]
fn env_map_insert_get_and_replace() {
    let mut m = EnvMap::new();
    assert!(m.get("A").is_none());
    m.insert("A".to_string(), "1".to_string());
    m.insert("B".to_string(), "2".to_string());
    m.insert("A".to_string(), "3".to_string());
    assert_eq!(m.get("A").map(|s| s.as_str()), Some("3"));
    assert_eq!(m.get("B").map(|s| s.as_str()), Some("2"));
    assert!(m.contains_key("B"));
    assert!(!m.contains_key("C"));
}

#[test]
fn env_map_extend_prefers_the_new_values() {
    let mut a = EnvMap::new();
    a.insert("X".to_string(), "old".to_string());
    a.insert("Y".to_string(), "y".to_string());
    let mut b = EnvMap::new();
    b.insert("X".to_string(), "new".to_string());
    b.insert("Z".to_string(), "z".to_string());
    a.extend(b);
    assert_eq!(a.get("X").unwrap(), "new");
    assert_eq!(a.get("Y").unwrap(), "y");
    assert_eq!(a.get("Z").unwrap(), "z");
}

#[test]
fn load_env_collects_all_variables() {
    let vars = strings(&["IMAGE_DIR", "OVERLAY_DIR"]);
    let m = load_env(".env.qemu", None, &vars, vec![Some("/img".into()), Some("/ovl".into())]).unwrap();
    assert_eq!(m.get("IMAGE_DIR").unwrap(), "/img");
    assert_eq!(m.get("OVERLAY_DIR").unwrap(), "/ovl");
}

#[test]
fn load_env_reports_the_file_that_failed() {
    let vars = strings(&["A"]);
    match load_env(".env", Some("not found".into()), &vars, vec![Some("x".into())]) {
        Err(SetupError::EnvLoadError(f, reason)) => {
            assert_eq!(f, ".env");
            assert_eq!(reason, "not found");
        }
        _ => panic!("expected EnvLoadError"),
    }
}

#[test]
fn load_env_reports_the_first_missing_variable() {
    let vars = strings(&["A", "B", "C"]);
    match load_env(".env", None, &vars, vec![Some("1".into()), None, None]) {
        Err(SetupError::EnvVarNotFound(name)) => assert_eq!(name, "B"),
        _ => panic!("expected EnvVarNotFound"),
    }
    match load_env(".env", None, &vars, vec![Some("1".into()), Some("2".into())]) {
        Err(SetupError::EnvVarNotFound(name)) => assert_eq!(name, "C"),
        _ => panic!("expected EnvVarNotFound"),
    }
}

#[test]
fn load_envs_merges_in_order() {
    let mut a = EnvMap::new();
    a.insert("K".into(), "first".into());
    a.insert("A".into(), "a".into());
    let mut b = EnvMap::new();
    b.insert("K".into(), "second".into());
    let m = load_envs(vec![Ok(a), Ok(b)]).unwrap();
    assert_eq!(m.get("K").unwrap(), "second");
    assert_eq!(m.get("A").unwrap(), "a");
}

#[test]
fn load_envs_stops_at_the_first_error() {
    let r = load_envs(vec![
        Ok(EnvMap::new()),
        Err(SetupError::EnvVarNotFound("X".into())),
        Err(SetupError::EnvLoadError("f".into(), "r".into())),
    ]);
    match r {
        Err(SetupError::EnvVarNotFound(name)) => assert_eq!(name, "X"),
        _ => panic!("expected the first error"),
    }
}

#[test]
fn postgres_url() {
    assert_eq!(
        build_postgres_url("lab", "pw", "db.local", "5432", "netlab"),
        "postgres://lab:pw@db.local:5432/netlab"
    );
}

#[test]
fn guacamole_url_with_and_without_https() {
    assert_eq!(build_guacamole_url("1", "guac", "8443"), "https://guac:8443/");
    assert_eq!(build_guacamole_url("0", "guac", "8080"), "http://guac:8080/");
    assert_eq!(build_guacamole_url("", "h", "1"), "http://h:1/");
}

#[test]
fn listen_address_joins_host_and_port() {
    assert_eq!(listen_address("0.0.0.0", "3000"), "0.0.0.0:3000");
}

#[test]
fn level_names() {
    assert_eq!(level_from_name("debug"), LogLevel::Debug);
    assert_eq!(level_from_name("info"), LogLevel::Info);
    assert_eq!(level_from_name("warn"), LogLevel::Warn);
    assert_eq!(level_from_name("warning"), LogLevel::Warn);
    assert_eq!(level_from_name("trace"), LogLevel::Trace);
    assert_eq!(level_from_name("error"), LogLevel::Error);
    assert_eq!(level_from_name("verbose"), LogLevel::Info);
}

#[test]
fn log_level_from_arguments() {
    assert_eq!(parse_log_level(&strings(&["backend"])), LogLevel::Info);
    assert_eq!(parse_log_level(&strings(&["backend", "--log-level", "DEBUG"])), LogLevel::Debug);
    assert_eq!(parse_log_level(&strings(&["backend", "--log-level", "Warning", "x"])), LogLevel::Warn);
    assert_eq!(parse_log_level(&strings(&["backend", "--log-level"])), LogLevel::Info);
    assert_eq!(parse_log_level(&strings(&["backend", "--log-level", "nope"])), LogLevel::Info);
    assert_eq!(
        parse_log_level(&strings(&["backend", "--log-level", "trace", "--log-level", "error"])),
        LogLevel::Trace
    );
}

#[test]
fn env_file_table_lists_the_required_variables() {
    let files = backend::setup::env_files();
    let names: Vec<&str> = files.iter().map(|(f, _)| f.as_str()).collect();
    assert_eq!(names, vec![".env.database", ".env.qemu", ".env", ".env.guacamole"]);
    assert_eq!(
        files[0].1,
        strings(&["POSTGRES_USER", "POSTGRES_PASSWORD", "POSTGRES_DB", "POSTGRES_PORT", "POSTGRES_HOST"])
    );
    assert_eq!(files[1].1, strings(&["IMAGE_DIR", "OVERLAY_DIR"]));
    assert_eq!(files[2].1, strings(&["BACKEND_HOST", "BACKEND_PORT"]));
    assert_eq!(files[3].1.len(), 9);
    assert_eq!(files[3].1[8], "GUAC_CONNECTION_PREFIX");
}

#[test]
fn complete_environment_adds_service_urls() {
    let mut env = EnvMap::new();
    for (k, v) in [
        ("POSTGRES_USER", "lab"),
        ("POSTGRES_PASSWORD", "pw"),
        ("POSTGRES_HOST", "db"),
        ("POSTGRES_PORT", "5432"),
        ("POSTGRES_DB", "netlab"),
        ("GUAC_DB_USER", "guac"),
        ("GUAC_DB_PASSWORD", "gpw"),
        ("GUAC_DB", "guacdb"),
        ("GUAC_HTTPS", "1"),
        ("GUAC_HOST", "guac.local"),
        ("GUAC_PORT", "8443"),
    ] {
        env.insert(k.into(), v.into());
    }
    let url = backend::setup::complete_environment(&mut env);
    assert_eq!(url, "postgres://lab:pw@db:5432/netlab");
    assert_eq!(env.get("DATABASE_URL").unwrap(), "postgres://lab:pw@db:5432/netlab");
    assert_eq!(env.get("GUAC_DATABASE_URL").unwrap(), "postgres://guac:gpw@db:5432/guacdb");
    assert_eq!(env.get("GUAC_URL").unwrap(), "https://guac.local:8443/");
    assert_eq!(env.get("POSTGRES_USER").unwrap(), "lab");
}
