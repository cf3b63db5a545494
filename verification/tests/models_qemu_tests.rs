use std::collections::HashSet;

use backend::env_map::EnvMap;
use backend::guacamole::GuacamoleConnection;
use backend::models::{
    join_file_name, path_to_check, PathToCheck, UnresolvablePath,
    not_implemented, validate_and_resolve_path, vnc_connection_failure, ApiResponse,
    CreateVncConnectionRequest, CreateVncConnectionResponse, Image, ImagePathError,
};
use backend::qemu::{
    get_image_chain,
    allocate_vnc_display, disable_vnc_command, display_to_enable, enable_vnc_command, get_vnc_info,
    vnc_port_for_display, QemuConfig, QemuError, QemuInstance,
};

fn comps(v: &[&str]) -> Vec<Vec<u8>> {
    v.iter().map(|s| s.as_bytes().to_vec()).collect()
}

#[test]
fn path_inside_base_is_accepted() {
    let base = comps(&["/", "srv", "images"]);
    let resolved = comps(&["/", "srv", "images", "ubuntu.qcow2"]);
    let r = validate_and_resolve_path(&base, resolved.clone(), "ubuntu.qcow2").unwrap();
    assert_eq!(r, resolved);
}

#[test]
fn path_outside_base_is_refused() {
    let base = comps(&["/", "srv", "images"]);
    let resolved = comps(&["/", "etc", "passwd"]);
    match validate_and_resolve_path(&base, resolved, "../../etc/passwd") {
        Err(ImagePathError::PathTraversal(msg)) => {
            assert_eq!(msg, "../../etc/passwd is outside the allowed directory")
        }
        _ => panic!("expected PathTraversal"),
    }
}

#[test]
fn sibling_directory_with_common_prefix_is_refused() {
    let base = comps(&["/", "srv", "images"]);
    let resolved = comps(&["/", "srv", "images2", "x"]);
    assert!(validate_and_resolve_path(&base, resolved, "../images2/x").is_err());
    let short = comps(&["/", "srv"]);
    assert!(validate_and_resolve_path(&base, short, "..").is_err());
}

#[test]
fn base_image_has_no_parent() {
    let base = Image { id: 1, name: "ubuntu".into(), path: "u.qcow2".into(), parent_id: None, description: None };
    let overlay = Image { id: 2, name: "docker".into(), path: "d.qcow2".into(), parent_id: Some(1), description: None };
    assert!(base.is_base_image());
    assert!(!overlay.is_base_image());
}

#[test]
fn api_response_constructors() {
    let ok = ApiResponse::ok(7u32);
    assert!(ok.success);
    assert_eq!(ok.data, Some(7));
    assert!(ok.error.is_none());
    let err = ApiResponse::<u32>::error("boom".to_string());
    assert!(!err.success);
    assert!(err.data.is_none());
    assert_eq!(err.error.as_deref(), Some("boom"));
    assert_eq!(not_implemented().error.as_deref(), Some("Not yet implemented"));
    assert_eq!(
        vnc_connection_failure("Authentication failed").error.as_deref(),
        Some("Failed to create VNC connection: Authentication failed")
    );
}

#[test]
fn vnc_request_default_name() {
    let named = CreateVncConnectionRequest { connection_name: Some("x".into()), vnc_host: "h".into(), vnc_port: 5900 };
    let unnamed = CreateVncConnectionRequest { connection_name: None, vnc_host: "h".into(), vnc_port: 5900 };
    assert_eq!(named.connection_name_or_default(), "x");
    assert_eq!(unnamed.connection_name_or_default(), "vnc-connection");
}

#[test]
fn vnc_response_from_connection() {
    let mut env = EnvMap::new();
    for (k, v) in [
        ("GUAC_URL", "http://g:8080"),
        ("GUAC_TUNNEL_PATH", "tunnel"),
        ("GUAC_API_PATH", "api"),
        ("GUAC_CONNECTION_PREFIX", "lab"),
        ("GUAC_ADMIN_USER", "u"),
        ("GUAC_ADMIN_PASS", "p"),
    ] {
        env.insert(k.into(), v.into());
    }
    let cfg = GuacamoleConnection::build_env_config(&env, "n1");
    let c = GuacamoleConnection::assemble("n1", cfg, "7".into(), 5900);
    let r = CreateVncConnectionResponse::from_connection(c);
    assert_eq!(r.connection_name, "n1");
    assert_eq!(r.connection_id, "7");
    assert_eq!(r.client_url, "http://g:8080/#/client/lab-n1");
    assert_eq!(r.websocket_url, "ws://g:8080/tunnel");
    assert_eq!(r.tunnel_url, "http://g:8080/tunnel");
}

#[test]
fn default_qemu_config() {
    let c = QemuConfig::default();
    assert_eq!(c.memory_mb, 1024);
    assert_eq!(c.cpu_cores, 1);
    assert!(c.enable_kvm);
    assert!(c.vnc_display.is_none());
    assert!(c.extra_args.is_empty());
}

#[test]
fn allocate_lowest_free_display() {
    let used: HashSet<u16> = [0u16, 1, 3].into_iter().collect();
    assert_eq!(allocate_vnc_display(&used, 0, 10).unwrap(), 2);
    assert_eq!(allocate_vnc_display(&used, 3, 10).unwrap(), 4);
    assert_eq!(allocate_vnc_display(&HashSet::new(), 5, 6).unwrap(), 5);
}

#[test]
fn allocate_fails_when_range_is_full() {
    let used: HashSet<u16> = [0u16, 1, 2].into_iter().collect();
    assert!(matches!(allocate_vnc_display(&used, 0, 3), Err(QemuError::VncPortAllocationFailed)));
    assert!(matches!(allocate_vnc_display(&used, 4, 4), Err(QemuError::VncPortAllocationFailed)));
}

#[test]
fn vnc_ports_and_commands() {
    assert_eq!(vnc_port_for_display(0).unwrap(), 5900);
    assert_eq!(vnc_port_for_display(59635).unwrap(), 65535);
    assert!(matches!(vnc_port_for_display(59636), Err(QemuError::VncPortAllocationFailed)));
    assert_eq!(enable_vnc_command(3), "change vnc :3");
    assert_eq!(disable_vnc_command(), "change vnc none");
}

#[test]
fn vnc_state_read_back() {
    let mut inst = QemuInstance { node_id: 9, vnc_port: None, monitor_socket: Some("/tmp/m.sock".into()) };
    assert!(matches!(get_vnc_info(&inst), Err(QemuError::VncNotEnabled)));
    assert_eq!(display_to_enable(&inst, None), Some(0));
    assert_eq!(display_to_enable(&inst, Some(4)), Some(4));
    assert_eq!(inst.record_vnc_enabled(4).unwrap(), 5904);
    let (host, port) = get_vnc_info(&inst).unwrap();
    assert_eq!(host, "localhost");
    assert_eq!(port, 5904);
    assert_eq!(display_to_enable(&inst, Some(1)), None);
    inst.record_vnc_disabled();
    assert!(matches!(get_vnc_info(&inst), Err(QemuError::VncNotEnabled)));
    assert_eq!(inst.node_id, 9);
}

#[test]
fn components_differing_only_in_non_utf8_bytes_are_different() {
    let base = vec![b"/".to_vec(), vec![0x73, 0xff]];
    let resolved = vec![b"/".to_vec(), vec![0x73, 0xfe], b"x".to_vec()];
    assert!(validate_and_resolve_path(&base, resolved, "x").is_err());
}

#[test]
fn what_to_resolve() {
    assert_eq!(path_to_check(true, true), Ok(PathToCheck::FullPath));
    assert_eq!(path_to_check(true, false), Ok(PathToCheck::FullPath));
    assert_eq!(path_to_check(false, true), Ok(PathToCheck::ParentAndFileName));
    assert_eq!(path_to_check(false, false), Err(UnresolvablePath::NoParentDirectory));
    assert_eq!(UnresolvablePath::NoParentDirectory.message(), "Path has no parent directory");
    assert_eq!(UnresolvablePath::NoFileName.message(), "Path has no filename");
}

#[test]
fn file_name_joined_to_parent() {
    let parent = comps(&["/", "srv", "overlays"]);
    assert_eq!(
        join_file_name(parent.clone(), Some(b"node.qcow2".to_vec())).unwrap(),
        comps(&["/", "srv", "overlays", "node.qcow2"])
    );
    assert_eq!(join_file_name(parent, None), Err(UnresolvablePath::NoFileName));
}

fn image(id: u128, parent: Option<u128>) -> Image {
    Image { id, name: format!("img{}", id), path: format!("{}.qcow2", id), parent_id: parent, description: None }
}

#[test]
fn image_chain_runs_from_base_to_image() {
    let images = vec![image(3, Some(2)), image(1, None), image(2, Some(1)), image(4, Some(1))];
    assert_eq!(get_image_chain(&images, 3).unwrap(), vec![1, 2, 0]);
    assert_eq!(get_image_chain(&images, 4).unwrap(), vec![1, 3]);
    assert_eq!(get_image_chain(&images, 1).unwrap(), vec![1]);
}

#[test]
fn image_chain_reports_missing_images() {
    let images = vec![image(3, Some(2)), image(1, None)];
    assert!(matches!(get_image_chain(&images, 9), Err(QemuError::ImageNotFound(9))));
    assert!(matches!(get_image_chain(&images, 3), Err(QemuError::ImageNotFound(2))));
    assert!(matches!(get_image_chain(&Vec::new(), 1), Err(QemuError::ImageNotFound(1))));
}

#[test]
fn image_chain_detects_cycles() {
    let images = vec![image(1, Some(2)), image(2, Some(1))];
    match get_image_chain(&images, 1) {
        Err(QemuError::InvalidConfiguration(m)) => assert_eq!(m, "image parent links form a cycle"),
        _ => panic!("expected a cycle"),
    }
    let self_loop = vec![image(5, Some(5))];
    assert!(matches!(get_image_chain(&self_loop, 5), Err(QemuError::InvalidConfiguration(_))));
}
