use project_workspace::identity::{require_project, workspace_path_matches, WorkspaceIdentity};
use project_workspace::text::{decimal_text, hex_text, same_text, starts_with};
use std::path::Path;

#[test]
fn profiles_are_project_stable_but_connections_change_every_start() {
    let root = Path::new("test-root");
    let a = WorkspaceIdentity::new(root, "../../project/a", 12345);
    let again = WorkspaceIdentity::new(root, "../../project/a", 12345);
    let b = WorkspaceIdentity::new(root, "../../project/b", 12345);
    assert_eq!(a.profile, again.profile);
    assert_ne!(a.profile, b.profile);
    assert_ne!(a.extension, b.extension);
    assert_ne!(a.lane, again.lane);
    assert_ne!(a.endpoint, again.endpoint);
    assert!(workspace_path_matches(
        Some(&a.connection_path),
        &a.connection_path
    ));
    assert!(!workspace_path_matches(
        Some(&a.connection_path),
        &again.connection_path
    ));
    assert!(!workspace_path_matches(Some(&a.connection_path), "/"));
    assert!(a.profile.starts_with(root.join("browser-workspaces")));
    assert!(!a
        .profile
        .components()
        .any(|c| c == std::path::Component::ParentDir));
}

#[test]
fn the_formulas_of_an_identity() {
    let root = Path::new("root");
    let generation: u128 = 0x0123_4567_89ab_4def_8123_4567_89ab_cdef;
    let identity = WorkspaceIdentity::of_generation(root, "abc", 8080, generation);
    let key = "ba7816bf8f01cfea414140de5dae2223b00361a396177a9cb410ff61f20015ad";
    let token = "01234567-89ab-4def-8123-456789abcdef";
    assert_eq!(identity.project_id, "abc");
    assert_eq!(identity.lane, format!("workspace:{key}:{token}"));
    assert_eq!(identity.connection_path, format!("/{token}"));
    assert_eq!(identity.endpoint, format!("ws://127.0.0.1:8080/{token}"));
    let directory = root.join("browser-workspaces").join(key);
    assert_eq!(identity.profile, directory.join("profile"));
    assert_eq!(identity.extension, directory.join("extension"));
}

#[test]
fn the_digest_is_that_of_the_utf8_text() {
    let identity = WorkspaceIdentity::of_generation(Path::new("/"), "", 0, 0);
    assert_eq!(
        identity.lane,
        "workspace:e3b0c44298fc1c149afbf4c8996fb92427ae41e4649b934ca495991b7852b855:00000000-0000-0000-0000-000000000000"
    );
    assert_eq!(
        identity.endpoint,
        "ws://127.0.0.1:0/00000000-0000-0000-0000-000000000000"
    );
    let umlaut = WorkspaceIdentity::of_generation(Path::new("/"), "\u{e4}", 65535, u128::MAX);
    assert!(umlaut.endpoint.starts_with("ws://127.0.0.1:65535/ffffffff-ffff-"));
    assert_eq!(umlaut.lane.len(), "workspace:".len() + 64 + 1 + 36);
}

#[test]
fn generations_are_random_uuids() {
    let identity = WorkspaceIdentity::new(Path::new("root"), "a", 1);
    let token = &identity.connection_path[1..];
    assert_eq!(token.len(), 36);
    let digits: Vec<char> = token.chars().collect();
    assert_eq!(digits[14], '4');
    assert!(matches!(digits[19], '8' | '9' | 'a' | 'b'));
    assert!(identity.lane.ends_with(token));
    assert!(identity.endpoint.ends_with(&identity.connection_path));
}

#[test]
fn directories_do_not_depend_on_port_or_generation() {
    let root = Path::new("/data");
    let one = WorkspaceIdentity::of_generation(root, "p", 1, 1);
    let two = WorkspaceIdentity::of_generation(root, "p", 2, 2);
    assert_eq!(one.profile, two.profile);
    assert_eq!(one.extension, two.extension);
    assert_ne!(one.profile, two.extension);
    assert_ne!(one.lane, two.lane);
    assert_ne!(one.connection_path, two.connection_path);
    let other_port = WorkspaceIdentity::of_generation(root, "p", 2, 1);
    assert_eq!(one.lane, other_port.lane);
    assert_ne!(one.endpoint, other_port.endpoint);
}

#[test]
fn an_identity_is_copied_whole() {
    let one = WorkspaceIdentity::of_generation(Path::new("r"), "p", 1, 1);
    let two = one.clone();
    assert_eq!(one.project_id, two.project_id);
    assert_eq!(one.lane, two.lane);
    assert_eq!(one.profile, two.profile);
    assert_eq!(one.extension, two.extension);
    assert_eq!(one.endpoint, two.endpoint);
    assert_eq!(one.connection_path, two.connection_path);
}

#[test]
fn a_project_is_required() {
    assert_eq!(require_project(Some("a")), Ok("a"));
    assert_eq!(
        require_project(Some("")),
        Err("workspace browser requires a current project".to_string())
    );
    assert_eq!(
        require_project(None),
        Err("workspace browser requires a current project".to_string())
    );
}

#[test]
fn a_listener_without_a_path_takes_every_socket() {
    assert!(workspace_path_matches(None, "/"));
    assert!(workspace_path_matches(None, "/anything"));
    assert!(!workspace_path_matches(Some("/a"), "/a/"));
    assert!(!workspace_path_matches(Some("/a"), ""));
}

#[test]
fn numbers_and_bytes_become_digits() {
    assert_eq!(decimal_text(0), "0");
    assert_eq!(decimal_text(9), "9");
    assert_eq!(decimal_text(10), "10");
    assert_eq!(decimal_text(65535), "65535");
    assert_eq!(hex_text(&[]), "");
    assert_eq!(hex_text(&[0, 15, 16, 171, 255]), "000f10abff");
    assert!(starts_with("workspace:x", "workspace:"));
    assert!(!starts_with("workspace", "workspace:"));
    assert!(starts_with("\u{e4}b", "\u{e4}"));
    assert!(same_text("", ""));
    assert!(!same_text("a", "b"));
}

#[test]
fn roots_of_every_kind_get_directories() {
    for root in ["", ".", "..", "/", "/data", "//server", "\\", "a/../b", "C:"] {
        let root = Path::new(root);
        let identity = WorkspaceIdentity::of_generation(root, "abc", 1, 1);
        let other = WorkspaceIdentity::of_generation(root, "abd", 1, 1);
        assert_eq!(
            identity.profile,
            root.join("browser-workspaces")
                .join("ba7816bf8f01cfea414140de5dae2223b00361a396177a9cb410ff61f20015ad")
                .join("profile")
        );
        assert_ne!(identity.profile, other.profile);
        assert_ne!(identity.profile, identity.extension);
        assert_eq!(
            identity.profile.components().count(),
            root.components().count() + 3
        );
    }
}

#[test]
fn the_key_is_the_digest_in_hexadecimal() {
    let root = Path::new("root");
    let mut digest = vec![0u8; 32];
    digest[0] = 0xab;
    digest[31] = 0x0c;
    let identity = WorkspaceIdentity::of_digest(root, "p", 7, 1, &digest);
    let key = format!("ab{}0c", "0".repeat(60));
    let token = "00000000-0000-0000-0000-000000000001";
    assert_eq!(identity.project_id, "p");
    assert_eq!(identity.lane, format!("workspace:{key}:{token}"));
    assert_eq!(identity.endpoint, format!("ws://127.0.0.1:7/{token}"));
    assert_eq!(identity.connection_path, format!("/{token}"));
    let directory = root.join("browser-workspaces").join(&key);
    assert_eq!(identity.profile, directory.join("profile"));
    assert_eq!(identity.extension, directory.join("extension"));
}
