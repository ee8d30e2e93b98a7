use project_workspace::accept::{
    accept_workspace, serve_workspace, ConnectionEvent, ConnectionStep, ListenerEvent,
    ListenerStep,
};
use project_workspace::identity::WorkspaceIdentity;
use project_workspace::status::{StatusField, StatusValue, WorkspaceStatus};
use std::path::Path;

fn names(fields: &[StatusField]) -> Vec<&str> {
    fields.iter().map(|field| field.name.as_str()).collect()
}

fn text(field: &StatusField) -> &str {
    match &field.value {
        StatusValue::Text(text) => text,
        other => panic!("{other:?}"),
    }
}

#[test]
fn the_fields_of_a_registered_workspace() {
    let identity = WorkspaceIdentity::new(Path::new("root"), "a", 80);
    let fields = identity.status(true, false).fields().unwrap();
    assert_eq!(
        names(&fields),
        vec![
            "session",
            "project_id",
            "lane",
            "connected",
            "process_running",
            "profile_dir",
            "extension_dir",
            "endpoint",
            "workspace_limit"
        ]
    );
    assert_eq!(text(&fields[0]), "workspace");
    assert_eq!(text(&fields[1]), "a");
    assert_eq!(text(&fields[2]), identity.lane);
    assert!(matches!(fields[3].value, StatusValue::Bool(true)));
    assert!(matches!(fields[4].value, StatusValue::Bool(false)));
    assert_eq!(text(&fields[5]), identity.profile.to_str().unwrap());
    assert_eq!(text(&fields[6]), identity.extension.to_str().unwrap());
    assert!(text(&fields[5]).starts_with("root"));
    assert!(text(&fields[5]).ends_with("profile"));
    assert_eq!(text(&fields[7]), identity.endpoint);
    assert!(matches!(fields[8].value, StatusValue::Count(3)));
}

#[test]
fn the_fields_where_no_workspace_is_registered() {
    let expected = vec![
        "session",
        "project_id",
        "connected",
        "process_running",
        "workspace_limit",
    ];
    let fields = WorkspaceStatus::absent(None).fields().unwrap();
    assert_eq!(names(&fields), expected);
    assert!(matches!(fields[1].value, StatusValue::Null));
    assert!(matches!(fields[2].value, StatusValue::Bool(false)));
    assert!(matches!(fields[3].value, StatusValue::Bool(false)));
    assert!(matches!(fields[4].value, StatusValue::Count(3)));
    let fields = WorkspaceStatus::absent(Some("p")).fields().unwrap();
    assert_eq!(names(&fields), expected);
    assert_eq!(text(&fields[1]), "p");
}

#[test]
fn the_listener_stops_when_shut_down_or_broken() {
    assert!(matches!(accept_workspace(ListenerEvent::Accepted), ListenerStep::Spawn));
    assert!(matches!(accept_workspace(ListenerEvent::AcceptFailed), ListenerStep::Stop));
    assert!(matches!(accept_workspace(ListenerEvent::ShutdownChanged), ListenerStep::Stop));
}

#[test]
fn a_socket_is_served_on_its_own_lane_and_path() {
    let identity = WorkspaceIdentity::new(Path::new("root"), "a", 80);
    match serve_workspace(&identity, ConnectionEvent::Spawned { shut_down: false }) {
        ConnectionStep::Serve { lane, required_path } => {
            assert_eq!(lane, identity.lane);
            assert_eq!(required_path, Some(identity.connection_path.clone()));
        }
        other => panic!("{other:?}"),
    }
    let close = |event: ConnectionEvent| {
        matches!(serve_workspace(&identity, event), ConnectionStep::Close)
    };
    assert!(close(ConnectionEvent::Spawned { shut_down: true }));
    assert!(close(ConnectionEvent::ShutdownChanged));
    assert!(close(ConnectionEvent::Served(Ok(()))));
    match serve_workspace(&identity, ConnectionEvent::Served(Err("bad path".into()))) {
        ConnectionStep::Warn(message) => {
            assert_eq!(message, "project workspace connection rejected: bad path")
        }
        other => panic!("{other:?}"),
    }
}
