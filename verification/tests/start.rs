use project_workspace::bridge::BrowserBridge;
use project_workspace::identity::WorkspaceIdentity;
use project_workspace::start::{
    Listening, PlannedWorkspace, StartOutcome, StartTicket, WorkspaceBrowser, WorkspaceLaunch,
};
use std::path::Path;
use std::time::Duration;

fn chromium() -> WorkspaceBrowser {
    WorkspaceBrowser {
        name: "Chromium".into(),
        path: "unused".into(),
        loads_unpacked_extensions: true,
    }
}

fn chrome() -> WorkspaceBrowser {
    WorkspaceBrowser {
        name: "Chrome".into(),
        path: "unused".into(),
        loads_unpacked_extensions: false,
    }
}

fn ticket(bridge: &mut BrowserBridge, project: &str) -> StartTicket {
    match bridge.start_workspace(Some(project), false) {
        (_, StartOutcome::Proceed(ticket)) => ticket,
        other => panic!("{other:?}"),
    }
}

fn plan(ticket: StartTicket, extension: &str, browser: WorkspaceBrowser) -> PlannedWorkspace {
    let found = ticket.with_extension(Some(extension.into())).unwrap();
    let found = found.with_browser(Ok(browser)).unwrap();
    found
        .with_listener(Listening::Port(12345), Path::new("unused"))
        .unwrap()
}

fn launch_of(
    bridge: &mut BrowserBridge,
    project: &str,
    browser: WorkspaceBrowser,
) -> (WorkspaceLaunch, WorkspaceIdentity) {
    let planned = plan(ticket(bridge, project), "extension", browser);
    let launch = planned.with_extension_copied(Ok(())).unwrap();
    let identity = launch.identity().clone();
    (launch, identity)
}

#[test]
fn failed_launch_and_connection_timeout_leave_no_instance() {
    let mut bridge = BrowserBridge::new();
    let (launch, _) = launch_of(&mut bridge, "a", chrome());
    let (replaced, failed) = bridge.launch_workspace(launch, Err("fake launch failure".into()));
    assert!(failed.unwrap_err().contains("fake launch"));
    assert!(replaced.is_none());
    assert_eq!(bridge.workspaces.len(), 0);
    let (launch, identity) = launch_of(&mut bridge, "a", chrome());
    let (replaced, waiting) = bridge.launch_workspace(launch, Ok(()));
    assert!(replaced.is_none());
    assert_eq!(bridge.workspaces.len(), 1);
    let waiting = waiting.unwrap();
    assert_eq!(waiting.lane(), identity.lane);
    let (stopping, finished) = bridge.finish_launch(waiting, false, Duration::ZERO);
    let blocked = finished.unwrap_err();
    assert_eq!(blocked.browser.name, "Chrome");
    assert_eq!(blocked.extension_path, "extension");
    assert_eq!(blocked.endpoint, identity.endpoint);
    assert_eq!(blocked.waited, Duration::ZERO);
    assert!(!blocked.retryable);
    assert_eq!(stopping.unwrap().lane(), identity.lane);
    assert_eq!(bridge.workspaces.len(), 0);
}

#[test]
fn successful_start_waits_for_its_own_connection() {
    let mut bridge = BrowserBridge::new();
    let (launch, identity) = launch_of(&mut bridge, "a", chromium());
    // No client takes the lane before the launch has registered it.
    assert!(!bridge.install_client_on(1, &identity.lane));
    let (_, waiting) = bridge.launch_workspace(launch, Ok(()));
    assert!(bridge.install_client_on(9, "shared"));
    assert!(!bridge.is_connected(&identity.lane));
    assert!(bridge.install_client_on(1, &identity.lane));
    let connected = bridge.is_connected(&identity.lane);
    let (stopping, finished) =
        bridge.finish_launch(waiting.unwrap(), connected, Duration::from_secs(1));
    let status = finished.unwrap();
    assert!(status.connected);
    assert!(status.process_running);
    assert_eq!(status.project_id.as_deref(), Some("a"));
    assert_eq!(status.instance.unwrap().lane, identity.lane);
    assert!(stopping.is_none());
    assert_eq!(bridge.workspaces.len(), 1);
}

#[test]
fn a_start_needs_a_project() {
    let mut bridge = BrowserBridge::new();
    for project in [None, Some("")] {
        let (stopping, outcome) = bridge.start_workspace(project, false);
        assert!(stopping.is_none());
        match outcome {
            StartOutcome::Refused(error) => {
                assert_eq!(error, "workspace browser requires a current project")
            }
            other => panic!("{other:?}"),
        }
    }
}

#[test]
fn a_running_workspace_is_not_started_again() {
    let mut bridge = BrowserBridge::new();
    let (launch, identity) = launch_of(&mut bridge, "a", chromium());
    let (_, waiting) = bridge.launch_workspace(launch, Ok(()));
    assert!(waiting.is_ok());
    let (stopping, outcome) = bridge.start_workspace(Some("a"), true);
    assert!(stopping.is_none());
    match outcome {
        StartOutcome::Running(status) => {
            assert_eq!(status.instance.unwrap().lane, identity.lane);
            assert!(status.process_running);
            assert!(!status.connected);
        }
        other => panic!("{other:?}"),
    }
    // One that has exited makes way for a new start.
    let (stopping, outcome) = bridge.start_workspace(Some("a"), false);
    assert_eq!(stopping.unwrap().lane(), identity.lane);
    assert!(matches!(outcome, StartOutcome::Proceed(_)));
    assert_eq!(bridge.workspaces.len(), 0);
}

#[test]
fn starts_never_exceed_the_limit() {
    let mut bridge = BrowserBridge::new();
    for project in ["a", "b", "c"] {
        let (launch, _) = launch_of(&mut bridge, project, chromium());
        let (_, waiting) = bridge.launch_workspace(launch, Ok(()));
        assert!(waiting.is_ok());
    }
    let (stopping, outcome) = bridge.start_workspace(Some("d"), false);
    assert!(stopping.is_none());
    match outcome {
        StartOutcome::Refused(error) => assert!(error.starts_with("workspace browser limit (3)")),
        other => panic!("{other:?}"),
    }
    assert_eq!(bridge.workspaces.len(), 3);
    // A project whose own browser has exited has room.
    let (stopping, outcome) = bridge.start_workspace(Some("b"), false);
    assert!(stopping.is_some());
    assert!(matches!(outcome, StartOutcome::Proceed(_)));
    let (_, outcome) = bridge.start_workspace(Some("d"), false);
    assert!(matches!(outcome, StartOutcome::Proceed(_)));
}

#[test]
fn a_start_fails_with_what_was_not_found() {
    let mut bridge = BrowserBridge::new();
    assert_eq!(
        ticket(&mut bridge, "a").with_extension(None).unwrap_err(),
        "bundled browser-extension path is not available; cannot materialize workspace copy"
    );
    let found = ticket(&mut bridge, "a").with_extension(Some("bundle".into())).unwrap();
    assert_eq!(found.with_browser(Err("no browser".into())).unwrap_err(), "no browser");
    let mut browser_found = || {
        let found = ticket(&mut bridge, "a").with_extension(Some("bundle".into())).unwrap();
        found.with_browser(Ok(chromium())).unwrap()
    };
    let root = Path::new("data");
    assert_eq!(
        browser_found()
            .with_listener(Listening::NotBound("in use".into()), root)
            .unwrap_err(),
        "cannot listen for project workspace: in use"
    );
    assert_eq!(
        browser_found()
            .with_listener(Listening::NoAddress("gone".into()), root)
            .unwrap_err(),
        "gone"
    );
    let planned = plan(ticket(&mut bridge, "a"), "bundle", chromium());
    assert_eq!(
        planned.with_extension_copied(Err("disk full".into())).unwrap_err(),
        "disk full"
    );
}

#[test]
fn a_start_hands_its_identity_on() {
    let mut bridge = BrowserBridge::new();
    let planned = plan(ticket(&mut bridge, "a"), "bundle", chromium());
    let copy = planned.extension_copy();
    assert_eq!(copy.source, "bundle");
    let launch = planned.with_extension_copied(Ok(())).unwrap();
    let identity = launch.identity();
    assert_eq!(identity.project_id, "a");
    assert!(identity.endpoint.starts_with("ws://127.0.0.1:12345/"));
    assert_eq!(copy.target, identity.extension);
    assert_eq!(copy.lane, identity.lane);
    assert_eq!(copy.endpoint, identity.endpoint);
    let directories = launch.directories();
    assert_eq!(directories.profile, identity.profile);
    assert_eq!(directories.extension, identity.extension);
    assert_eq!(launch.browser().name, "Chromium");
}

#[test]
fn a_launch_shuts_down_the_one_it_replaces() {
    let mut bridge = BrowserBridge::new();
    let (first, first_identity) = launch_of(&mut bridge, "a", chromium());
    let (second, second_identity) = launch_of(&mut bridge, "a", chromium());
    let (replaced, _) = bridge.launch_workspace(first, Ok(()));
    assert!(replaced.is_none());
    let (replaced, _) = bridge.launch_workspace(second, Ok(()));
    assert_eq!(replaced, Some(first_identity.lane));
    assert_eq!(bridge.workspaces.get("a").unwrap().lane, second_identity.lane);
}

#[test]
fn a_launch_keeps_a_lane_that_is_its_own() {
    let mut bridge = BrowserBridge::new();
    let (launch, identity) = launch_of(&mut bridge, "a", chromium());
    bridge.workspaces.insert("a".into(), identity.clone());
    let (replaced, waiting) = bridge.launch_workspace(launch, Ok(()));
    assert_eq!(replaced, None);
    assert_eq!(waiting.unwrap().lane(), identity.lane);
}
