use project_workspace::bridge::{BridgeAction, BrowserBridge, ExistingWorkspace, TurnLease};
use project_workspace::identity::{WorkspaceIdentity, MAX_WORKSPACES};
use project_workspace::tabs::{CleanupPrompt, TabRef, TurnLedger};
use std::path::Path;

fn register_fake(bridge: &mut BrowserBridge, project: &str) -> WorkspaceIdentity {
    let identity = WorkspaceIdentity::new(Path::new("unused-test-root"), project, 12345);
    bridge.workspaces.insert(project.into(), identity.clone());
    identity
}

fn tab(session: &str, tab_id: i64) -> TabRef {
    TabRef { session: session.into(), tab_id, handle: 100 + tab_id as u64 }
}

fn cleanup(turn_id: &str, frame_id: &str, tabs: Vec<TabRef>) -> CleanupPrompt {
    CleanupPrompt { turn_id: turn_id.into(), frame_id: frame_id.into(), handle: 8, tabs }
}

fn pending_on(bridge: &BrowserBridge, lane: &str) -> usize {
    bridge.sessions.get(lane).unwrap().pending.len()
}

fn remove(bridge: &mut BrowserBridge, project: &str) -> Vec<BridgeAction> {
    let stopping = bridge.remove_workspace(project).unwrap();
    bridge.forget_workspace(stopping)
}

fn workspace_session() -> Result<Option<String>, String> {
    Ok(Some("workspace".into()))
}

#[test]
fn tools_route_identical_tab_ids_to_their_own_project() {
    let mut bridge = BrowserBridge::new();
    let a = register_fake(&mut bridge, "a");
    let b = register_fake(&mut bridge, "b");
    assert!(bridge.install_client_on(1, &a.lane));
    assert!(bridge.install_client_on(2, &b.lane));
    assert_eq!(
        bridge.tool_session(workspace_session(), Some("a")),
        Ok(Some(a.lane.clone()))
    );
    assert_eq!(
        bridge.tool_session(workspace_session(), Some("b")),
        Ok(Some(b.lane.clone()))
    );
    assert_ne!(a.lane, b.lane);
    assert!(bridge
        .tool_session(Ok(Some(a.lane.clone())), Some("b"))
        .is_err());
    assert!(bridge.tool_session(workspace_session(), Some("")).is_err());
    assert!(bridge
        .tool_session(workspace_session(), Some("missing"))
        .is_err());
}

#[test]
fn tool_errors_say_what_is_missing() {
    let bridge = BrowserBridge::new();
    assert_eq!(
        bridge.tool_session(workspace_session(), None),
        Err("workspace browser requires a current project".into())
    );
    assert_eq!(
        bridge.tool_session(workspace_session(), Some("")),
        Err("workspace browser requires a current project".into())
    );
    assert_eq!(
        bridge.tool_session(workspace_session(), Some("missing")),
        Err("project 'missing' has no workspace browser; call browser_setup with action=start_workspace first".into())
    );
}

#[test]
fn lanes_are_not_asked_for_by_name() {
    let mut bridge = BrowserBridge::new();
    let a = register_fake(&mut bridge, "a");
    let refused = Err("workspace browsers are reached by the session 'workspace' only".into());
    for project in [Some("a"), Some("b"), Some(""), None] {
        for name in [a.lane.as_str(), "workspace:", "workspace:unknown"] {
            assert_eq!(bridge.tool_session(Ok(Some(name.into())), project), refused);
        }
    }
    assert_eq!(
        bridge.tool_session(Err("unknown session".into()), Some("a")),
        Err("unknown session".into())
    );
}

#[test]
fn other_sessions_stand_for_themselves() {
    let mut bridge = BrowserBridge::new();
    register_fake(&mut bridge, "a");
    assert_eq!(bridge.tool_session(Ok(None), Some("a")), Ok(None));
    assert_eq!(bridge.tool_session(Ok(None), None), Ok(None));
    for name in ["shared", "Workspace", "workspaces", ""] {
        assert_eq!(
            bridge.tool_session(Ok(Some(name.into())), Some("a")),
            Ok(Some(name.into()))
        );
    }
}

#[test]
fn stop_removes_only_its_process_requests_and_tab_state() {
    let mut bridge = BrowserBridge::new();
    let a = register_fake(&mut bridge, "a");
    let b = register_fake(&mut bridge, "b");
    assert!(bridge.install_client_on(1, &a.lane));
    assert!(bridge.install_client_on(2, &b.lane));
    assert!(bridge.expect_reply_on(&a.lane, "pending", 41));
    for identity in [&a, &b] {
        let id = &identity.project_id;
        bridge
            .turn_ledgers
            .insert(id.clone(), TurnLedger { handle: 9, tabs: vec![tab(&identity.lane, 7)] });
        bridge.needs_human.insert(tab(&identity.lane, 7));
        bridge
            .pending_cleanups
            .insert(id.clone(), cleanup(id, id, vec![tab(&identity.lane, 7)]));
        bridge.occupancy.insert(
            identity.lane.clone(),
            TurnLease { project_id: id.clone(), turn_id: id.clone() },
        );
    }
    let (stopping, status) = bridge.stop_project_workspace("a");
    let stopping = stopping.unwrap();
    assert_eq!(stopping.lane(), a.lane);
    // Until the shutdown nothing is forgotten, and no socket takes the lane.
    assert!(bridge.sessions.contains_key(&a.lane));
    assert!(bridge.occupancy.contains_key(&a.lane));
    assert!(bridge.turn_ledgers.contains_key("a"));
    assert!(!bridge.install_client_on(98, &a.lane));
    let actions = bridge.forget_workspace(stopping);
    assert_eq!(actions.len(), 4);
    match &actions[0] {
        BridgeAction::FailRequest { request_id, handle, reason } => {
            assert_eq!(request_id, "pending");
            assert_eq!(*handle, 41);
            assert!(reason.contains("stopped"));
            assert_eq!(reason, "project workspace stopped");
        }
        other => panic!("{other:?}"),
    }
    assert!(matches!(actions[1], BridgeAction::PersistPending));
    assert!(matches!(actions[2], BridgeAction::PersistNeedsHuman));
    assert!(matches!(actions[3], BridgeAction::EmitNeedsHuman));
    assert!(!status.process_running);
    assert!(!status.connected);
    assert!(status.instance.is_none());
    assert_eq!(status.project_id.as_deref(), Some("a"));
    assert!(!bridge.sessions.contains_key(&a.lane));
    assert!(bridge.sessions.contains_key(&b.lane));
    assert!(!bridge.occupancy.contains_key(&a.lane));
    assert!(bridge.occupancy.contains_key(&b.lane));
    assert!(!bridge.turn_ledgers.contains_key("a"));
    assert!(bridge.turn_ledgers.contains_key("b"));
    assert_eq!(bridge.pending_cleanups.len(), 1);
    assert_eq!(bridge.needs_human.len(), 1);
    assert_eq!(bridge.needs_human.tabs()[0].session, b.lane);
    // A socket finishing its handshake after stop cannot resurrect the lane.
    assert!(!bridge.install_client_on(99, &a.lane));
    assert!(!bridge.sessions.contains_key(&a.lane));
    let (stopping, _) = bridge.stop_project_workspace("a");
    assert!(stopping.is_none());
}

#[test]
fn stop_keeps_the_other_tabs_of_a_shared_row() {
    let mut bridge = BrowserBridge::new();
    let a = register_fake(&mut bridge, "a");
    let mixed = || vec![tab("shared", 1), tab(&a.lane, 2), tab("shared", 3), tab(&a.lane, 1)];
    bridge
        .turn_ledgers
        .insert("turn".into(), TurnLedger { handle: 9, tabs: mixed() });
    bridge
        .pending_cleanups
        .insert("turn".into(), cleanup("turn", "frame", mixed()));
    bridge.turn_ledgers.insert("empty".into(), TurnLedger { handle: 9, tabs: vec![] });
    bridge.needs_human.insert(tab("shared", 2));
    bridge.needs_human.insert(tab(&a.lane, 2));
    let actions = remove(&mut bridge, "a");
    assert_eq!(actions.len(), 3);
    let ids = |tabs: &Vec<TabRef>| -> Vec<(String, i64, u64)> {
        tabs.iter()
            .map(|tab| (tab.session.clone(), tab.tab_id, tab.handle))
            .collect()
    };
    let shared = vec![("shared".to_string(), 1, 101), ("shared".to_string(), 3, 103)];
    assert_eq!(ids(&bridge.turn_ledgers.get("turn").unwrap().tabs), shared);
    assert_eq!(ids(&bridge.pending_cleanups.get("turn").unwrap().tabs), shared);
    assert_eq!(bridge.pending_cleanups.get("turn").unwrap().frame_id, "frame");
    assert_eq!(bridge.pending_cleanups.get("turn").unwrap().handle, 8);
    assert_eq!(bridge.turn_ledgers.get("turn").unwrap().handle, 9);
    assert!(!bridge.turn_ledgers.contains_key("empty"));
    assert_eq!(ids(bridge.needs_human.tabs()), vec![("shared".to_string(), 2, 102)]);
}

#[test]
fn stop_fails_every_waiting_request_once() {
    let mut bridge = BrowserBridge::new();
    let a = register_fake(&mut bridge, "a");
    assert!(bridge.install_client_on(1, &a.lane));
    for (id, handle) in [("x", 10), ("y", 11), ("z", 12)] {
        assert!(bridge.expect_reply_on(&a.lane, id, handle));
    }
    let actions = remove(&mut bridge, "a");
    let mut failed: Vec<(String, u64)> = actions
        .iter()
        .filter_map(|action| match action {
            BridgeAction::FailRequest { request_id, handle, .. } => {
                Some((request_id.clone(), *handle))
            }
            _ => None,
        })
        .collect();
    failed.sort();
    assert_eq!(
        failed,
        vec![("x".to_string(), 10), ("y".to_string(), 11), ("z".to_string(), 12)]
    );
}

#[test]
fn stop_without_a_workspace_does_nothing() {
    let mut bridge = BrowserBridge::new();
    bridge.turn_ledgers.insert("empty".into(), TurnLedger { handle: 9, tabs: vec![] });
    let (stopping, status) = bridge.stop_project_workspace("nobody");
    assert!(stopping.is_none());
    assert_eq!(status.project_id.as_deref(), Some("nobody"));
    assert!(bridge.turn_ledgers.contains_key("empty"));
}

#[test]
fn starts_are_idempotent_and_capacity_is_reclaimed_on_stop() {
    let mut bridge = BrowserBridge::new();
    for project in ["a", "b", "c"] {
        register_fake(&mut bridge, project);
    }
    let refused = bridge.check_workspace_capacity().unwrap_err();
    assert!(refused.contains("stop_workspace"));
    assert_eq!(
        refused,
        "workspace browser limit (3) reached; use browser_setup action=stop_workspace in an idle project before starting another workspace"
    );
    let original = bridge.workspace_status(Some("a"), true).instance.unwrap();
    match bridge.existing_workspace("a", true) {
        ExistingWorkspace::Running(status) => {
            assert_eq!(status.instance.unwrap().lane, original.lane)
        }
        other => panic!("{other:?}"),
    }
    let (stopping, _) = bridge.stop_project_workspace("b");
    bridge.forget_workspace(stopping.unwrap());
    assert!(bridge.check_workspace_capacity().is_ok());
    assert_eq!(
        bridge.workspace_status(Some("a"), true).instance.unwrap().lane,
        original.lane
    );
}

#[test]
fn a_workspace_whose_process_is_gone_is_removed() {
    let mut bridge = BrowserBridge::new();
    let a = register_fake(&mut bridge, "a");
    match bridge.existing_workspace("a", false) {
        ExistingWorkspace::Removed(stopping) => assert_eq!(stopping.unwrap().lane(), a.lane),
        other => panic!("{other:?}"),
    }
    assert_eq!(bridge.workspaces.len(), 0);
    // Without a registered browser no process is asked.
    match bridge.existing_workspace("a", true) {
        ExistingWorkspace::Removed(stopping) => assert!(stopping.is_none()),
        other => panic!("{other:?}"),
    }
}

#[test]
fn status_follows_the_connection_and_the_process() {
    let mut bridge = BrowserBridge::new();
    let absent = bridge.workspace_status(None, true);
    assert_eq!(absent.session, "workspace");
    assert_eq!(absent.project_id, None);
    assert!(!absent.connected && !absent.process_running);
    assert_eq!(absent.workspace_limit, MAX_WORKSPACES);
    let a = register_fake(&mut bridge, "a");
    let waiting = bridge.workspace_status(Some("a"), true);
    assert!(!waiting.connected && waiting.process_running);
    assert!(bridge.install_client_on(1, &a.lane));
    let connected = bridge.workspace_status(Some("a"), false);
    assert!(connected.connected && !connected.process_running);
    let instance = connected.instance.unwrap();
    assert_eq!(instance.lane, a.lane);
    assert_eq!(instance.profile_dir, a.profile);
    assert_eq!(instance.extension_dir, a.extension);
    assert_eq!(instance.endpoint, a.endpoint);
    assert!(bridge.workspace_status(Some("b"), true).instance.is_none());
}

#[test]
fn requests_and_replies_cannot_cross_project_connections() {
    let mut bridge = BrowserBridge::new();
    let a = register_fake(&mut bridge, "a");
    let b = register_fake(&mut bridge, "b");
    assert!(bridge.install_client_on(1, &a.lane));
    assert!(bridge.install_client_on(2, &b.lane));
    assert!(bridge.expect_reply_on(&a.lane, "request-a", 10));
    assert!(bridge.expect_reply_on(&b.lane, "request-b", 20));
    assert_eq!(bridge.handle_reply_on(2, &b.lane, "request-a"), None);
    assert_eq!(bridge.handle_reply_on(1, &a.lane, "request-b"), None);
    assert_eq!(pending_on(&bridge, &a.lane), 1);
    assert_eq!(pending_on(&bridge, &b.lane), 1);
    // Nor does a client answer on a lane that another one serves.
    assert_eq!(bridge.handle_reply_on(2, &a.lane, "request-a"), None);
    assert_eq!(pending_on(&bridge, &a.lane), 1);
    assert_eq!(bridge.handle_reply_on(1, &a.lane, "request-a"), Some(10));
    assert_eq!(bridge.handle_reply_on(2, &b.lane, "request-b"), Some(20));
    assert_eq!(bridge.handle_reply_on(1, &a.lane, "request-a"), None);
    assert_eq!(pending_on(&bridge, &a.lane), 0);
    assert!(bridge.is_connected(&a.lane));
    assert_eq!(bridge.handle_reply_on(1, "nowhere", "request-a"), None);
}

#[test]
fn clients_take_shared_lanes_but_only_registered_workspace_lanes() {
    let mut bridge = BrowserBridge::new();
    assert!(bridge.install_client_on(1, "shared"));
    assert!(bridge.is_connected("shared"));
    assert!(!bridge.install_client_on(1, "workspace:unknown"));
    assert!(!bridge.is_connected("workspace:unknown"));
    assert!(bridge.expect_reply_on("shared", "request", 5));
    assert!(bridge.install_client_on(2, "shared"));
    assert_eq!(bridge.sessions.get("shared").unwrap().client, Some(2));
    assert_eq!(bridge.handle_reply_on(2, "shared", "request"), Some(5));
    assert!(!bridge.expect_reply_on("nowhere", "request", 6));
    assert!(!bridge.sessions.contains_key("nowhere"));
}

#[test]
fn restart_discards_old_workspace_cleanup_and_human_prompts() {
    let mut bridge = BrowserBridge::new();
    let a = register_fake(&mut bridge, "a");
    let mut cleanups = vec![];
    let mut humans = vec![];
    for session in [a.lane.as_str(), "workspace", "shared"] {
        cleanups.push(cleanup(session, "frame", vec![tab(session, 7)]));
        humans.push(tab(session, 7));
    }
    let mut restarted = BrowserBridge::new();
    restarted.load_pending_cleanups(cleanups);
    restarted.load_pending_needs_human(humans);
    assert_eq!(restarted.pending_cleanups.len(), 1);
    assert_eq!(
        restarted.pending_cleanups.rows()[0].value.tabs[0].session,
        "shared"
    );
    assert_eq!(restarted.needs_human.len(), 1);
    assert_eq!(restarted.needs_human.tabs()[0].session, "shared");
}

#[test]
fn restart_keeps_the_other_tabs_and_the_last_cleanup_of_a_turn() {
    let mut bridge = BrowserBridge::new();
    bridge.load_pending_cleanups(vec![
        cleanup("turn", "first", vec![tab("shared", 1)]),
        cleanup("turn", "second", vec![tab("workspace:x", 2), tab("shared", 3)]),
        cleanup("turn", "third", vec![tab("workspace", 4)]),
    ]);
    let row = bridge.pending_cleanups.get("turn").unwrap();
    assert_eq!(row.frame_id, "second");
    assert_eq!(row.tabs.len(), 1);
    assert_eq!(row.tabs[0].tab_id, 3);
    let again = TabRef { session: "shared".into(), tab_id: 1, handle: 5 };
    bridge.load_pending_needs_human(vec![tab("shared", 1), again, tab("workspaces", 2)]);
    assert_eq!(bridge.needs_human.len(), 2);
    assert_eq!(bridge.needs_human.get("shared", 1), Some(5));
    assert_eq!(bridge.needs_human.get("workspaces", 2), Some(102));
}
