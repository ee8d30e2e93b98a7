//! What a start and the listener promise, told by what goes in and what comes
//! out.
//!
//! A law here holds of every call of the function that it names.
use crate::accept::{ConnectionEvent, ConnectionStep, ListenerEvent, ListenerStep};
use crate::accept;
use crate::bridge::{BrowserBridge, StoppingWorkspace};
use crate::bridge_promises;
use crate::digest;
use crate::identity::WorkspaceIdentity;
use crate::paths;
use crate::promises;
use crate::readings;
use crate::start::{
    BrowserDirectories, BrowserFound, ExtensionBlocked, ExtensionCopy, ExtensionFound,
    LaunchedWorkspace, Listening, PlannedWorkspace, StartOutcome, StartTicket, WorkspaceBrowser,
    WorkspaceLaunch,
};
use crate::status::WorkspaceStatus;
use std::path::Path;
use std::time::Duration;
use vstd::prelude::*;

verus! {

/// A start is answered with the browser that runs. Else the project's own
/// registration is gone, and the start goes on exactly where fewer than three
/// browsers are registered then, whatever sessions, leases or tabs there are.
pub proof fn a_start_needs_room_among_workspaces(
    bridge: &mut BrowserBridge,
    project_id: &str,
    running: bool,
    begun: (Option<StoppingWorkspace>, StartOutcome),
)
    requires
        project_id@.len() > 0,
        call_ensures(BrowserBridge::start_workspace, (bridge, Some(project_id), running), begun),
    ensures
        ({
            let registered = old(bridge).workspaces@;
            let others = registered.dom().remove(project_id@);
            if running && registered.contains_key(project_id@) {
                let identity = registered[project_id@];
                &&& bridge_promises::same_tables(*old(bridge), *final(bridge))
                &&& begun.0 is None
                &&& begun.1 matches StartOutcome::Running(status)
                &&& promises::tells_instance(
                    status,
                    identity,
                    bridge_promises::is_served(*old(bridge), identity.lane),
                    true,
                )
            } else {
                &&& bridge_promises::took_out(
                    *old(bridge),
                    *final(bridge),
                    project_id@,
                    begun.0,
                )
                &&& if others.len() < 3 {
                    begun.1 matches StartOutcome::Proceed(ticket) && ticket@ == project_id@
                } else {
                    begun.1 matches StartOutcome::Refused(error) && error@
                        == bridge_promises::full_message()
                }
            }
        }),
{
    bridge_promises::lemma_full_message();
    assert(old(bridge).workspaces@.remove(project_id@).dom() =~= old(
        bridge,
    ).workspaces@.dom().remove(project_id@));
}

/// A start without a project is refused and changes nothing.
pub proof fn a_start_needs_a_project(
    bridge: &mut BrowserBridge,
    project_id: Option<&str>,
    running: bool,
    begun: (Option<StoppingWorkspace>, StartOutcome),
)
    requires
        project_id matches Some(id) ==> id@.len() == 0,
        call_ensures(BrowserBridge::start_workspace, (bridge, project_id, running), begun),
    ensures
        bridge_promises::same_tables(*old(bridge), *final(bridge)),
        begun.0 is None,
        begun.1 matches StartOutcome::Refused(error) && error@
            == "workspace browser requires a current project"@,
{
}

/// Whether a start goes on depends on the registered browsers alone: bridges
/// that have the same ones answer alike.
pub proof fn a_start_looks_at_workspaces_only(
    a: &mut BrowserBridge,
    b: &mut BrowserBridge,
    project_id: &str,
    running: bool,
    left: (Option<StoppingWorkspace>, StartOutcome),
    right: (Option<StoppingWorkspace>, StartOutcome),
)
    requires
        project_id@.len() > 0,
        old(a).workspaces@ == old(b).workspaces@,
        call_ensures(BrowserBridge::start_workspace, (a, Some(project_id), running), left),
        call_ensures(BrowserBridge::start_workspace, (b, Some(project_id), running), right),
    ensures
        left.1 is Proceed <==> right.1 is Proceed,
        left.1 is Refused <==> right.1 is Refused,
        left.1 is Running <==> right.1 is Running,
        final(a).workspaces@ == final(b).workspaces@,
{
}

/// The extension that was found goes with the project; without one the start
/// ends.
pub proof fn a_start_keeps_its_extension(
    ticket: StartTicket,
    extension_path: Option<String>,
    next: Result<ExtensionFound, String>,
)
    requires
        call_ensures(StartTicket::with_extension, (ticket, extension_path), next),
    ensures
        match extension_path {
            Some(path) => next matches Ok(found) && found@.project_id == ticket@
                && found@.extension_path == path@,
            None => next matches Err(error) && error@
                == "bundled browser-extension path is not available; cannot materialize workspace copy"@,
        },
{
}

/// The browser that was found goes with the project and the extension; the
/// error of the search ends the start.
pub proof fn a_start_keeps_its_browser(
    found: ExtensionFound,
    browser: Result<WorkspaceBrowser, String>,
    next: Result<BrowserFound, String>,
)
    requires
        call_ensures(ExtensionFound::with_browser, (found, browser), next),
    ensures
        match browser {
            Ok(browser) => next matches Ok(more) && more@.project_id == found@.project_id
                && more@.extension_path == found@.extension_path && more@.browser == browser,
            Err(error) => next matches Err(same) && same@ == error@,
        },
{
}

/// The identity of a start fits its project, its root and the port of its
/// listener, with a random token; without a listener the start ends.
pub proof fn a_start_has_the_port_of_its_listener(
    found: BrowserFound,
    listening: Listening,
    root: &Path,
    next: Result<PlannedWorkspace, String>,
)
    requires
        call_ensures(BrowserFound::with_listener, (found, listening, root), next),
    ensures
        match listening {
            Listening::NotBound(error) => next matches Err(message) && message@
                == "cannot listen for project workspace: "@ + error@,
            Listening::NoAddress(error) => next matches Err(same) && same@ == error@,
            Listening::Port(port) => {
                &&& next matches Ok(planned)
                &&& planned@.extension_path == found@.extension_path
                &&& planned@.browser == found@.browser
                &&& promises::fits(
                    planned@.identity,
                    paths::owned_path(root),
                    found@.project_id,
                    port,
                    digest::sha256(vstd::utf8::encode_utf8(found@.project_id)),
                )
                &&& readings::is_random_token(planned@.identity.connection_path.subrange(1, 37))
            },
        },
{
    if let Listening::Port(port) = listening {
        promises::lemma_new_identity_fits(
            next->Ok_0@.identity,
            paths::owned_path(root),
            found@.project_id,
            port,
        );
    }
}

/// The extension is copied from where it was found to the directory of the
/// identity, and is told the identity's lane and endpoint.
pub proof fn a_copy_is_told_its_identity(planned: PlannedWorkspace, copy: ExtensionCopy)
    requires
        call_ensures(PlannedWorkspace::extension_copy, (&planned,), copy),
    ensures
        copy.source@ == planned@.extension_path,
        copy.target == planned@.identity.extension,
        copy.lane@ == planned@.identity.lane,
        copy.endpoint@ == planned@.identity.endpoint,
{
}

/// A start whose extension is in place is launched as it was planned; the
/// error of the copy ends it.
pub proof fn a_launch_is_what_was_planned(
    planned: PlannedWorkspace,
    copied: Result<(), String>,
    next: Result<WorkspaceLaunch, String>,
)
    requires
        call_ensures(PlannedWorkspace::with_extension_copied, (planned, copied), next),
    ensures
        match copied {
            Ok(_) => {
                &&& next matches Ok(launch)
                &&& launch@.identity == planned@.identity
                &&& launch@.extension_path == planned@.extension_path
                &&& launch@.browser == planned@.browser
            },
            Err(error) => next matches Err(same) && same@ == error@,
        },
{
}

/// A launch tells its identity, its browser and the directories of its
/// identity, each for what it is.
pub proof fn a_launch_tells_what_it_is(
    launch: WorkspaceLaunch,
    identity: &WorkspaceIdentity,
    browser: &WorkspaceBrowser,
    directories: BrowserDirectories,
)
    requires
        call_ensures(WorkspaceLaunch::identity, (&launch,), identity),
        call_ensures(WorkspaceLaunch::browser, (&launch,), browser),
        call_ensures(WorkspaceLaunch::directories, (&launch,), directories),
    ensures
        identity@ == launch@.identity,
        *browser == launch@.browser,
        directories.profile == identity.profile,
        directories.extension == identity.extension,
{
}

/// A launch that failed changes nothing. One that did not registers its
/// identity under its project and nothing else; the lane of another browser
/// that stood there comes back.
pub proof fn a_launch_registers_its_identity(
    bridge: &mut BrowserBridge,
    launch: WorkspaceLaunch,
    launched: Result<(), String>,
    registered: (Option<String>, Result<LaunchedWorkspace, String>),
)
    requires
        call_ensures(BrowserBridge::launch_workspace, (bridge, launch, launched), registered),
    ensures
        match launched {
            Err(error) => {
                &&& bridge_promises::same_tables(*old(bridge), *final(bridge))
                &&& registered.0 is None
                &&& registered.1 matches Err(same)
                &&& same@ == error@
            },
            Ok(_) => {
                let identity = launch@.identity;
                let before = old(bridge).workspaces@;
                &&& final(bridge).workspaces@ == before.insert(identity.project_id, identity)
                &&& bridge_promises::same_beside_workspaces(*old(bridge), *final(bridge))
                &&& registered.1 matches Ok(waiting)
                &&& waiting@.identity == identity
                &&& waiting@.extension_path == launch@.extension_path
                &&& waiting@.browser == launch@.browser
                &&& match registered.0 {
                    Some(lane) => before.contains_key(identity.project_id) && lane@
                        == before[identity.project_id].lane && lane@ != identity.lane,
                    None => before.contains_key(identity.project_id)
                        ==> before[identity.project_id].lane == identity.lane,
                }
            },
        },
{
}

/// The host waits on the lane of the identity that was launched.
pub proof fn a_launched_browser_is_waited_for_on_its_lane(waiting: LaunchedWorkspace, lane: &str)
    requires
        call_ensures(LaunchedWorkspace::lane, (&waiting,), lane),
    ensures
        lane@ == waiting@.identity.lane,
{
}

/// A launch that connected is told as connected and running, and changes
/// nothing. One that did not is taken out, and the error tells its browser,
/// extension, endpoint and wait.
pub proof fn a_launch_ends_as_it_connected(
    bridge: &mut BrowserBridge,
    waiting: LaunchedWorkspace,
    connected: bool,
    waited: Duration,
    finished: (Option<StoppingWorkspace>, Result<WorkspaceStatus, ExtensionBlocked>),
)
    requires
        call_ensures(
            BrowserBridge::finish_launch,
            (bridge, waiting, connected, waited),
            finished,
        ),
    ensures
        if connected {
            &&& bridge_promises::same_tables(*old(bridge), *final(bridge))
            &&& finished.0 is None
            &&& finished.1 matches Ok(status)
            &&& promises::tells_instance(status, waiting@.identity, true, true)
        } else {
            &&& bridge_promises::took_out(
                *old(bridge),
                *final(bridge),
                waiting@.identity.project_id,
                finished.0,
            )
            &&& finished.1 matches Err(blocked)
            &&& blocked.browser == waiting@.browser
            &&& blocked.extension_path@ == waiting@.extension_path
            &&& blocked.endpoint@ == waiting@.identity.endpoint
            &&& blocked.waited == waited
            &&& !blocked.retryable
        },
{
}

/// A listener goes on for as long as it accepts sockets and is not shut down.
pub proof fn a_listener_goes_on_while_it_accepts(event: ListenerEvent, step: ListenerStep)
    requires
        call_ensures(accept::accept_workspace, (event,), step),
    ensures
        step is Spawn <==> event is Accepted,
        step is Stop <==> event is ShutdownChanged || event is AcceptFailed,
{
}

/// A socket is served on the lane of its identity if it asks for the path of
/// its identity, unless the shutdown was signalled before; its error is
/// logged, and in every other case it is closed.
pub proof fn a_socket_is_served_on_its_own_lane(
    identity: WorkspaceIdentity,
    event: ConnectionEvent,
    step: ConnectionStep,
)
    requires
        call_ensures(accept::serve_workspace, (&identity, event), step),
    ensures
        match event {
            ConnectionEvent::Spawned { shut_down: false } => {
                &&& step matches ConnectionStep::Serve { lane, required_path }
                &&& lane@ == identity.lane@
                &&& required_path matches Some(path)
                &&& path@ == identity.connection_path@
            },
            ConnectionEvent::Served(Err(error)) => step matches ConnectionStep::Warn(message)
                && message@ == "project workspace connection rejected: "@ + error@,
            _ => step is Close,
        },
{
}

} // verus!
