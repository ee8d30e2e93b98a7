//! Starting a project's workspace browser, one step at a time.
//!
//! Each step takes what the host found out and gives either the next step or
//! the error that ends the start. Only the first step, the launch and the end
//! of the launch look at the bridge or change it. Nothing but the step before
//! makes a step, so no launch comes without a start that found room.
use crate::bridge::{BrowserBridge, ExistingWorkspace, StoppingWorkspace};
use crate::bridge;
use crate::identity::{require_project, WorkspaceIdentity, MAX_WORKSPACES};
use crate::identity;
use crate::paths;
use crate::status::WorkspaceStatus;
use crate::status;
use crate::text;
use std::path::{Path, PathBuf};
use std::time::Duration;
use vstd::prelude::*;
use vstd::string::*;

verus! {

/// A browser that workspaces can run in.
#[derive(Debug)]
pub struct WorkspaceBrowser {
    pub name: String,
    pub path: PathBuf,
    pub loads_unpacked_extensions: bool,
}

/// A start that has passed the lifecycle checks. The host looks for the
/// bundled extension next.
#[derive(Debug)]
pub struct StartTicket {
    project_id: String,
}

impl View for StartTicket {
    type V = Seq<char>;

    /// The project.
    closed spec fn view(&self) -> Seq<char> {
        self.project_id@
    }
}

/// A start whose bundled extension is found. The host looks for a browser
/// next.
#[derive(Debug)]
pub struct ExtensionFound {
    project_id: String,
    extension_path: String,
}

/// What an [`ExtensionFound`] stands for.
pub struct ExtensionView {
    pub project_id: Seq<char>,
    pub extension_path: Seq<char>,
}

impl View for ExtensionFound {
    type V = ExtensionView;

    closed spec fn view(&self) -> ExtensionView {
        ExtensionView { project_id: self.project_id@, extension_path: self.extension_path@ }
    }
}

/// A start whose browser is found. The host opens a listener next.
#[derive(Debug)]
pub struct BrowserFound {
    project_id: String,
    extension_path: String,
    browser: WorkspaceBrowser,
}

/// What a [`BrowserFound`] stands for.
pub struct BrowserView {
    pub project_id: Seq<char>,
    pub extension_path: Seq<char>,
    pub browser: WorkspaceBrowser,
}

impl View for BrowserFound {
    type V = BrowserView;

    closed spec fn view(&self) -> BrowserView {
        BrowserView {
            project_id: self.project_id@,
            extension_path: self.extension_path@,
            browser: self.browser,
        }
    }
}

/// What came of opening a listener on a free local port.
#[derive(Debug)]
pub enum Listening {
    /// No listener could be opened.
    NotBound(String),
    /// The listener does not tell its address.
    NoAddress(String),
    /// The listener has this port.
    Port(u16),
}

/// A start with an identity. The host copies the extension next.
#[derive(Debug)]
pub struct PlannedWorkspace {
    identity: WorkspaceIdentity,
    extension_path: String,
    browser: WorkspaceBrowser,
}

/// A start whose extension is in place. The host begins to accept sockets and
/// launches the browser next.
#[derive(Debug)]
pub struct WorkspaceLaunch {
    identity: WorkspaceIdentity,
    extension_path: String,
    browser: WorkspaceBrowser,
}

/// A registered workspace browser that has not connected yet. The host waits
/// for a client on its lane next.
#[derive(Debug)]
pub struct LaunchedWorkspace {
    identity: WorkspaceIdentity,
    extension_path: String,
    browser: WorkspaceBrowser,
}

/// What a start with an identity stands for.
pub struct LaunchView {
    pub identity: identity::IdentityView,
    pub extension_path: Seq<char>,
    pub browser: WorkspaceBrowser,
}

impl View for PlannedWorkspace {
    type V = LaunchView;

    closed spec fn view(&self) -> LaunchView {
        LaunchView {
            identity: self.identity@,
            extension_path: self.extension_path@,
            browser: self.browser,
        }
    }
}

impl View for WorkspaceLaunch {
    type V = LaunchView;

    closed spec fn view(&self) -> LaunchView {
        LaunchView {
            identity: self.identity@,
            extension_path: self.extension_path@,
            browser: self.browser,
        }
    }
}

impl View for LaunchedWorkspace {
    type V = LaunchView;

    closed spec fn view(&self) -> LaunchView {
        LaunchView {
            identity: self.identity@,
            extension_path: self.extension_path@,
            browser: self.browser,
        }
    }
}

/// The copy of the bundled extension that a workspace browser loads.
#[derive(Debug)]
pub struct ExtensionCopy {
    pub source: String,
    pub target: PathBuf,
    pub lane: String,
    pub endpoint: String,
}

/// The directories that a workspace browser is launched with.
#[derive(Debug)]
pub struct BrowserDirectories {
    pub profile: PathBuf,
    pub extension: PathBuf,
}

/// The browser runs, but its extension did not connect in time.
#[derive(Debug)]
pub struct ExtensionBlocked {
    pub browser: WorkspaceBrowser,
    pub extension_path: String,
    pub endpoint: String,
    pub waited: Duration,
    pub retryable: bool,
}

/// What the first step of a start found.
#[derive(Debug)]
pub enum StartOutcome {
    /// The start is refused.
    Refused(String),
    /// The workspace browser runs already.
    Running(WorkspaceStatus),
    /// The start goes on.
    Proceed(StartTicket),
}

impl bridge::BridgeView {
    /// The workspace browser of `identity` is the one of its project.
    pub open spec fn register(self, identity: identity::IdentityView) -> bridge::BridgeView {
        bridge::BridgeView {
            workspaces: self.workspaces.insert(identity.project_id, identity),
            ..self
        }
    }

    /// The lane that the registration of `identity` leaves without an owner.
    pub open spec fn replaced_lane(self, identity: identity::IdentityView) -> Option<Seq<char>> {
        match self.lane_of(identity.project_id) {
            Some(lane) if lane != identity.lane => Some(lane),
            _ => None,
        }
    }
}

/// The outcome of the first step for the project `id`, whose process was seen
/// running or not.
pub open spec fn is_start_outcome(
    outcome: StartOutcome,
    bridge: bridge::BridgeView,
    id: Seq<char>,
    running: bool,
) -> bool {
    if running && bridge.workspaces.contains_key(id) {
        outcome matches StartOutcome::Running(status) && status@ == bridge.status(Some(id), true)
    } else if bridge.unregister(id).workspaces.len() >= MAX_WORKSPACES {
        outcome matches StartOutcome::Refused(error) && error@ == bridge::capacity_message()
    } else {
        outcome matches StartOutcome::Proceed(ticket) && ticket@ == id
    }
}

impl BrowserBridge {
    /// The first step of a start: a browser that runs is answered with its
    /// status, one that does not is removed, and a new one needs room. Where
    /// there is something to shut down, the host ends that removal before the
    /// start goes on.
    pub fn start_workspace(&mut self, project_id: Option<&str>, running: bool) -> (begun: (
        Option<StoppingWorkspace>,
        StartOutcome,
    ))
        ensures
            match project_id {
                Some(id) if id@.len() > 0 => {
                    &&& is_start_outcome(begun.1, old(self)@, id@, running)
                    &&& if running && old(self)@.workspaces.contains_key(id@) {
                        &&& final(self)@ == old(self)@
                        &&& begun.0 is None
                    } else {
                        &&& final(self)@ == old(self)@.unregister(id@)
                        &&& bridge::stopping_lane(begun.0) == old(self)@.lane_of(id@)
                    }
                },
                _ => {
                    &&& begun.1 matches StartOutcome::Refused(error)
                    &&& error@ == "workspace browser requires a current project"@
                    &&& final(self)@ == old(self)@
                    &&& begun.0 is None
                },
            },
    {
        let id = match require_project(project_id) {
            Err(error) => return (None, StartOutcome::Refused(error)),
            Ok(id) => id,
        };
        let stopping = match self.existing_workspace(id, running) {
            ExistingWorkspace::Running(status) => return (None, StartOutcome::Running(status)),
            ExistingWorkspace::Removed(stopping) => stopping,
        };
        match self.check_workspace_capacity() {
            Err(error) => (stopping, StartOutcome::Refused(error)),
            Ok(_) => (stopping, StartOutcome::Proceed(StartTicket { project_id: id.to_owned() })),
        }
    }

    /// Registers a workspace browser whose process was launched. The lane that
    /// comes back is that of another browser of the same project, which has
    /// lost its owner and is shut down.
    pub fn launch_workspace(
        &mut self,
        launch: WorkspaceLaunch,
        launched: Result<(), String>,
    ) -> (registered: (Option<String>, Result<LaunchedWorkspace, String>))
        ensures
            match launched {
                Err(error) => {
                    &&& registered.1 == Err::<LaunchedWorkspace, String>(error)
                    &&& registered.0 is None
                    &&& final(self)@ == old(self)@
                },
                Ok(_) => {
                    &&& final(self)@ == old(self)@.register(launch@.identity)
                    &&& registered.1 matches Ok(waiting)
                    &&& waiting@ == launch@
                    &&& status::optional_text(registered.0) == old(self)@.replaced_lane(
                        launch@.identity,
                    )
                },
            },
    {
        if let Err(error) = launched {
            return (None, Err(error));
        }
        let ghost before = self@;
        let identity = launch.identity;
        let replaced = match self.workspaces.remove(identity.project_id.as_str()) {
            Some(other) => {
                if text::same_text(other.lane.as_str(), identity.lane.as_str()) {
                    None
                } else {
                    Some(other.lane)
                }
            },
            None => None,
        };
        self.workspaces.insert(identity.project_id.clone(), identity.clone());
        assert(self@.workspaces =~= before.register(identity@).workspaces);
        (
            replaced,
            Ok(
                LaunchedWorkspace {
                    identity,
                    extension_path: launch.extension_path,
                    browser: launch.browser,
                },
            ),
        )
    }

    /// Ends a launch: `connected` is whether a client took the lane before
    /// the host stopped waiting. The removal of a browser that did not connect
    /// begins.
    pub fn finish_launch(
        &mut self,
        waiting: LaunchedWorkspace,
        connected: bool,
        waited: Duration,
    ) -> (finished: (Option<StoppingWorkspace>, Result<WorkspaceStatus, ExtensionBlocked>))
        ensures
            if connected {
                &&& final(self)@ == old(self)@
                &&& finished.0 is None
                &&& finished.1 matches Ok(status)
                &&& status@ == status::instance_status(waiting@.identity, true, true)
            } else {
                let project_id = waiting@.identity.project_id;
                &&& final(self)@ == old(self)@.unregister(project_id)
                &&& bridge::stopping_lane(finished.0) == old(self)@.lane_of(project_id)
                &&& finished.1 matches Err(blocked)
                &&& blocked.browser == waiting@.browser
                &&& blocked.extension_path@ == waiting@.extension_path
                &&& blocked.endpoint@ == waiting@.identity.endpoint
                &&& blocked.waited == waited
                &&& !blocked.retryable
            },
    {
        if connected {
            return (None, Ok(waiting.identity.status(true, true)));
        }
        let stopping = self.remove_workspace(waiting.identity.project_id.as_str());
        (
            stopping,
            Err(
                ExtensionBlocked {
                    browser: waiting.browser,
                    extension_path: waiting.extension_path,
                    endpoint: waiting.identity.endpoint,
                    waited,
                    retryable: false,
                },
            ),
        )
    }
}

impl StartTicket {
    /// The next step, once the bundled extension was looked for.
    pub fn with_extension(self, extension_path: Option<String>) -> (next: Result<
        ExtensionFound,
        String,
    >)
        ensures
            match extension_path {
                Some(path) => next matches Ok(found) && found@ == (ExtensionView {
                    project_id: self@,
                    extension_path: path@,
                }),
                None => next matches Err(error) && error@
                    == "bundled browser-extension path is not available; cannot materialize workspace copy"@,
            },
    {
        match extension_path {
            Some(extension_path) => Ok(
                ExtensionFound { project_id: self.project_id, extension_path },
            ),
            None => Err(
                "bundled browser-extension path is not available; cannot materialize workspace copy".to_owned(),
            ),
        }
    }
}

impl ExtensionFound {
    /// The next step, once a browser was looked for.
    pub fn with_browser(self, browser: Result<WorkspaceBrowser, String>) -> (next: Result<
        BrowserFound,
        String,
    >)
        ensures
            match browser {
                Ok(browser) => next matches Ok(found) && found@ == (BrowserView {
                    project_id: self@.project_id,
                    extension_path: self@.extension_path,
                    browser,
                }),
                Err(error) => next == Err::<BrowserFound, String>(error),
            },
    {
        match browser {
            Ok(browser) => Ok(
                BrowserFound {
                    project_id: self.project_id,
                    extension_path: self.extension_path,
                    browser,
                },
            ),
            Err(error) => Err(error),
        }
    }
}

impl BrowserFound {
    /// The next step, once a listener was opened: a new identity for its port.
    pub fn with_listener(self, listening: Listening, root: &Path) -> (next: Result<
        PlannedWorkspace,
        String,
    >)
        ensures
            match listening {
                Listening::NotBound(error) => next matches Err(message) && message@
                    == "cannot listen for project workspace: "@ + error@,
                Listening::NoAddress(error) => next == Err::<PlannedWorkspace, String>(error),
                Listening::Port(port) => {
                    &&& next matches Ok(planned)
                    &&& planned@.extension_path == self@.extension_path
                    &&& planned@.browser == self@.browser
                    &&& identity::is_new_identity(
                        planned@.identity,
                        paths::owned_path(root),
                        self@.project_id,
                        port,
                    )
                },
            },
    {
        match listening {
            Listening::NotBound(error) => Err(
                "cannot listen for project workspace: ".to_owned().concat(error.as_str()),
            ),
            Listening::NoAddress(error) => Err(error),
            Listening::Port(port) => {
                let identity = WorkspaceIdentity::new(root, self.project_id.as_str(), port);
                Ok(
                    PlannedWorkspace {
                        identity,
                        extension_path: self.extension_path,
                        browser: self.browser,
                    },
                )
            },
        }
    }
}

impl PlannedWorkspace {
    /// The copy of the extension that this workspace browser needs.
    pub fn extension_copy(&self) -> (copy: ExtensionCopy)
        ensures
            copy.source@ == self@.extension_path,
            copy.target == self@.identity.extension,
            copy.lane@ == self@.identity.lane,
            copy.endpoint@ == self@.identity.endpoint,
    {
        ExtensionCopy {
            source: self.extension_path.clone(),
            target: self.identity.extension.clone(),
            lane: self.identity.lane.clone(),
            endpoint: self.identity.endpoint.clone(),
        }
    }

    /// The next step, once the extension was copied.
    pub fn with_extension_copied(self, copied: Result<(), String>) -> (next: Result<
        WorkspaceLaunch,
        String,
    >)
        ensures
            match copied {
                Ok(_) => next matches Ok(launch) && launch@ == self@,
                Err(error) => next == Err::<WorkspaceLaunch, String>(error),
            },
    {
        match copied {
            Ok(_) => Ok(
                WorkspaceLaunch {
                    identity: self.identity,
                    extension_path: self.extension_path,
                    browser: self.browser,
                },
            ),
            Err(error) => Err(error),
        }
    }
}

impl WorkspaceLaunch {
    /// The identity that is launched.
    pub fn identity(&self) -> (identity: &WorkspaceIdentity)
        ensures
            identity@ == self@.identity,
    {
        &self.identity
    }

    /// The browser that is launched.
    pub fn browser(&self) -> (browser: &WorkspaceBrowser)
        ensures
            *browser == self@.browser,
    {
        &self.browser
    }

    /// The directories that the browser is launched with.
    pub fn directories(&self) -> (directories: BrowserDirectories)
        ensures
            directories.profile == self@.identity.profile,
            directories.extension == self@.identity.extension,
    {
        BrowserDirectories {
            profile: self.identity.profile.clone(),
            extension: self.identity.extension.clone(),
        }
    }
}

impl LaunchedWorkspace {
    /// The lane that the host waits for a client on.
    pub fn lane(&self) -> (lane: &str)
        ensures
            lane@ == self@.identity.lane,
    {
        self.identity.lane.as_str()
    }
}

} // verus!
