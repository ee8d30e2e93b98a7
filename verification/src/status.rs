//! What a caller is told about a project's workspace browser.
use crate::identity::{WorkspaceIdentity, MAX_WORKSPACES};
use crate::identity;
use crate::paths;
use std::path::PathBuf;
use vstd::prelude::*;
use vstd::string::*;

verus! {

/// The state of a project's workspace browser.
#[derive(Debug)]
pub struct WorkspaceStatus {
    pub session: String,
    pub project_id: Option<String>,
    pub connected: bool,
    pub process_running: bool,
    /// Where the browser lives, if one is registered.
    pub instance: Option<InstanceStatus>,
    pub workspace_limit: usize,
}

/// Where a registered workspace browser lives.
#[derive(Debug)]
pub struct InstanceStatus {
    pub lane: String,
    pub profile_dir: PathBuf,
    pub extension_dir: PathBuf,
    pub endpoint: String,
}

/// What a [`WorkspaceStatus`] stands for.
pub struct StatusView {
    pub session: Seq<char>,
    pub project_id: Option<Seq<char>>,
    pub connected: bool,
    pub process_running: bool,
    pub instance: Option<InstanceView>,
    pub workspace_limit: nat,
}

/// What an [`InstanceStatus`] stands for.
pub struct InstanceView {
    pub lane: Seq<char>,
    pub profile_dir: PathBuf,
    pub extension_dir: PathBuf,
    pub endpoint: Seq<char>,
}

/// An optional text by its characters.
pub open spec fn optional_text(text: Option<String>) -> Option<Seq<char>> {
    match text {
        Some(text) => Some(text@),
        None => None,
    }
}

impl View for InstanceStatus {
    type V = InstanceView;

    open spec fn view(&self) -> InstanceView {
        InstanceView {
            lane: self.lane@,
            profile_dir: self.profile_dir,
            extension_dir: self.extension_dir,
            endpoint: self.endpoint@,
        }
    }
}

impl View for WorkspaceStatus {
    type V = StatusView;

    open spec fn view(&self) -> StatusView {
        StatusView {
            session: self.session@,
            project_id: optional_text(self.project_id),
            connected: self.connected,
            process_running: self.process_running,
            instance: match self.instance {
                Some(instance) => Some(instance@),
                None => None,
            },
            workspace_limit: self.workspace_limit as nat,
        }
    }
}

/// The status of a registered workspace browser.
pub open spec fn instance_status(
    identity: identity::IdentityView,
    connected: bool,
    running: bool,
) -> StatusView {
    StatusView {
        session: "workspace"@,
        project_id: Some(identity.project_id),
        connected,
        process_running: running,
        instance: Some(
            InstanceView {
                lane: identity.lane,
                profile_dir: identity.profile,
                extension_dir: identity.extension,
                endpoint: identity.endpoint,
            },
        ),
        workspace_limit: MAX_WORKSPACES as nat,
    }
}

/// The status where no workspace browser is registered.
pub open spec fn absent_status(project_id: Option<Seq<char>>) -> StatusView {
    StatusView {
        session: "workspace"@,
        project_id,
        connected: false,
        process_running: false,
        instance: None,
        workspace_limit: MAX_WORKSPACES as nat,
    }
}

impl WorkspaceIdentity {
    /// The status of this workspace browser.
    pub fn status(&self, connected: bool, running: bool) -> (status: WorkspaceStatus)
        ensures
            status@ == instance_status(self@, connected, running),
    {
        WorkspaceStatus {
            session: "workspace".to_owned(),
            project_id: Some(self.project_id.clone()),
            connected,
            process_running: running,
            instance: Some(
                InstanceStatus {
                    lane: self.lane.clone(),
                    profile_dir: self.profile.clone(),
                    extension_dir: self.extension.clone(),
                    endpoint: self.endpoint.clone(),
                },
            ),
            workspace_limit: MAX_WORKSPACES,
        }
    }
}

/// The value of one field of a status object.
#[derive(Debug)]
pub enum StatusValue {
    Null,
    Bool(bool),
    Text(String),
    Count(usize),
}

/// What a [`StatusValue`] stands for.
pub enum StatusValueView {
    Null,
    Bool(bool),
    Text(Seq<char>),
    Count(nat),
}

impl View for StatusValue {
    type V = StatusValueView;

    open spec fn view(&self) -> StatusValueView {
        match self {
            StatusValue::Null => StatusValueView::Null,
            StatusValue::Bool(value) => StatusValueView::Bool(*value),
            StatusValue::Text(value) => StatusValueView::Text(value@),
            StatusValue::Count(value) => StatusValueView::Count(*value as nat),
        }
    }
}

/// One field of a status object.
#[derive(Debug)]
pub struct StatusField {
    pub name: String,
    pub value: StatusValue,
}

impl View for StatusField {
    type V = (Seq<char>, StatusValueView);

    open spec fn view(&self) -> (Seq<char>, StatusValueView) {
        (self.name@, self.value@)
    }
}

/// The fields of a list, each by its view.
pub open spec fn field_views(fields: Seq<StatusField>) -> Seq<(Seq<char>, StatusValueView)> {
    fields.map_values(|field: StatusField| field@)
}

/// The fields that callers are sent for a status. Only a registered browser
/// has a lane, directories and an endpoint, and there are no fields for one
/// whose directories are not Unicode.
pub open spec fn status_fields(status: StatusView) -> Option<Seq<(Seq<char>, StatusValueView)>> {
    let project_id = match status.project_id {
        Some(id) => StatusValueView::Text(id),
        None => StatusValueView::Null,
    };
    let limit = ("workspace_limit"@, StatusValueView::Count(status.workspace_limit));
    let session = ("session"@, StatusValueView::Text(status.session));
    let project = ("project_id"@, project_id);
    let connected = ("connected"@, StatusValueView::Bool(status.connected));
    let running = ("process_running"@, StatusValueView::Bool(status.process_running));
    match status.instance {
        None => Some(seq![session, project, connected, running, limit]),
        Some(instance) => match (
            paths::unicode_text(instance.profile_dir),
            paths::unicode_text(instance.extension_dir),
        ) {
            (Some(profile_dir), Some(extension_dir)) => Some(
                seq![
                    session,
                    project,
                    ("lane"@, StatusValueView::Text(instance.lane)),
                    connected,
                    running,
                    ("profile_dir"@, StatusValueView::Text(profile_dir)),
                    ("extension_dir"@, StatusValueView::Text(extension_dir)),
                    ("endpoint"@, StatusValueView::Text(instance.endpoint)),
                    limit,
                ],
            ),
            _ => None,
        },
    }
}

fn field(name: &str, value: StatusValue) -> (field: StatusField)
    ensures
        field@ == (name@, value@),
{
    StatusField { name: name.to_owned(), value }
}

impl WorkspaceStatus {
    /// The status where no workspace browser is registered for `project_id`.
    pub fn absent(project_id: Option<&str>) -> (status: WorkspaceStatus)
        ensures
            status@ == absent_status(
                match project_id {
                    Some(id) => Some(id@),
                    None => None,
                },
            ),
    {
        WorkspaceStatus {
            session: "workspace".to_owned(),
            project_id: match project_id {
                Some(id) => Some(id.to_owned()),
                None => None,
            },
            connected: false,
            process_running: false,
            instance: None,
            workspace_limit: MAX_WORKSPACES,
        }
    }

    /// The fields of the object that callers are sent. It cannot hold a
    /// directory that is not Unicode: there is no object with one.
    pub fn fields(&self) -> (fields: Option<Vec<StatusField>>)
        ensures
            match fields {
                Some(fields) => status_fields(self@) == Some(field_views(fields@)),
                None => status_fields(self@) is None,
            },
    {
        let session = field("session", StatusValue::Text(self.session.clone()));
        let project = field(
            "project_id",
            match &self.project_id {
                Some(id) => StatusValue::Text(id.clone()),
                None => StatusValue::Null,
            },
        );
        let connected = field("connected", StatusValue::Bool(self.connected));
        let running = field("process_running", StatusValue::Bool(self.process_running));
        let limit = field("workspace_limit", StatusValue::Count(self.workspace_limit));
        let fields = match &self.instance {
            None => vec![session, project, connected, running, limit],
            Some(instance) => {
                let profile_dir = match paths::to_text(&instance.profile_dir) {
                    Some(text) => text,
                    None => return None,
                };
                let extension_dir = match paths::to_text(&instance.extension_dir) {
                    Some(text) => text,
                    None => return None,
                };
                vec![
                    session,
                    project,
                    field("lane", StatusValue::Text(instance.lane.clone())),
                    connected,
                    running,
                    field("profile_dir", StatusValue::Text(profile_dir)),
                    field("extension_dir", StatusValue::Text(extension_dir)),
                    field("endpoint", StatusValue::Text(instance.endpoint.clone())),
                    limit,
                ]
            },
        };
        assert(field_views(fields@) =~= status_fields(self@)->0);
        Some(fields)
    }
}

} // verus!
