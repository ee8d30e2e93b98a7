//! The state that the browser bridge keeps, and what becomes of it when a
//! project's workspace browser is looked up, routed to or stopped.
//!
//! The host owns the processes, sockets and stored rows. It hands in what it
//! observed and carries out the [`BridgeAction`]s that it gets back, in order.
use crate::identity::{require_project, WorkspaceIdentity, MAX_WORKSPACES};
use crate::identity;
use crate::status::WorkspaceStatus;
use crate::status;
use crate::table::{TabTable, Table};
use crate::table;
use crate::tabs::{CleanupPrompt, SessionSet, TabRef, TabRows, TurnLedger};
use crate::tabs;
use crate::text;
use vstd::prelude::*;
use vstd::string::*;

verus! {

/// A session: the client that serves it and the requests that wait for its
/// replies, each with the number by which the host knows the waiter.
#[derive(Debug)]
pub struct SessionSlot {
    pub client: Option<u64>,
    pub pending: Table<u64>,
}

/// What a [`SessionSlot`] stands for.
pub struct SlotView {
    pub client: Option<u64>,
    pub pending: Map<Seq<char>, u64>,
}

impl View for SessionSlot {
    type V = SlotView;

    open spec fn view(&self) -> SlotView {
        SlotView { client: self.client, pending: self.pending@ }
    }
}

/// The turn that has a session to itself.
#[derive(Debug)]
pub struct TurnLease {
    pub project_id: String,
    pub turn_id: String,
}

/// What a [`TurnLease`] stands for.
pub struct LeaseView {
    pub project_id: Seq<char>,
    pub turn_id: Seq<char>,
}

impl View for TurnLease {
    type V = LeaseView;

    open spec fn view(&self) -> LeaseView {
        LeaseView { project_id: self.project_id@, turn_id: self.turn_id@ }
    }
}

/// What the host does when the state has changed.
#[derive(Debug)]
pub enum BridgeAction {
    /// Answer a waiting request with an error.
    FailRequest { request_id: String, handle: u64, reason: String },
    /// Store the pending cleanups.
    PersistPending,
    /// Store the tabs that need a human.
    PersistNeedsHuman,
    /// Tell the user interface which tabs need a human.
    EmitNeedsHuman,
}

/// What a [`BridgeAction`] stands for.
pub enum ActionView {
    FailRequest { request_id: Seq<char>, handle: u64, reason: Seq<char> },
    PersistPending,
    PersistNeedsHuman,
    EmitNeedsHuman,
}

impl View for BridgeAction {
    type V = ActionView;

    open spec fn view(&self) -> ActionView {
        match self {
            BridgeAction::FailRequest {
                request_id,
                handle,
                reason,
            } => ActionView::FailRequest {
                request_id: request_id@,
                handle: *handle,
                reason: reason@,
            },
            BridgeAction::PersistPending => ActionView::PersistPending,
            BridgeAction::PersistNeedsHuman => ActionView::PersistNeedsHuman,
            BridgeAction::EmitNeedsHuman => ActionView::EmitNeedsHuman,
        }
    }
}

/// The actions of a list, each by its view.
pub open spec fn action_views(actions: Seq<BridgeAction>) -> Seq<ActionView> {
    actions.map_values(|action: BridgeAction| action@)
}

/// The browser bridge.
#[derive(Debug)]
pub struct BrowserBridge {
    /// The workspace browsers, by project.
    pub workspaces: Table<WorkspaceIdentity>,
    /// The sessions, by lane.
    pub sessions: Table<SessionSlot>,
    /// The turns that have a lane to themselves, by lane.
    pub occupancy: Table<TurnLease>,
    /// The tabs that turns have opened, by turn.
    pub turn_ledgers: Table<TurnLedger>,
    /// The cleanups that wait for an answer, by turn.
    pub pending_cleanups: Table<CleanupPrompt>,
    /// The tabs that wait for a human.
    pub needs_human: TabTable,
}

/// What a [`BrowserBridge`] stands for.
pub struct BridgeView {
    pub workspaces: Map<Seq<char>, identity::IdentityView>,
    pub sessions: Map<Seq<char>, SlotView>,
    pub occupancy: Map<Seq<char>, LeaseView>,
    pub turn_ledgers: Map<Seq<char>, tabs::LedgerView>,
    pub pending_cleanups: Map<Seq<char>, tabs::CleanupView>,
    pub needs_human: Map<(Seq<char>, i64), u64>,
}

impl View for BrowserBridge {
    type V = BridgeView;

    open spec fn view(&self) -> BridgeView {
        BridgeView {
            workspaces: self.workspaces@,
            sessions: self.sessions@,
            occupancy: self.occupancy@,
            turn_ledgers: self.turn_ledgers@,
            pending_cleanups: self.pending_cleanups@,
            needs_human: self.needs_human@,
        }
    }
}

impl BridgeView {
    /// A bridge that knows of nothing.
    pub open spec fn empty() -> BridgeView {
        BridgeView {
            workspaces: Map::empty(),
            sessions: Map::empty(),
            occupancy: Map::empty(),
            turn_ledgers: Map::empty(),
            pending_cleanups: Map::empty(),
            needs_human: Map::empty(),
        }
    }

    /// Whether a client serves the session of `lane`.
    pub open spec fn is_connected(self, lane: Seq<char>) -> bool {
        self.sessions.contains_key(lane) && self.sessions[lane].client is Some
    }

    /// Whether `lane` is that of a registered workspace browser.
    pub open spec fn is_registered(self, lane: Seq<char>) -> bool {
        exists|project_id: Seq<char>| #[trigger]
            self.workspaces.contains_key(project_id) && self.workspaces[project_id].lane == lane
    }

    /// The requests that wait for replies on `lane`.
    pub open spec fn pending_on(self, lane: Seq<char>) -> Map<Seq<char>, u64> {
        if self.sessions.contains_key(lane) {
            self.sessions[lane].pending
        } else {
            Map::empty()
        }
    }

    /// The status of a project's workspace browser, whose process was seen
    /// running or not.
    pub open spec fn status(
        self,
        project_id: Option<Seq<char>>,
        running: bool,
    ) -> status::StatusView {
        match project_id {
            Some(id) if self.workspaces.contains_key(id) => status::instance_status(
                self.workspaces[id],
                self.is_connected(self.workspaces[id].lane),
                running,
            ),
            _ => status::absent_status(project_id),
        }
    }

    /// The workspace browser of `project_id` is no longer registered; what
    /// belongs to its lane is still there.
    pub open spec fn unregister(self, project_id: Seq<char>) -> BridgeView {
        BridgeView { workspaces: self.workspaces.remove(project_id), ..self }
    }

    /// The lane of the workspace browser of `project_id`, if one is
    /// registered.
    pub open spec fn lane_of(self, project_id: Seq<char>) -> Option<Seq<char>> {
        if self.workspaces.contains_key(project_id) {
            Some(self.workspaces[project_id].lane)
        } else {
            None
        }
    }

    /// The lane that a tool of `project_id` works on, where `session` is what
    /// its arguments ask for. Lanes are not asked for by name: the session
    /// `workspace` stands for that of the tool's own project.
    pub open spec fn tool_lane(
        self,
        session: Result<Option<Seq<char>>, Seq<char>>,
        project_id: Option<Seq<char>>,
    ) -> Result<Option<Seq<char>>, Seq<char>> {
        match session {
            Ok(Some(name)) => if name == "workspace"@ {
                match project_id {
                    Some(id) if id.len() > 0 => match self.lane_of(id) {
                        Some(lane) => Ok(Some(lane)),
                        None => Err(no_workspace_message(id)),
                    },
                    _ => Err("workspace browser requires a current project"@),
                }
            } else if tabs::is_workspace_lane(name) {
                Err(lane_name_message())
            } else {
                session
            },
            _ => session,
        }
    }

    /// Nothing of `lane` is left.
    pub open spec fn forget_lane(self, lane: Seq<char>) -> BridgeView {
        BridgeView {
            workspaces: self.workspaces,
            sessions: self.sessions.remove(lane),
            occupancy: self.occupancy.remove(lane),
            turn_ledgers: table::rows_outside::<TurnLedger>(self.turn_ledgers, set![lane]),
            pending_cleanups: table::rows_outside::<CleanupPrompt>(
                self.pending_cleanups,
                set![lane],
            ),
            needs_human: table::tab_rows_outside(self.needs_human, set![lane]),
        }
    }

    /// The workspace browser of `project_id` is no longer registered, and
    /// nothing of its lane is left.
    pub open spec fn remove_workspace(self, project_id: Seq<char>) -> BridgeView {
        match self.lane_of(project_id) {
            Some(lane) => self.unregister(project_id).forget_lane(lane),
            None => self,
        }
    }

    /// A client serves the session of `lane` from now on.
    pub open spec fn install_client(self, client_id: u64, lane: Seq<char>) -> BridgeView {
        BridgeView {
            sessions: self.sessions.insert(
                lane,
                SlotView { client: Some(client_id), pending: self.pending_on(lane) },
            ),
            ..self
        }
    }

    /// Whether a socket may serve the session of `lane`: that of a workspace
    /// browser has to be registered.
    pub open spec fn admits(self, lane: Seq<char>) -> bool {
        tabs::is_workspace_lane(lane) ==> self.is_registered(lane)
    }

    /// Whether a reply of `client_id` on `lane` answers a request that waits
    /// there.
    pub open spec fn expects_reply(
        self,
        client_id: u64,
        lane: Seq<char>,
        request_id: Seq<char>,
    ) -> bool {
        &&& self.sessions.contains_key(lane)
        &&& self.sessions[lane].client == Some(client_id)
        &&& self.sessions[lane].pending.contains_key(request_id)
    }

    /// Stored cleanups are back, one after the other, without the tabs of
    /// workspace browsers.
    pub open spec fn load_cleanups(self, stored: Seq<tabs::CleanupView>) -> BridgeView
        decreases stored.len(),
    {
        if stored.len() == 0 {
            self
        } else {
            let loaded = self.load_cleanups(stored.drop_last());
            match CleanupPrompt::outside(stored.last(), SessionSet::Workspaces@) {
                Some(row) => BridgeView {
                    pending_cleanups: loaded.pending_cleanups.insert(row.turn_id, row),
                    ..loaded
                },
                None => loaded,
            }
        }
    }

    /// Stored tabs that need a human are back, one after the other, without
    /// those of workspace browsers.
    pub open spec fn load_needs_human(self, stored: Seq<tabs::TabView>) -> BridgeView
        decreases stored.len(),
    {
        if stored.len() == 0 {
            self
        } else {
            let loaded = self.load_needs_human(stored.drop_last());
            let tab = stored.last();
            if tabs::is_workspace_session(tab.session) {
                loaded
            } else {
                BridgeView {
                    needs_human: loaded.needs_human.insert((tab.session, tab.tab_id), tab.handle),
                    ..loaded
                }
            }
        }
    }

    /// The request waits on `lane`, whose session there is.
    pub open spec fn expect(
        self,
        lane: Seq<char>,
        request_id: Seq<char>,
        handle: u64,
    ) -> BridgeView {
        let slot = self.sessions[lane];
        BridgeView {
            sessions: self.sessions.insert(
                lane,
                SlotView { pending: slot.pending.insert(request_id, handle), ..slot },
            ),
            ..self
        }
    }

    /// The request no longer waits on `lane`.
    pub open spec fn settle(self, lane: Seq<char>, request_id: Seq<char>) -> BridgeView {
        let slot = self.sessions[lane];
        BridgeView {
            sessions: self.sessions.insert(
                lane,
                SlotView { pending: slot.pending.remove(request_id), ..slot },
            ),
            ..self
        }
    }
}

/// What waiting requests are told when their workspace browser stops.
pub open spec fn stop_reason() -> Seq<char> {
    "project workspace stopped"@
}

/// The failures of the requests `ids`.
pub open spec fn failures(ids: Seq<Seq<char>>, pending: Map<Seq<char>, u64>) -> Seq<ActionView> {
    Seq::new(
        ids.len(),
        |i: int|
            ActionView::FailRequest {
                request_id: ids[i],
                handle: pending[ids[i]],
                reason: stop_reason(),
            },
    )
}

/// What the host does when a lane is forgotten: it fails each waiting request
/// once, in any order, and then it stores and reports what is left.
pub open spec fn is_forgetting(actions: Seq<ActionView>, pending: Map<Seq<char>, u64>) -> bool {
    exists|ids: Seq<Seq<char>>|
        {
            &&& ids.no_duplicates()
            &&& ids.to_set() == pending.dom()
            &&& actions == #[trigger] failures(ids, pending) + seq![
                ActionView::PersistPending,
                ActionView::PersistNeedsHuman,
                ActionView::EmitNeedsHuman,
            ]
        }
}

/// The refusal of a start while too many workspace browsers are registered.
pub open spec fn capacity_message() -> Seq<char> {
    "workspace browser limit ("@ + text::decimal(MAX_WORKSPACES as nat)
        + ") reached; use browser_setup action=stop_workspace in an idle project before starting another workspace"@
}

/// The answer to a tool whose project has no workspace browser.
pub open spec fn no_workspace_message(project_id: Seq<char>) -> Seq<char> {
    "project '"@ + project_id
        + "' has no workspace browser; call browser_setup with action=start_workspace first"@
}

/// The answer to a tool that asks for a workspace browser by its lane.
pub open spec fn lane_name_message() -> Seq<char> {
    "workspace browsers are reached by the session 'workspace' only"@
}

/// What a tool's arguments ask for, or what it is answered, by its
/// characters.
pub open spec fn session_view(session: Result<Option<String>, String>) -> Result<
    Option<Seq<char>>,
    Seq<char>,
> {
    match session {
        Ok(name) => Ok(status::optional_text(name)),
        Err(error) => Err(error@),
    }
}

/// An optional borrowed text by its characters.
pub open spec fn optional_str(text: Option<&str>) -> Option<Seq<char>> {
    match text {
        Some(text) => Some(text@),
        None => None,
    }
}

/// The failures of all requests of `pending`.
fn fail_pending(pending: Table<u64>) -> (actions: Vec<BridgeAction>)
    ensures
        exists|ids: Seq<Seq<char>>|
            {
                &&& ids.no_duplicates()
                &&& ids.to_set() == pending@.dom()
                &&& action_views(actions@) == #[trigger] failures(ids, pending@)
            },
{
    let ghost waiting = pending@;
    let mut actions: Vec<BridgeAction> = Vec::new();
    let rows = pending.into_rows();
    let ghost ids = table::keys_of(rows@);
    assert(action_views(actions@) =~= failures(ids.subrange(0, 0), waiting));
    for row in iter: rows
        invariant
            ids == table::keys_of(iter.seq()),
            table::lists(iter.seq(), waiting),
            action_views(actions@) == failures(ids.subrange(0, iter.index()), waiting),
    {
        let ghost i = iter.index();
        let ghost so_far = action_views(actions@);
        let action = BridgeAction::FailRequest {
            request_id: row.key,
            handle: row.value,
            reason: "project workspace stopped".to_owned(),
        };
        actions.push(action);
        proof {
            assert(action_views(actions@) =~= so_far.push(action@));
            assert(ids[i] == row.key@);
            assert(waiting[ids[i]] == row.value);
            assert(action_views(actions@) =~= failures(ids.subrange(0, i + 1), waiting));
        }
    }
    assert(ids.subrange(0, ids.len() as int) == ids);
    actions
}

/// What became of a workspace browser that was asked for.
#[derive(Debug)]
pub enum ExistingWorkspace {
    /// Its process runs: this is its status.
    Running(WorkspaceStatus),
    /// It is no longer registered; what its removal has left to do, unless
    /// there was none.
    Removed(Option<StoppingWorkspace>),
}

/// A workspace browser that is no longer registered and has to be shut down.
/// The host signals its listener and sockets, stops its process and reaps it.
/// Only then it lets the bridge forget the lane.
#[derive(Debug)]
pub struct StoppingWorkspace {
    lane: String,
}

impl View for StoppingWorkspace {
    type V = Seq<char>;

    /// The lane.
    closed spec fn view(&self) -> Seq<char> {
        self.lane@
    }
}

impl StoppingWorkspace {
    /// The lane that is shut down.
    pub fn lane(&self) -> (lane: &str)
        ensures
            lane@ == self@,
    {
        self.lane.as_str()
    }
}

/// The lane that has to be shut down, if there is one.
pub open spec fn stopping_lane(stopping: Option<StoppingWorkspace>) -> Option<Seq<char>> {
    match stopping {
        Some(stopping) => Some(stopping@),
        None => None,
    }
}

impl BrowserBridge {
    /// A bridge that knows of nothing.
    pub fn new() -> (bridge: BrowserBridge)
        ensures
            bridge@ == BridgeView::empty(),
    {
        BrowserBridge {
            workspaces: Table::new(),
            sessions: Table::new(),
            occupancy: Table::new(),
            turn_ledgers: Table::new(),
            pending_cleanups: Table::new(),
            needs_human: TabTable::new(),
        }
    }

    /// The lane that a tool of `project_id` works on, where `session` is what
    /// its arguments ask for. The session `workspace` is the browser of the
    /// tool's own project, and there is no other way to a workspace browser;
    /// every other session stands for itself.
    pub fn tool_session(
        &self,
        session: Result<Option<String>, String>,
        project_id: Option<&str>,
    ) -> (lane: Result<Option<String>, String>)
        ensures
            session_view(lane) == self@.tool_lane(session_view(session), optional_str(project_id)),
    {
        let asked = match &session {
            Ok(Some(name)) => {
                let own = text::same_text(name.as_str(), "workspace");
                if !own && text::starts_with(name.as_str(), "workspace:") {
                    return Err(
                        "workspace browsers are reached by the session 'workspace' only".to_owned(),
                    );
                }
                own
            },
            _ => false,
        };
        if !asked {
            return session;
        }
        let project_id = match require_project(project_id) {
            Err(error) => return Err(error),
            Ok(id) => id,
        };
        match self.workspaces.get(project_id) {
            Some(identity) => Ok(Some(identity.lane.clone())),
            None => Err(
                "project '".to_owned().concat(project_id).concat(
                    "' has no workspace browser; call browser_setup with action=start_workspace first",
                ),
            ),
        }
    }

    /// Whether a client serves the session of `lane`.
    pub fn is_connected(&self, lane: &str) -> (connected: bool)
        ensures
            connected == self@.is_connected(lane@),
    {
        match self.sessions.get(lane) {
            Some(slot) => slot.client.is_some(),
            None => false,
        }
    }

    /// The status of a project's workspace browser; `running` is whether its
    /// process was seen running.
    pub fn workspace_status(&self, project_id: Option<&str>, running: bool) -> (status:
        WorkspaceStatus)
        ensures
            status@ == self@.status(optional_str(project_id), running),
    {
        match project_id {
            None => WorkspaceStatus::absent(None),
            Some(id) => match self.workspaces.get(id) {
                None => WorkspaceStatus::absent(Some(id)),
                Some(identity) => {
                    let connected = self.is_connected(identity.lane.as_str());
                    identity.status(connected, running)
                },
            },
        }
    }

    /// Looks for a workspace browser that still runs. The removal of one whose
    /// process is gone begins.
    pub fn existing_workspace(&mut self, project_id: &str, running: bool) -> (existing:
        ExistingWorkspace)
        ensures
            match existing {
                ExistingWorkspace::Running(status) => {
                    &&& running && old(self)@.workspaces.contains_key(project_id@)
                    &&& status@ == old(self)@.status(Some(project_id@), true)
                    &&& final(self)@ == old(self)@
                },
                ExistingWorkspace::Removed(stopping) => {
                    &&& !(running && old(self)@.workspaces.contains_key(project_id@))
                    &&& stopping_lane(stopping) == old(self)@.lane_of(project_id@)
                    &&& final(self)@ == old(self)@.unregister(project_id@)
                },
            },
    {
        let status = self.workspace_status(Some(project_id), running);
        if status.process_running {
            return ExistingWorkspace::Running(status);
        }
        ExistingWorkspace::Removed(self.remove_workspace(project_id))
    }

    /// Whether one more workspace browser may be registered.
    pub fn check_workspace_capacity(&self) -> (checked: Result<(), String>)
        ensures
            self@.workspaces.dom().finite(),
            match checked {
                Ok(_) => self@.workspaces.len() < MAX_WORKSPACES,
                Err(error) => self@.workspaces.len() >= MAX_WORKSPACES && error@
                    == capacity_message(),
            },
    {
        if self.workspaces.len() >= MAX_WORKSPACES {
            let limit = text::decimal_text(MAX_WORKSPACES as u16);
            return Err(
                "workspace browser limit (".to_owned().concat(limit.as_str()).concat(
                    ") reached; use browser_setup action=stop_workspace in an idle project before starting another workspace",
                ),
            );
        }
        Ok(())
    }

    /// Begins to stop a project's workspace browser. The status is the one
    /// after the stop: nothing is registered.
    pub fn stop_project_workspace(&mut self, project_id: &str) -> (stopped: (
        Option<StoppingWorkspace>,
        WorkspaceStatus,
    ))
        ensures
            final(self)@ == old(self)@.unregister(project_id@),
            stopping_lane(stopped.0) == old(self)@.lane_of(project_id@),
            stopped.1@ == status::absent_status(Some(project_id@)),
    {
        let stopping = self.remove_workspace(project_id);
        let status = self.workspace_status(Some(project_id), false);
        (stopping, status)
    }

    /// Begins to remove a project's workspace browser: it is no longer
    /// registered, so no socket takes its lane any more. What belongs to the
    /// lane stays until [`forget_workspace`](Self::forget_workspace).
    pub fn remove_workspace(&mut self, project_id: &str) -> (stopping: Option<StoppingWorkspace>)
        ensures
            final(self)@ == old(self)@.unregister(project_id@),
            stopping_lane(stopping) == old(self)@.lane_of(project_id@),
    {
        match self.workspaces.remove(project_id) {
            None => None,
            Some(identity) => Some(StoppingWorkspace { lane: identity.lane }),
        }
    }

    /// Ends the removal of a workspace browser that is shut down: all that
    /// belongs to its lane goes, and every other lane keeps what it has.
    pub fn forget_workspace(&mut self, stopped: StoppingWorkspace) -> (actions: Vec<BridgeAction>)
        ensures
            final(self)@ == old(self)@.forget_lane(stopped@),
            is_forgetting(action_views(actions@), old(self)@.pending_on(stopped@)),
    {
        let lane = stopped.lane;
        let ghost pending = self@.pending_on(lane@);
        let mut actions: Vec<BridgeAction> = match self.sessions.remove(lane.as_str()) {
            Some(slot) => fail_pending(slot.pending),
            None => {
                let none: Vec<BridgeAction> = Vec::new();
                proof {
                    let ids = Seq::<Seq<char>>::empty();
                    assert(ids.to_set() =~= pending.dom());
                    assert(action_views(none@) =~= failures(ids, pending));
                }
                none
            },
        };
        let ghost ids = choose|ids: Seq<Seq<char>>|
            {
                &&& ids.no_duplicates()
                &&& ids.to_set() == pending.dom()
                &&& action_views(actions@) == #[trigger] failures(ids, pending)
            };
        let _ = self.occupancy.remove(lane.as_str());
        let gone = SessionSet::One(lane);
        self.turn_ledgers.keep_outside(&gone);
        self.pending_cleanups.keep_outside(&gone);
        self.needs_human.keep_outside(&gone);
        actions.push(BridgeAction::PersistPending);
        actions.push(BridgeAction::PersistNeedsHuman);
        actions.push(BridgeAction::EmitNeedsHuman);
        assert(action_views(actions@) =~= failures(ids, pending) + seq![
            ActionView::PersistPending,
            ActionView::PersistNeedsHuman,
            ActionView::EmitNeedsHuman,
        ]);
        actions
    }

    /// Whether `lane` is that of a registered workspace browser.
    fn is_registered(&self, lane: &str) -> (registered: bool)
        ensures
            registered == self@.is_registered(lane@),
    {
        let rows = self.workspaces.rows();
        let mut i: usize = 0;
        while i < rows.len()
            invariant
                i <= rows@.len(),
                table::lists(rows@, self@.workspaces),
                forall|j: int| 0 <= j < i ==> (#[trigger] rows@[j]).value@.lane != lane@,
            decreases rows@.len() - i,
        {
            if text::same_text(rows[i].value.lane.as_str(), lane) {
                proof {
                    let key = rows@[i as int].key@;
                    assert(table::keys_of(rows@)[i as int] == key);
                    assert(table::keys_of(rows@).to_set().contains(key));
                    assert(self@.workspaces.contains_key(key));
                }
                return true;
            }
            i = i + 1;
        }
        proof {
            assert forall|project_id: Seq<char>| #[trigger]
                self@.workspaces.contains_key(
                    project_id,
                ) implies self@.workspaces[project_id].lane != lane@ by {
                assert(table::keys_of(rows@).to_set().contains(project_id));
                let j = choose|j: int|
                    0 <= j < table::keys_of(rows@).len() && table::keys_of(rows@)[j] == project_id;
                assert(rows@[j].key@ == project_id);
            }
        }
        false
    }

    /// Lets a client serve the session of `lane`. A socket that finishes its
    /// handshake when its workspace browser is gone is turned away.
    pub fn install_client_on(&mut self, client_id: u64, lane: &str) -> (installed: bool)
        ensures
            installed == old(self)@.admits(lane@),
            final(self)@ == if installed {
                old(self)@.install_client(client_id, lane@)
            } else {
                old(self)@
            },
    {
        if text::starts_with(lane, "workspace:") && !self.is_registered(lane) {
            return false;
        }
        let ghost before = self@;
        let pending = match self.sessions.remove(lane) {
            Some(slot) => slot.pending,
            None => Table::new(),
        };
        self.sessions.insert(lane.to_owned(), SessionSlot { client: Some(client_id), pending });
        assert(self@.sessions =~= before.install_client(client_id, lane@).sessions);
        true
    }

    /// Lets a request wait for its reply on `lane`; `handle` is the number by
    /// which the host knows the waiter. Without a session nothing waits.
    pub fn expect_reply_on(&mut self, lane: &str, request_id: &str, handle: u64) -> (waits: bool)
        ensures
            waits == old(self)@.sessions.contains_key(lane@),
            final(self)@ == if waits {
                old(self)@.expect(lane@, request_id@, handle)
            } else {
                old(self)@
            },
    {
        let ghost before = self@;
        let mut slot = match self.sessions.remove(lane) {
            None => {
                assert(self@.sessions =~= before.sessions);
                return false;
            },
            Some(slot) => slot,
        };
        slot.pending.insert(request_id.to_owned(), handle);
        self.sessions.insert(lane.to_owned(), slot);
        assert(self@.sessions =~= before.expect(lane@, request_id@, handle).sessions);
        true
    }

    /// Takes the request that a reply answers: one that waits on the lane of
    /// the client that replies. Every other reply changes nothing.
    pub fn handle_reply_on(&mut self, client_id: u64, lane: &str, request_id: &str) -> (handle:
        Option<u64>)
        ensures
            match handle {
                Some(handle) => {
                    &&& old(self)@.expects_reply(client_id, lane@, request_id@)
                    &&& handle == old(self)@.sessions[lane@].pending[request_id@]
                    &&& final(self)@ == old(self)@.settle(lane@, request_id@)
                },
                None => {
                    &&& !old(self)@.expects_reply(client_id, lane@, request_id@)
                    &&& final(self)@ == old(self)@
                },
            },
    {
        let ghost before = self@;
        let mut slot = match self.sessions.remove(lane) {
            None => {
                assert(self@.sessions =~= before.sessions);
                return None;
            },
            Some(slot) => slot,
        };
        let ghost slot_before = slot@;
        let from_client = match slot.client {
            Some(client) => client == client_id,
            None => false,
        };
        let handle = if from_client {
            slot.pending.remove(request_id)
        } else {
            None
        };
        proof {
            if handle is None {
                assert(slot@.pending =~= slot_before.pending);
            }
        }
        self.sessions.insert(lane.to_owned(), slot);
        assert(self@.sessions =~= before.sessions.insert(lane@, slot@));
        proof {
            if handle is None {
                assert(self@.sessions =~= before.sessions);
            }
        }
        handle
    }

    /// Takes back the cleanups of an earlier run. Workspace browsers do not
    /// outlive a run, so their tabs are dropped.
    pub fn load_pending_cleanups(&mut self, stored: Vec<CleanupPrompt>)
        ensures
            final(self)@ == old(self)@.load_cleanups(
                stored@.map_values(|row: CleanupPrompt| row@),
            ),
    {
        let ghost before = self@;
        let ghost rows = stored@.map_values(|row: CleanupPrompt| row@);
        let workspaces = SessionSet::Workspaces;
        assert(rows.subrange(0, 0) == Seq::<tabs::CleanupView>::empty());
        for row in iter: stored
            invariant
                workspaces == SessionSet::Workspaces,
                rows == iter.seq().map_values(|row: CleanupPrompt| row@),
                self@ == before.load_cleanups(rows.subrange(0, iter.index())),
        {
            let ghost i = iter.index();
            proof {
                assert(rows.subrange(0, i + 1).drop_last() == rows.subrange(0, i));
                assert(rows.subrange(0, i + 1).last() == row@);
            }
            match row.keep_outside(&workspaces) {
                Some(kept) => {
                    let turn_id = kept.turn_id.clone();
                    self.pending_cleanups.insert(turn_id, kept);
                },
                None => {},
            }
            assert(self@ == before.load_cleanups(rows.subrange(0, i + 1)));
        }
        assert(rows.subrange(0, rows.len() as int) == rows);
    }

    /// Takes back the tabs of an earlier run that need a human. Workspace
    /// browsers do not outlive a run, so their tabs are dropped.
    pub fn load_pending_needs_human(&mut self, stored: Vec<TabRef>)
        ensures
            final(self)@ == old(self)@.load_needs_human(tabs::tab_views(stored@)),
    {
        let ghost before = self@;
        let ghost all = tabs::tab_views(stored@);
        let workspaces = SessionSet::Workspaces;
        assert(all.subrange(0, 0) == Seq::<tabs::TabView>::empty());
        for tab in iter: stored
            invariant
                workspaces == SessionSet::Workspaces,
                all == tabs::tab_views(iter.seq()),
                self@ == before.load_needs_human(all.subrange(0, iter.index())),
        {
            let ghost i = iter.index();
            proof {
                assert(all.subrange(0, i + 1).drop_last() == all.subrange(0, i));
                assert(all.subrange(0, i + 1).last() == tab@);
            }
            if !workspaces.contains(tab.session.as_str()) {
                self.needs_human.insert(tab);
            }
            assert(self@ == before.load_needs_human(all.subrange(0, i + 1)));
        }
        assert(all.subrange(0, all.len() as int) == all);
    }
}

} // verus!
