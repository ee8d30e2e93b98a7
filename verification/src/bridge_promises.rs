//! What the bridge and its tables promise, told by what goes in and what comes
//! out.
//!
//! A law here holds of every call of the function that it names.
use crate::bridge::{BridgeAction, BrowserBridge, ExistingWorkspace, StoppingWorkspace};
use crate::bridge;
use crate::identity::WorkspaceIdentity;
use crate::identity;
use crate::pairs;
use crate::promises;
use crate::readings;
use crate::status::WorkspaceStatus;
use crate::table::{Entry, TabTable, Table};
use crate::table;
use crate::tabs::{CleanupPrompt, SessionSet, TabRef, TurnLedger};
use crate::tabs;
use vstd::prelude::*;

verus! {

// Views.

/// What a row of the bridge stands for has every field of the row.
pub proof fn rows_are_seen_whole(
    identity: WorkspaceIdentity,
    slot: bridge::SessionSlot,
    lease: bridge::TurnLease,
    tab: TabRef,
    ledger: TurnLedger,
    prompt: CleanupPrompt,
)
    ensures
        identity@.project_id == identity.project_id@,
        identity@.lane == identity.lane@,
        identity@.profile == identity.profile,
        identity@.extension == identity.extension,
        identity@.endpoint == identity.endpoint@,
        identity@.connection_path == identity.connection_path@,
        slot@.client == slot.client,
        slot@.pending == slot.pending@,
        lease@.project_id == lease.project_id@,
        lease@.turn_id == lease.turn_id@,
        tab@.session == tab.session@,
        tab@.tab_id == tab.tab_id,
        tab@.handle == tab.handle,
        ledger@.handle == ledger.handle,
        ledger@.tabs.len() == ledger.tabs@.len(),
        forall|i: int|
            0 <= i < ledger.tabs@.len() ==> #[trigger] ledger@.tabs[i] == ledger.tabs@[i]@,
        prompt@.turn_id == prompt.turn_id@,
        prompt@.frame_id == prompt.frame_id@,
        prompt@.handle == prompt.handle,
        prompt@.tabs.len() == prompt.tabs@.len(),
        forall|i: int|
            0 <= i < prompt.tabs@.len() ==> #[trigger] prompt@.tabs[i] == prompt.tabs@[i]@,
{
}

// Sessions and tabs.

/// The set of one session holds that session; the set of workspace sessions
/// holds what names a workspace browser.
pub proof fn a_session_set_holds_its_sessions(set: SessionSet, session: &str, yes: bool)
    requires
        call_ensures(SessionSet::contains, (&set, session), yes),
    ensures
        match set {
            SessionSet::One(only) => yes <==> session@ == only@,
            SessionSet::Workspaces => yes <==> readings::names_workspace(session@),
        },
{
    readings::lemma_prefix(session@, "workspace:"@);
}

/// The sessions that are not in a set.
pub open spec fn not_in(set: SessionSet) -> spec_fn(Seq<char>) -> bool {
    |session: Seq<char>|
        match set {
            SessionSet::One(only) => session != only@,
            SessionSet::Workspaces => !readings::names_workspace(session),
        }
}

proof fn lemma_not_in(set: SessionSet)
    ensures
        forall|session: Seq<char>| #[trigger] not_in(set)(session) == !set@.contains(session),
{
    assert forall|session: Seq<char>| #[trigger]
        not_in(set)(session) == !set@.contains(session) by {
        readings::lemma_prefix(session, "workspace:"@);
    }
}

/// What is kept are the tabs of other sessions, each as often and in the order
/// as before.
pub proof fn other_tabs_are_kept_in_order(
    all: Vec<TabRef>,
    sessions: SessionSet,
    kept: Vec<TabRef>,
)
    requires
        call_ensures(tabs::keep_tabs_outside, (all, &sessions), kept),
    ensures
        readings::is_left_over(tabs::tab_views(all@), tabs::tab_views(kept@), not_in(sessions)),
{
    lemma_not_in(sessions);
    readings::lemma_left_over(tabs::tab_views(all@), sessions@, not_in(sessions));
}

// Tables.

/// The rows of a table in a list are those that are found by their keys, each
/// once.
pub proof fn a_list_of_rows_is_complete<V: View>(table: Table<V>, listed: &Vec<Entry<V>>)
    requires
        call_ensures(Table::<V>::rows, (&table,), listed),
    ensures
        forall|i: int|
            0 <= i < listed@.len() ==> table@.contains_key((#[trigger] listed@[i]).key@)
                && table@[listed@[i].key@] == listed@[i].value@,
        forall|key: Seq<char>| #[trigger]
            table@.contains_key(key) ==> exists|i: int|
                0 <= i < listed@.len() && (#[trigger] listed@[i]).key@ == key,
        forall|i: int, j: int|
            0 <= i < j < listed@.len() ==> (#[trigger] listed@[i]).key@ != (
            #[trigger] listed@[j]).key@,
{
    lemma_lists_rows(listed@, table@);
}

proof fn lemma_lists_rows<V: View>(listed: Seq<Entry<V>>, rows: Map<Seq<char>, V::V>)
    requires
        table::lists(listed, rows),
    ensures
        forall|i: int|
            0 <= i < listed.len() ==> rows.contains_key((#[trigger] listed[i]).key@)
                && rows[listed[i].key@] == listed[i].value@,
        forall|key: Seq<char>| #[trigger]
            rows.contains_key(key) ==> exists|i: int|
                0 <= i < listed.len() && (#[trigger] listed[i]).key@ == key,
        forall|i: int, j: int|
            0 <= i < j < listed.len() ==> (#[trigger] listed[i]).key@ != (
            #[trigger] listed[j]).key@,
{
    let keys = table::keys_of(listed);
    assert forall|i: int| 0 <= i < listed.len() implies rows.contains_key(
        (#[trigger] listed[i]).key@,
    ) && rows[listed[i].key@] == listed[i].value@ by {
        assert(keys[i] == listed[i].key@);
        assert(keys.to_set().contains(keys[i]));
    }
    assert forall|key: Seq<char>| #[trigger] rows.contains_key(key) implies exists|i: int|
        0 <= i < listed.len() && (#[trigger] listed[i]).key@ == key by {
        assert(keys.to_set().contains(key));
        let i = choose|i: int| 0 <= i < keys.len() && keys[i] == key;
        assert(listed[i].key@ == key);
    }
    assert forall|i: int, j: int| 0 <= i < j < listed.len() implies (#[trigger] listed[i]).key@
        != (#[trigger] listed[j]).key@ by {
        assert(keys[i] != keys[j]);
    }
}

/// A row is found by the key that it was put under, and the others as before.
pub proof fn a_row_is_found_by_its_key<V: View>(
    table: &mut Table<V>,
    key: String,
    value: V,
    done: (),
    found: Option<&V>,
    other: &str,
)
    requires
        call_ensures(Table::<V>::insert, (table, key, value), done),
        call_ensures(Table::<V>::get, (final(table), other), found),
    ensures
        match found {
            Some(row) => if other@ == key@ {
                row@ == value@
            } else {
                old(table)@.contains_key(other@) && row@ == old(table)@[other@]
            },
            None => other@ != key@ && !old(table)@.contains_key(other@),
        },
{
}

/// A row that is taken out is the one of its key; it is gone then, and the
/// others are found as before.
pub proof fn a_row_is_taken_out_by_its_key<V: View>(
    table: &mut Table<V>,
    key: &str,
    taken: Option<V>,
    there: bool,
    other: &str,
)
    requires
        call_ensures(Table::<V>::remove, (table, key), taken),
        call_ensures(Table::<V>::contains_key, (final(table), other), there),
    ensures
        match taken {
            Some(row) => old(table)@.contains_key(key@) && row@ == old(table)@[key@],
            None => !old(table)@.contains_key(key@),
        },
        there <==> other@ != key@ && old(table)@.contains_key(other@),
        forall|left: Seq<char>| #[trigger]
            final(table)@.contains_key(left) ==> final(table)@[left] == old(table)@[left],
{
}

/// The rows of a table that is given up are those that were found by their
/// keys, each once.
pub proof fn a_table_gives_all_of_its_rows<V: View>(table: Table<V>, listed: Vec<Entry<V>>)
    requires
        call_ensures(Table::<V>::into_rows, (table,), listed),
    ensures
        forall|i: int|
            0 <= i < listed@.len() ==> table@.contains_key((#[trigger] listed@[i]).key@)
                && table@[listed@[i].key@] == listed@[i].value@,
        forall|key: Seq<char>| #[trigger]
            table@.contains_key(key) ==> exists|i: int|
                0 <= i < listed@.len() && (#[trigger] listed@[i]).key@ == key,
        forall|i: int, j: int|
            0 <= i < j < listed@.len() ==> (#[trigger] listed@[i]).key@ != (
            #[trigger] listed@[j]).key@,
{
    lemma_lists_rows(listed@, table@);
}

/// A new table has no rows.
pub proof fn a_new_table_is_empty<V: View>(table: Table<V>, tabs: TabTable)
    requires
        call_ensures(Table::<V>::new, (), table),
        call_ensures(TabTable::new, (), tabs),
    ensures
        forall|key: Seq<char>| !#[trigger] table@.contains_key(key),
        forall|key: (Seq<char>, i64)| !#[trigger] tabs@.contains_key(key),
{
}

/// Tabs of the sessions of a set go, and the others keep their handles.
pub proof fn a_tab_table_keeps_other_tabs(table: &mut TabTable, sessions: SessionSet, done: ())
    requires
        call_ensures(TabTable::keep_outside, (table, &sessions), done),
    ensures
        forall|key: (Seq<char>, i64)| #[trigger]
            final(table)@.contains_key(key) <==> old(table)@.contains_key(key) && not_in(sessions)(
                key.0,
            ),
        forall|key: (Seq<char>, i64)| #[trigger]
            final(table)@.contains_key(key) ==> final(table)@[key] == old(table)@[key],
{
    lemma_not_in(sessions);
}

/// A tab has the handle that it was put in with last, and the others as before.
pub proof fn a_tab_has_its_last_handle(
    table: &mut TabTable,
    tab: TabRef,
    done: (),
    found: Option<u64>,
    session: &str,
    tab_id: i64,
)
    requires
        call_ensures(TabTable::insert, (table, tab), done),
        call_ensures(TabTable::get, (final(table), session, tab_id), found),
    ensures
        if session@ == tab.session@ && tab_id == tab.tab_id {
            found == Some(tab.handle)
        } else if old(table)@.contains_key((session@, tab_id)) {
            found == Some(old(table)@[(session@, tab_id)])
        } else {
            found is None
        },
{
}

/// The tabs of a table in a list are those that are found by session and
/// number, each once.
pub proof fn a_list_of_tabs_is_complete(table: TabTable, listed: &Vec<TabRef>)
    requires
        call_ensures(TabTable::tabs, (&table,), listed),
    ensures
        forall|i: int|
            0 <= i < listed@.len() ==> {
                let tab = #[trigger] listed@[i];
                &&& table@.contains_key((tab.session@, tab.tab_id))
                &&& table@[(tab.session@, tab.tab_id)] == tab.handle
            },
        forall|key: (Seq<char>, i64)| #[trigger]
            table@.contains_key(key) ==> exists|i: int|
                0 <= i < listed@.len() && (#[trigger] listed@[i]).session@ == key.0
                    && listed@[i].tab_id == key.1,
        forall|i: int, j: int|
            0 <= i < j < listed@.len() ==> (#[trigger] listed@[i]).session@ != (
            #[trigger] listed@[j]).session@ || listed@[i].tab_id != listed@[j].tab_id,
{
    let all = table::tab_pairs(tabs::tab_views(listed@));
    let keys = pairs::keys_of(all);
    assert(all.len() == listed@.len());
    assert(keys.len() == listed@.len());
    assert forall|i: int| 0 <= i < listed@.len() implies all[i] == (
        (listed@[i].session@, listed@[i].tab_id),
        listed@[i].handle,
    ) && (#[trigger] keys[i]) == (listed@[i].session@, listed@[i].tab_id) by {}
    assert forall|i: int| 0 <= i < listed@.len() implies {
        let tab = #[trigger] listed@[i];
        &&& table@.contains_key((tab.session@, tab.tab_id))
        &&& table@[(tab.session@, tab.tab_id)] == tab.handle
    } by {
        assert(keys.to_set().contains(keys[i]));
        assert(all[i].1 == table@[all[i].0]);
    }
    assert forall|key: (Seq<char>, i64)| #[trigger] table@.contains_key(key) implies exists|i: int|
        0 <= i < listed@.len() && (#[trigger] listed@[i]).session@ == key.0 && listed@[i].tab_id
            == key.1 by {
        assert(keys.to_set().contains(key));
        let i = choose|i: int| 0 <= i < keys.len() && keys[i] == key;
        assert(listed@[i].session@ == key.0);
    }
    assert forall|i: int, j: int| 0 <= i < j < listed@.len() implies (
    #[trigger] listed@[i]).session@ != (#[trigger] listed@[j]).session@ || listed@[i].tab_id
        != listed@[j].tab_id by {
        assert(keys[i] != keys[j]);
    }
}

/// The numbers of rows are those of the keys.
pub proof fn lengths_count_keys<V: View>(
    table: Table<V>,
    rows: usize,
    tabs: TabTable,
    count: usize,
)
    requires
        call_ensures(Table::<V>::len, (&table,), rows),
        call_ensures(TabTable::len, (&tabs,), count),
    ensures
        table@.dom().finite(),
        rows == table@.dom().len(),
        tabs@.dom().finite(),
        count == tabs@.dom().len(),
{
}

// The bridge.

/// Whether two bridges hold the same in all tables but that of the workspaces.
pub open spec fn same_beside_workspaces(a: BrowserBridge, b: BrowserBridge) -> bool {
    &&& a.sessions@ == b.sessions@
    &&& same_beside_sessions_and_workspaces(a, b)
}

/// Whether two bridges hold the same in all tables but those of the sessions
/// and the workspaces.
pub open spec fn same_beside_sessions_and_workspaces(a: BrowserBridge, b: BrowserBridge) -> bool {
    &&& a.occupancy@ == b.occupancy@
    &&& a.turn_ledgers@ == b.turn_ledgers@
    &&& a.pending_cleanups@ == b.pending_cleanups@
    &&& a.needs_human@ == b.needs_human@
}

/// Whether two bridges hold the same.
pub open spec fn same_tables(a: BrowserBridge, b: BrowserBridge) -> bool {
    a.workspaces@ == b.workspaces@ && same_beside_workspaces(a, b)
}

/// Whether a client serves a lane.
pub open spec fn is_served(bridge: BrowserBridge, lane: Seq<char>) -> bool {
    bridge.sessions@.contains_key(lane) && bridge.sessions@[lane].client is Some
}

/// Whether `after` is `before` without the workspace browser of `project_id`,
/// and `stopping` is its lane if there was one.
pub open spec fn took_out(
    before: BrowserBridge,
    after: BrowserBridge,
    project_id: Seq<char>,
    stopping: Option<StoppingWorkspace>,
) -> bool {
    &&& after.workspaces@ == before.workspaces@.remove(project_id)
    &&& same_beside_workspaces(before, after)
    &&& match stopping {
        Some(stopping) => before.workspaces@.contains_key(project_id) && stopping@
            == before.workspaces@[project_id].lane,
        None => !before.workspaces@.contains_key(project_id),
    }
}

/// What a browser that is to be shut down tells is its lane.
pub proof fn a_stopping_workspace_tells_its_lane(stopping: StoppingWorkspace, lane: &str)
    requires
        call_ensures(StoppingWorkspace::lane, (&stopping,), lane),
    ensures
        lane@ == stopping@,
{
}

/// A new bridge holds nothing.
pub proof fn a_new_bridge_is_empty(bridge: BrowserBridge)
    requires
        call_ensures(BrowserBridge::new, (), bridge),
    ensures
        bridge.workspaces@.dom() == Set::<Seq<char>>::empty(),
        bridge.sessions@.dom() == Set::<Seq<char>>::empty(),
        bridge.occupancy@.dom() == Set::<Seq<char>>::empty(),
        bridge.turn_ledgers@.dom() == Set::<Seq<char>>::empty(),
        bridge.pending_cleanups@.dom() == Set::<Seq<char>>::empty(),
        bridge.needs_human@.dom() == Set::<(Seq<char>, i64)>::empty(),
{
    assert(bridge.workspaces@.dom() =~= Set::<Seq<char>>::empty());
    assert(bridge.sessions@.dom() =~= Set::<Seq<char>>::empty());
    assert(bridge.occupancy@.dom() =~= Set::<Seq<char>>::empty());
    assert(bridge.turn_ledgers@.dom() =~= Set::<Seq<char>>::empty());
    assert(bridge.pending_cleanups@.dom() =~= Set::<Seq<char>>::empty());
    assert(bridge.needs_human@.dom() =~= Set::<(Seq<char>, i64)>::empty());
}

/// A tool that asks for `workspace` is answered with the lane of its own
/// project's browser whenever there is one, whatever else the bridge holds.
/// Without one, or without a project, it is told so; a lane name is refused;
/// and every other session stands for itself.
pub proof fn tools_are_routed_by_their_project(
    bridge: BrowserBridge,
    session: Result<Option<String>, String>,
    project_id: Option<&str>,
    routed: Result<Option<String>, String>,
)
    requires
        call_ensures(BrowserBridge::tool_session, (&bridge, session, project_id), routed),
    ensures
        match session {
            Err(error) => routed matches Err(same) && same@ == error@,
            Ok(None) => routed == Ok::<Option<String>, String>(None),
            Ok(Some(name)) => if name@ == "workspace"@ {
                match project_id {
                    Some(id) => if id@.len() == 0 {
                        routed matches Err(error) && error@
                            == "workspace browser requires a current project"@
                    } else if bridge.workspaces@.contains_key(id@) {
                        routed matches Ok(Some(lane)) && lane@ == bridge.workspaces@[id@].lane
                    } else {
                        routed matches Err(error) && error@ == "project '"@ + id@
                            + "' has no workspace browser; call browser_setup with action=start_workspace first"@
                    },
                    None => routed matches Err(error) && error@
                        == "workspace browser requires a current project"@,
                }
            } else if readings::begins_with(name@, "workspace:"@) {
                routed is Err
            } else {
                routed matches Ok(Some(same)) && same@ == name@
            },
        },
{
    if let Ok(Some(name)) = session {
        readings::lemma_prefix(name@, "workspace:"@);
    }
    assert(bridge::session_view(routed) == bridge@.tool_lane(
        bridge::session_view(session),
        bridge::optional_str(project_id),
    ));
}

/// Routing looks at the registered browsers alone: two bridges that have the
/// same ones route alike.
pub proof fn routing_looks_at_workspaces_only(
    a: BrowserBridge,
    b: BrowserBridge,
    name: String,
    project_id: Option<&str>,
    left: Result<Option<String>, String>,
    right: Result<Option<String>, String>,
)
    requires
        a.workspaces@ == b.workspaces@,
        call_ensures(BrowserBridge::tool_session, (&a, Ok(Some(name)), project_id), left),
        call_ensures(BrowserBridge::tool_session, (&b, Ok(Some(name)), project_id), right),
    ensures
        match (left, right) {
            (Ok(Some(l)), Ok(Some(r))) => l@ == r@,
            (Ok(None), Ok(None)) => true,
            (Err(l), Err(r)) => l@ == r@,
            _ => false,
        },
{
    assert(bridge::session_view(left) == bridge::session_view(right));
}

/// A lane is connected where a client serves its session.
pub proof fn a_lane_is_connected_by_its_client(bridge: BrowserBridge, lane: &str, connected: bool)
    requires
        call_ensures(BrowserBridge::is_connected, (&bridge, lane), connected),
    ensures
        connected <==> is_served(bridge, lane@),
{
}

/// The status of a project tells its registered browser, whether that is
/// connected and whether its process was seen running, or that there is none.
pub proof fn a_workspace_status_tells_the_registered_browser(
    bridge: BrowserBridge,
    project_id: Option<&str>,
    running: bool,
    status: WorkspaceStatus,
)
    requires
        call_ensures(BrowserBridge::workspace_status, (&bridge, project_id, running), status),
    ensures
        match project_id {
            Some(id) => if bridge.workspaces@.contains_key(id@) {
                let identity = bridge.workspaces@[id@];
                promises::tells_instance(
                    status,
                    identity,
                    is_served(bridge, identity.lane),
                    running,
                )
            } else {
                promises::tells_absence(status, project_id)
            },
            None => promises::tells_absence(status, project_id),
        },
{
}

/// A browser that runs is told and stays; one that does not is taken out.
pub proof fn an_existing_workspace_stays_while_it_runs(
    bridge: &mut BrowserBridge,
    project_id: &str,
    running: bool,
    existing: ExistingWorkspace,
)
    requires
        call_ensures(BrowserBridge::existing_workspace, (bridge, project_id, running), existing),
    ensures
        if running && old(bridge).workspaces@.contains_key(project_id@) {
            let identity = old(bridge).workspaces@[project_id@];
            &&& same_tables(*old(bridge), *final(bridge))
            &&& existing matches ExistingWorkspace::Running(status)
            &&& promises::tells_instance(
                status,
                identity,
                is_served(*old(bridge), identity.lane),
                true,
            )
        } else {
            &&& existing matches ExistingWorkspace::Removed(stopping)
            &&& took_out(*old(bridge), *final(bridge), project_id@, stopping)
        },
{
}

/// There is room exactly while fewer than three browsers are registered.
pub proof fn room_is_counted_in_workspaces(bridge: BrowserBridge, checked: Result<(), String>)
    requires
        call_ensures(BrowserBridge::check_workspace_capacity, (&bridge,), checked),
    ensures
        bridge.workspaces@.dom().finite(),
        checked is Ok <==> bridge.workspaces@.dom().len() < 3,
        checked matches Err(error) ==> error@ == full_message(),
{
    lemma_full_message();
}

/// What a start is told when there is no room.
pub open spec fn full_message() -> Seq<char> {
    "workspace browser limit (3) reached; use browser_setup action=stop_workspace in an idle project before starting another workspace"@
}

pub proof fn lemma_full_message()
    ensures
        bridge::capacity_message() == full_message(),
{
    reveal_strlit("workspace browser limit (3) reached; use browser_setup action=stop_workspace in an idle project before starting another workspace");
    reveal_strlit("workspace browser limit (");
    reveal_strlit(") reached; use browser_setup action=stop_workspace in an idle project before starting another workspace");
    reveal_strlit("0123456789abcdef");
    assert(bridge::capacity_message() =~= full_message());
}

/// A stop takes the browser out of the table and leaves all else until it is
/// shut down; the project then has none.
pub proof fn a_stop_takes_out_its_own_browser(
    bridge: &mut BrowserBridge,
    project_id: &str,
    stopped: (Option<StoppingWorkspace>, WorkspaceStatus),
)
    requires
        call_ensures(BrowserBridge::stop_project_workspace, (bridge, project_id), stopped),
    ensures
        took_out(*old(bridge), *final(bridge), project_id@, stopped.0),
        promises::tells_absence(stopped.1, Some(project_id)),
{
}

/// So does the beginning of a removal.
pub proof fn a_removal_takes_out_its_own_browser(
    bridge: &mut BrowserBridge,
    project_id: &str,
    stopping: Option<StoppingWorkspace>,
)
    requires
        call_ensures(BrowserBridge::remove_workspace, (bridge, project_id), stopping),
    ensures
        took_out(*old(bridge), *final(bridge), project_id@, stopping),
{
}

/// Sessions other than `lane`.
pub open spec fn other_than(lane: Seq<char>) -> spec_fn(Seq<char>) -> bool {
    |session: Seq<char>| session != lane
}

/// The requests that wait on a lane.
pub open spec fn waiting_on(bridge: BrowserBridge, lane: Seq<char>) -> Map<Seq<char>, u64> {
    if bridge.sessions@.contains_key(lane) {
        bridge.sessions@[lane].pending
    } else {
        Map::empty()
    }
}

/// When a lane is forgotten, its session, its lease and its tabs go, and a row
/// goes that has no tab left. Everything else stays as it was: other tabs in
/// their order, with the data of their rows.
pub proof fn forgetting_leaves_the_rest(
    bridge: &mut BrowserBridge,
    stopped: StoppingWorkspace,
    actions: Vec<BridgeAction>,
)
    requires
        call_ensures(BrowserBridge::forget_workspace, (bridge, stopped), actions),
    ensures
        final(bridge).workspaces@ == old(bridge).workspaces@,
        final(bridge).sessions@ == old(bridge).sessions@.remove(stopped@),
        final(bridge).occupancy@ == old(bridge).occupancy@.remove(stopped@),
        forall|turn: Seq<char>| #[trigger]
            final(bridge).turn_ledgers@.contains_key(turn) <==> old(
                bridge,
            ).turn_ledgers@.contains_key(turn) && readings::has_tab(
                old(bridge).turn_ledgers@[turn].tabs,
                other_than(stopped@),
            ),
        forall|turn: Seq<char>| #[trigger]
            final(bridge).turn_ledgers@.contains_key(turn) ==> {
                let before = old(bridge).turn_ledgers@[turn];
                let after = final(bridge).turn_ledgers@[turn];
                &&& after.handle == before.handle
                &&& readings::is_left_over(before.tabs, after.tabs, other_than(stopped@))
            },
        forall|turn: Seq<char>| #[trigger]
            final(bridge).pending_cleanups@.contains_key(turn) <==> old(
                bridge,
            ).pending_cleanups@.contains_key(turn) && readings::has_tab(
                old(bridge).pending_cleanups@[turn].tabs,
                other_than(stopped@),
            ),
        forall|turn: Seq<char>| #[trigger]
            final(bridge).pending_cleanups@.contains_key(turn) ==> {
                let before = old(bridge).pending_cleanups@[turn];
                let after = final(bridge).pending_cleanups@[turn];
                &&& after.turn_id == before.turn_id
                &&& after.frame_id == before.frame_id
                &&& after.handle == before.handle
                &&& readings::is_left_over(before.tabs, after.tabs, other_than(stopped@))
            },
        forall|key: (Seq<char>, i64)| #[trigger]
            final(bridge).needs_human@.contains_key(key) <==> old(
                bridge,
            ).needs_human@.contains_key(key) && key.0 != stopped@,
        forall|key: (Seq<char>, i64)| #[trigger]
            final(bridge).needs_human@.contains_key(key) ==> final(bridge).needs_human@[key]
                == old(bridge).needs_human@[key],
{
    let lane = stopped@;
    let keeps = other_than(lane);
    let sessions = set![lane];
    assert forall|session: Seq<char>| #[trigger] keeps(session) == !sessions.contains(session) by {}
    assert forall|turn: Seq<char>| old(bridge).turn_ledgers@.contains_key(turn) implies ({
        let all = (#[trigger] old(bridge).turn_ledgers@[turn]).tabs;
        &&& readings::is_left_over(all, tabs::tabs_outside(all, sessions), keeps)
        &&& (tabs::tabs_outside(all, sessions).len() > 0 <==> readings::has_tab(all, keeps))
    }) by {
        readings::lemma_left_over(old(bridge).turn_ledgers@[turn].tabs, sessions, keeps);
    }
    assert forall|turn: Seq<char>| old(bridge).pending_cleanups@.contains_key(turn) implies ({
        let all = (#[trigger] old(bridge).pending_cleanups@[turn]).tabs;
        &&& readings::is_left_over(all, tabs::tabs_outside(all, sessions), keeps)
        &&& (tabs::tabs_outside(all, sessions).len() > 0 <==> readings::has_tab(all, keeps))
    }) by {
        readings::lemma_left_over(old(bridge).pending_cleanups@[turn].tabs, sessions, keeps);
    }
    assert(final(bridge)@ == old(bridge)@.forget_lane(lane));
}

/// When a lane is forgotten, every request that waits on it fails exactly
/// once, with its own handle, however many wait; nothing else fails. Then the
/// rows that are left are stored and shown.
pub proof fn every_waiting_request_fails_once(
    bridge: &mut BrowserBridge,
    stopped: StoppingWorkspace,
    actions: Vec<BridgeAction>,
)
    requires
        call_ensures(BrowserBridge::forget_workspace, (bridge, stopped), actions),
    ensures
        ({
            let waiting = waiting_on(*old(bridge), stopped@);
            let count = waiting.dom().len() as int;
            &&& waiting.dom().finite()
            &&& actions@.len() == count + 3
            &&& actions@[count] is PersistPending
            &&& actions@[count + 1] is PersistNeedsHuman
            &&& actions@[count + 2] is EmitNeedsHuman
            &&& forall|i: int|
                0 <= i < count ==> fails_waiting(#[trigger] actions@[i], waiting)
            &&& forall|id: Seq<char>| #[trigger]
                waiting.contains_key(id) ==> exists|i: int|
                    0 <= i < count && fails(#[trigger] actions@[i], id)
            &&& forall|id: Seq<char>, i: int, j: int|
                0 <= i < count && 0 <= j < count && #[trigger] fails(actions@[i], id)
                    && #[trigger] fails(actions@[j], id) ==> i == j
        }),
{
    let waiting = waiting_on(*old(bridge), stopped@);
    let views = bridge::action_views(actions@);
    assert(bridge::is_forgetting(views, waiting));
    let ids = choose|ids: Seq<Seq<char>>|
        {
            &&& ids.no_duplicates()
            &&& ids.to_set() == waiting.dom()
            &&& views == #[trigger] bridge::failures(ids, waiting) + seq![
                bridge::ActionView::PersistPending,
                bridge::ActionView::PersistNeedsHuman,
                bridge::ActionView::EmitNeedsHuman,
            ]
        };
    ids.unique_seq_to_set();
    vstd::seq_lib::seq_to_set_is_finite(ids);
    let count = ids.len() as int;
    assert(bridge::failures(ids, waiting).len() == count);
    assert(views.len() == actions@.len());
    assert(views[count] == actions@[count]@);
    assert(views[count + 1] == actions@[count + 1]@);
    assert(views[count + 2] == actions@[count + 2]@);
    assert forall|i: int| 0 <= i < count implies fails_waiting(#[trigger] actions@[i], waiting)
        && fails(actions@[i], ids[i]) by {
        assert(views[i] == actions@[i]@);
        assert(views[i] == bridge::failures(ids, waiting)[i]);
        assert(ids.to_set().contains(ids[i]));
    }
    assert forall|id: Seq<char>| #[trigger] waiting.contains_key(id) implies exists|i: int|
        0 <= i < count && fails(#[trigger] actions@[i], id) by {
        assert(ids.to_set().contains(id));
        let i = choose|i: int| 0 <= i < ids.len() && ids[i] == id;
        assert(fails(actions@[i], id));
    }
    assert forall|id: Seq<char>, i: int, j: int|
        0 <= i < count && 0 <= j < count && #[trigger] fails(actions@[i], id) && #[trigger] fails(
            actions@[j],
            id,
        ) implies i == j by {
        assert(ids[i] == id);
        assert(ids[j] == id);
    }
}

/// Whether an action fails the request `id`.
pub open spec fn fails(action: BridgeAction, id: Seq<char>) -> bool {
    action matches BridgeAction::FailRequest { request_id, .. } && request_id@ == id
}

/// Whether an action fails a waiting request, with its handle and the reason
/// that the workspace was stopped.
pub open spec fn fails_waiting(action: BridgeAction, waiting: Map<Seq<char>, u64>) -> bool {
    &&& action matches BridgeAction::FailRequest { request_id, handle, reason }
    &&& waiting.contains_key(request_id@)
    &&& handle == waiting[request_id@]
    &&& reason@ == "project workspace stopped"@
}

/// Whether `after` is `before` with another session for `lane` and nothing
/// else changed.
pub open spec fn changed_session(
    before: BrowserBridge,
    after: BrowserBridge,
    lane: Seq<char>,
) -> bool {
    &&& after.workspaces@ == before.workspaces@
    &&& same_beside_sessions_and_workspaces(before, after)
    &&& after.sessions@.contains_key(lane)
    &&& after.sessions@.remove(lane) == before.sessions@.remove(lane)
}

/// A client takes a lane unless that is the lane of a workspace browser and no
/// registered one has it. It then serves the lane, the requests that waited
/// there still wait, and nothing else changes.
pub proof fn a_client_takes_only_a_wanted_lane(
    bridge: &mut BrowserBridge,
    client_id: u64,
    lane: &str,
    installed: bool,
)
    requires
        call_ensures(BrowserBridge::install_client_on, (bridge, client_id, lane), installed),
    ensures
        installed <==> (readings::begins_with(lane@, "workspace:"@) ==> exists|id: Seq<char>|
            {
                &&& #[trigger] old(bridge).workspaces@.contains_key(id)
                &&& old(bridge).workspaces@[id].lane == lane@
            }),
        if installed {
            &&& changed_session(*old(bridge), *final(bridge), lane@)
            &&& final(bridge).sessions@[lane@].client == Some(client_id)
            &&& final(bridge).sessions@[lane@].pending == waiting_on(*old(bridge), lane@)
        } else {
            same_tables(*old(bridge), *final(bridge))
        },
{
    readings::lemma_prefix(lane@, "workspace:"@);
    let view = old(bridge)@;
    assert(installed == view.admits(lane@));
    assert(view.workspaces == old(bridge).workspaces@);
    if view.is_registered(lane@) {
        let id = choose|id: Seq<char>| #[trigger]
            view.workspaces.contains_key(id) && view.workspaces[id].lane == lane@;
        assert(old(bridge).workspaces@.contains_key(id));
    }
    if exists|id: Seq<char>|
        {
            &&& #[trigger] old(bridge).workspaces@.contains_key(id)
            &&& old(bridge).workspaces@[id].lane == lane@
        } {
        let id = choose|id: Seq<char>|
            {
                &&& #[trigger] old(bridge).workspaces@.contains_key(id)
                &&& old(bridge).workspaces@[id].lane == lane@
            };
        assert(view.workspaces.contains_key(id));
        assert(view.is_registered(lane@));
    }
    if installed {
        assert(final(bridge).sessions@.remove(lane@) =~= old(bridge).sessions@.remove(lane@));
    }
}

/// A request waits where there is a session, with its handle; what waited
/// there before still does, and nothing else changes.
pub proof fn a_request_waits_on_its_session(
    bridge: &mut BrowserBridge,
    lane: &str,
    request_id: &str,
    handle: u64,
    waits: bool,
)
    requires
        call_ensures(BrowserBridge::expect_reply_on, (bridge, lane, request_id, handle), waits),
    ensures
        waits <==> old(bridge).sessions@.contains_key(lane@),
        if waits {
            let before = old(bridge).sessions@[lane@];
            let after = final(bridge).sessions@[lane@];
            &&& changed_session(*old(bridge), *final(bridge), lane@)
            &&& after.client == before.client
            &&& after.pending == before.pending.insert(request_id@, handle)
        } else {
            same_tables(*old(bridge), *final(bridge))
        },
{
    if waits {
        assert(final(bridge).sessions@.remove(lane@) =~= old(bridge).sessions@.remove(lane@));
    }
}

/// A reply takes the request that it answers, if that waits on the lane of the
/// client that replies. Every other reply changes nothing.
pub proof fn a_reply_takes_its_own_request(
    bridge: &mut BrowserBridge,
    client_id: u64,
    lane: &str,
    request_id: &str,
    handle: Option<u64>,
)
    requires
        call_ensures(
            BrowserBridge::handle_reply_on,
            (bridge, client_id, lane, request_id),
            handle,
        ),
    ensures
        ({
            let sessions = old(bridge).sessions@;
            let after = final(bridge).sessions@[lane@];
            if sessions.contains_key(lane@) && sessions[lane@].client == Some(client_id)
                && sessions[lane@].pending.contains_key(request_id@) {
                &&& handle == Some(sessions[lane@].pending[request_id@])
                &&& changed_session(*old(bridge), *final(bridge), lane@)
                &&& after.client == Some(client_id)
                &&& after.pending == sessions[lane@].pending.remove(request_id@)
            } else {
                handle is None && same_tables(*old(bridge), *final(bridge))
            }
        }),
{
    if handle is Some {
        assert(final(bridge).sessions@.remove(lane@) =~= old(bridge).sessions@.remove(lane@));
    }
}

/// Sessions that name no workspace browser.
pub open spec fn lasting() -> spec_fn(Seq<char>) -> bool {
    |session: Seq<char>| !readings::names_workspace(session)
}

/// Whether the stored cleanup at `i` is of the turn `turn` and has a tab that
/// outlives a run.
pub open spec fn lasts_at(stored: Seq<tabs::CleanupView>, turn: Seq<char>, i: int) -> bool {
    &&& 0 <= i < stored.len()
    &&& stored[i].turn_id == turn
    &&& readings::has_tab(stored[i].tabs, lasting())
}

proof fn lemma_load_cleanups(
    before: bridge::BridgeView,
    stored: Seq<tabs::CleanupView>,
    turn: Seq<char>,
)
    ensures
        ({
            let after = before.load_cleanups(stored);
            let rows = after.pending_cleanups;
            &&& after.workspaces == before.workspaces
            &&& after.sessions == before.sessions
            &&& after.occupancy == before.occupancy
            &&& after.turn_ledgers == before.turn_ledgers
            &&& after.needs_human == before.needs_human
            &&& (forall|i: int| !#[trigger] lasts_at(stored, turn, i)) ==> {
                &&& rows.contains_key(turn) == before.pending_cleanups.contains_key(turn)
                &&& rows.contains_key(turn) ==> rows[turn] == before.pending_cleanups[turn]
            }
            &&& forall|i: int| #[trigger]
                lasts_at(stored, turn, i) && (forall|j: int|
                    i < j ==> !#[trigger] lasts_at(stored, turn, j)) ==> {
                    &&& rows.contains_key(turn)
                    &&& rows[turn].turn_id == turn
                    &&& rows[turn].frame_id == stored[i].frame_id
                    &&& rows[turn].handle == stored[i].handle
                    &&& readings::is_left_over(stored[i].tabs, rows[turn].tabs, lasting())
                }
        }),
    decreases stored.len(),
{
    if stored.len() > 0 {
        let head = stored.drop_last();
        let last = stored.last();
        let end = stored.len() - 1;
        lemma_load_cleanups(before, head, turn);
        let rest = before.load_cleanups(head);
        let sessions = SessionSet::Workspaces@;
        lemma_not_in(SessionSet::Workspaces);
        assert(lasting() =~= not_in(SessionSet::Workspaces));
        readings::lemma_left_over(last.tabs, sessions, lasting());
        assert forall|i: int| 0 <= i < end implies lasts_at(stored, turn, i) == #[trigger] lasts_at(
            head,
            turn,
            i,
        ) by {
            assert(stored[i] == head[i]);
        }
        assert(lasts_at(stored, turn, end) == (last.turn_id == turn && readings::has_tab(
            last.tabs,
            lasting(),
        )));
        if lasts_at(stored, turn, end) {
            assert forall|i: int|
                #[trigger] lasts_at(stored, turn, i) && (forall|j: int|
                    i < j ==> !#[trigger] lasts_at(stored, turn, j)) implies i == end by {
                if i < end {
                    assert(!lasts_at(stored, turn, end));
                }
            }
        } else {
            if forall|i: int| !#[trigger] lasts_at(stored, turn, i) {
                assert forall|i: int| !#[trigger] lasts_at(head, turn, i) by {
                    if 0 <= i < end {
                        assert(!lasts_at(stored, turn, i));
                    }
                }
            }
            assert forall|i: int| #[trigger]
                lasts_at(stored, turn, i) && (forall|j: int|
                    i < j ==> !#[trigger] lasts_at(stored, turn, j)) implies lasts_at(head, turn, i)
                && (forall|j: int| i < j ==> !#[trigger] lasts_at(head, turn, j)) && head[i]
                == stored[i] by {
                assert(i < end);
                assert(lasts_at(head, turn, i));
                assert forall|j: int| i < j implies !#[trigger] lasts_at(head, turn, j) by {
                    if j < end {
                        assert(!lasts_at(stored, turn, j));
                    }
                }
            }
        }
    }
}

/// A new run takes back, for each turn, the last stored cleanup that has a tab
/// of a session which outlives a run: these tabs in their order, with the data
/// of the row. A turn without one keeps what it has, and nothing else changes.
pub proof fn a_run_takes_back_lasting_cleanups(
    bridge: &mut BrowserBridge,
    stored: Vec<CleanupPrompt>,
    done: (),
    turn: Seq<char>,
)
    requires
        call_ensures(BrowserBridge::load_pending_cleanups, (bridge, stored), done),
    ensures
        ({
            let views = Seq::new(stored@.len(), |i: int| stored@[i]@);
            let before = old(bridge).pending_cleanups@;
            let after = final(bridge).pending_cleanups@;
            &&& final(bridge).workspaces@ == old(bridge).workspaces@
            &&& final(bridge).sessions@ == old(bridge).sessions@
            &&& final(bridge).occupancy@ == old(bridge).occupancy@
            &&& final(bridge).turn_ledgers@ == old(bridge).turn_ledgers@
            &&& final(bridge).needs_human@ == old(bridge).needs_human@
            &&& (forall|i: int| !#[trigger] lasts_at(views, turn, i)) ==> {
                &&& after.contains_key(turn) == before.contains_key(turn)
                &&& after.contains_key(turn) ==> after[turn] == before[turn]
            }
            &&& forall|i: int| #[trigger]
                lasts_at(views, turn, i) && (forall|j: int|
                    i < j ==> !#[trigger] lasts_at(views, turn, j)) ==> {
                    &&& after.contains_key(turn)
                    &&& after[turn].turn_id == turn
                    &&& after[turn].frame_id == views[i].frame_id
                    &&& after[turn].handle == views[i].handle
                    &&& readings::is_left_over(views[i].tabs, after[turn].tabs, lasting())
                }
        }),
{
    let views = Seq::new(stored@.len(), |i: int| stored@[i]@);
    assert(views =~= stored@.map_values(|row: CleanupPrompt| row@));
    lemma_load_cleanups(old(bridge)@, views, turn);
    assert(final(bridge)@ == old(bridge)@.load_cleanups(views));
}

/// Whether the stored tab at `i` has the session and number of `key`.
pub open spec fn is_at(stored: Seq<tabs::TabView>, key: (Seq<char>, i64), i: int) -> bool {
    0 <= i < stored.len() && stored[i].session == key.0 && stored[i].tab_id == key.1
}

proof fn lemma_load_needs_human(
    before: bridge::BridgeView,
    stored: Seq<tabs::TabView>,
    key: (Seq<char>, i64),
)
    ensures
        ({
            let after = before.load_needs_human(stored);
            let rows = after.needs_human;
            &&& after.workspaces == before.workspaces
            &&& after.sessions == before.sessions
            &&& after.occupancy == before.occupancy
            &&& after.turn_ledgers == before.turn_ledgers
            &&& after.pending_cleanups == before.pending_cleanups
            &&& readings::names_workspace(key.0) || (forall|i: int| !#[trigger] is_at(
                stored,
                key,
                i,
            )) ==> {
                &&& rows.contains_key(key) == before.needs_human.contains_key(key)
                &&& rows.contains_key(key) ==> rows[key] == before.needs_human[key]
            }
            &&& !readings::names_workspace(key.0) ==> forall|i: int| #[trigger]
                is_at(stored, key, i) && (forall|j: int|
                    i < j ==> !#[trigger] is_at(stored, key, j)) ==> rows.contains_key(key)
                    && rows[key] == stored[i].handle
        }),
    decreases stored.len(),
{
    if stored.len() > 0 {
        let head = stored.drop_last();
        let last = stored.last();
        let end = stored.len() - 1;
        lemma_load_needs_human(before, head, key);
        readings::lemma_prefix(last.session, "workspace:"@);
        assert forall|i: int| 0 <= i < end implies is_at(stored, key, i) == #[trigger] is_at(
            head,
            key,
            i,
        ) by {
            assert(stored[i] == head[i]);
        }
        assert(is_at(stored, key, end) == ((last.session, last.tab_id) == key));
        if is_at(stored, key, end) {
            assert forall|i: int| #[trigger]
                is_at(stored, key, i) && (forall|j: int|
                    i < j ==> !#[trigger] is_at(stored, key, j)) implies i == end by {
                if i < end {
                    assert(!is_at(stored, key, end));
                }
            }
        } else {
            if forall|i: int| !#[trigger] is_at(stored, key, i) {
                assert forall|i: int| !#[trigger] is_at(head, key, i) by {
                    if 0 <= i < end {
                        assert(!is_at(stored, key, i));
                    }
                }
            }
            assert forall|i: int| #[trigger]
                is_at(stored, key, i) && (forall|j: int|
                    i < j ==> !#[trigger] is_at(stored, key, j)) implies is_at(head, key, i) && (
            forall|j: int| i < j ==> !#[trigger] is_at(head, key, j)) && head[i] == stored[i] by {
                assert(i < end);
                assert(is_at(head, key, i));
                assert forall|j: int| i < j implies !#[trigger] is_at(head, key, j) by {
                    if j < end {
                        assert(!is_at(stored, key, j));
                    }
                }
            }
        }
    }
}

/// A new run takes back the last stored tab of each session and number, unless
/// the session names a workspace browser. Nothing else changes.
pub proof fn a_run_takes_back_lasting_prompts(
    bridge: &mut BrowserBridge,
    stored: Vec<TabRef>,
    done: (),
    key: (Seq<char>, i64),
)
    requires
        call_ensures(BrowserBridge::load_pending_needs_human, (bridge, stored), done),
    ensures
        ({
            let views = Seq::new(stored@.len(), |i: int| stored@[i]@);
            let before = old(bridge).needs_human@;
            let after = final(bridge).needs_human@;
            &&& final(bridge).workspaces@ == old(bridge).workspaces@
            &&& final(bridge).sessions@ == old(bridge).sessions@
            &&& final(bridge).occupancy@ == old(bridge).occupancy@
            &&& final(bridge).turn_ledgers@ == old(bridge).turn_ledgers@
            &&& final(bridge).pending_cleanups@ == old(bridge).pending_cleanups@
            &&& readings::names_workspace(key.0) || (forall|i: int| !#[trigger] is_at(
                views,
                key,
                i,
            )) ==> {
                &&& after.contains_key(key) == before.contains_key(key)
                &&& after.contains_key(key) ==> after[key] == before[key]
            }
            &&& !readings::names_workspace(key.0) ==> forall|i: int| #[trigger]
                is_at(views, key, i) && (forall|j: int| i < j ==> !#[trigger] is_at(views, key, j))
                    ==> after.contains_key(key) && after[key] == views[i].handle
        }),
{
    let views = Seq::new(stored@.len(), |i: int| stored@[i]@);
    assert(views =~= tabs::tab_views(stored@));
    lemma_load_needs_human(old(bridge)@, views, key);
    assert(final(bridge)@ == old(bridge)@.load_needs_human(views));
}

} // verus!
