//! What holds of workspace browsers as a whole.
use crate::bridge;
use crate::digest;
use crate::generation;
use crate::identity::MAX_WORKSPACES;
use crate::identity;
use crate::paths;
use crate::start;
use crate::status;
use crate::tabs::{CleanupPrompt, SessionSet, TabRows, TurnLedger};
use crate::tabs;
use crate::text;
use std::path::PathBuf;
use vstd::prelude::*;

verus! {

/// Two starts of one project under one root use the same directories,
/// whatever their ports and generations are.
pub proof fn directories_are_stable(
    a: identity::IdentityView,
    b: identity::IdentityView,
    root: PathBuf,
    project_id: Seq<char>,
    ports: (u16, u16),
    generations: (u128, u128),
)
    requires
        identity::is_identity_of(a, root, project_id, ports.0, generations.0),
        identity::is_identity_of(b, root, project_id, ports.1, generations.1),
    ensures
        a.profile == b.profile,
        a.extension == b.extension,
{
}

/// Projects whose ids have different digests share no directory, and no
/// profile is an extension directory, whatever the roots are.
pub proof fn projects_share_no_directory(
    a: identity::IdentityView,
    b: identity::IdentityView,
    roots: (PathBuf, PathBuf),
    project_ids: (Seq<char>, Seq<char>),
    ports: (u16, u16),
    generations: (u128, u128),
)
    requires
        identity::is_identity_of(a, roots.0, project_ids.0, ports.0, generations.0),
        identity::is_identity_of(b, roots.1, project_ids.1, ports.1, generations.1),
    ensures
        a.profile != b.extension,
        digest::sha256(vstd::utf8::encode_utf8(project_ids.0)) != digest::sha256(
            vstd::utf8::encode_utf8(project_ids.1),
        ) ==> a.profile != b.profile && a.extension != b.extension,
{
    let left = identity::workspace_key(project_ids.0);
    let right = identity::workspace_key(project_ids.1);
    reveal_strlit("profile");
    reveal_strlit("extension");
    if a.profile == b.extension {
        let text = paths::path_text(a.profile);
        lemma_last_char(text, left, "profile"@);
        lemma_last_char(text, right, "extension"@);
        assert("profile"@.last() == 'e');
        assert("extension"@.last() == 'n');
    }
    if a.profile == b.profile {
        lemma_same_directory(paths::path_text(a.profile), left, right, "profile"@);
    }
    if a.extension == b.extension {
        lemma_same_directory(paths::path_text(a.extension), left, right, "extension"@);
    }
    if left == right {
        text::lemma_hex_injective(
            digest::sha256(vstd::utf8::encode_utf8(project_ids.0)),
            digest::sha256(vstd::utf8::encode_utf8(project_ids.1)),
        );
    }
}

proof fn lemma_last_char(text: Seq<char>, directory: Seq<char>, leaf: Seq<char>)
    requires
        paths::ends_with_both(text, directory, leaf),
        leaf.len() > 0,
    ensures
        text.last() == leaf.last(),
{
    let separator = choose|separator: char| #[trigger]
        paths::is_separator(separator) && paths::ends_with(text, directory.push(separator) + leaf);
    let tail = directory.push(separator) + leaf;
    let end = text.subrange(text.len() - tail.len(), text.len() as int);
    assert(end.last() == text.last());
    assert(tail.last() == leaf.last());
}

/// A text does not end with two directories of one length.
proof fn lemma_same_directory(
    text: Seq<char>,
    a: Seq<char>,
    b: Seq<char>,
    leaf: Seq<char>,
)
    requires
        paths::ends_with_both(text, a, leaf),
        paths::ends_with_both(text, b, leaf),
        a.len() == b.len(),
    ensures
        a == b,
{
    let before_a = choose|separator: char| #[trigger]
        paths::is_separator(separator) && paths::ends_with(text, a.push(separator) + leaf);
    let before_b = choose|separator: char| #[trigger]
        paths::is_separator(separator) && paths::ends_with(text, b.push(separator) + leaf);
    let tail_a = a.push(before_a) + leaf;
    let tail_b = b.push(before_b) + leaf;
    assert(tail_a == tail_b);
    assert(tail_a.subrange(0, a.len() as int) == a);
    assert(tail_b.subrange(0, b.len() as int) == b);
}

/// Whether a component is a directory name of plain characters.
pub open spec fn is_plain_part(part: paths::PathPart) -> bool {
    part matches paths::PathPart::Normal(name) && paths::is_plain_name(name)
}

/// A project id is never treated as a path: whatever it holds, the profile
/// lies in `browser-workspaces` below a settled root, in a directory named by
/// hexadecimal digits, and steps to a parent directory only where the root does.
pub proof fn profiles_stay_below_the_root(
    view: identity::IdentityView,
    root: PathBuf,
    project_id: Seq<char>,
    port: u16,
    generation: u128,
)
    requires
        identity::is_identity_of(view, root, project_id, port, generation),
        paths::is_settled(root),
    ensures
        ({
            let above = paths::path_parts(root);
            let parts = paths::path_parts(view.profile);
            &&& parts.len() == above.len() + 3
            &&& parts.subrange(0, above.len() as int + 1) == above.push(
                paths::PathPart::Normal("browser-workspaces"@),
            )
            &&& forall|i: int|
                above.len() <= i < parts.len() ==> is_plain_part(#[trigger] parts[i])
            &&& forall|i: int|
                0 <= i < parts.len() && (#[trigger] parts[i]) is ParentDir ==> i < above.len()
                    && above[i] is ParentDir
        }),
{
    let above = paths::path_parts(root);
    let parts = paths::path_parts(view.profile);
    let key = identity::workspace_key(project_id);
    text::lemma_hex_is_digits(digest::sha256(vstd::utf8::encode_utf8(project_id)));
    reveal_strlit("browser-workspaces");
    reveal_strlit("profile");
    let below = seq![
        paths::PathPart::Normal("browser-workspaces"@),
        paths::PathPart::Normal(key),
        paths::PathPart::Normal("profile"@),
    ];
    assert(parts == above + below);
    assert(paths::is_plain_name("browser-workspaces"@));
    assert(paths::is_plain_name("profile"@));
    assert(paths::is_plain_name(key));
    assert(parts.subrange(0, above.len() as int + 1) =~= above.push(below[0]));
    assert forall|i: int| above.len() <= i < parts.len() implies is_plain_part(
        #[trigger] parts[i],
    ) by {
        assert(parts[i] == below[i - above.len()]);
    }
    assert forall|i: int| 0 <= i < parts.len() && (#[trigger] parts[i]) is ParentDir implies i
        < above.len() && above[i] is ParentDir by {
        if i >= above.len() {
            assert(parts[i] == below[i - above.len()]);
        }
    }
}

/// Starts of different generations have different lanes, sockets and
/// addresses, whatever their projects and ports are.
pub proof fn connections_change_every_start(
    project_ids: (Seq<char>, Seq<char>),
    ports: (u16, u16),
    generations: (u128, u128),
)
    requires
        generations.0 != generations.1,
    ensures
        identity::connection_path(generations.0) != identity::connection_path(generations.1),
        identity::lane(identity::workspace_key(project_ids.0), generations.0) != identity::lane(
            identity::workspace_key(project_ids.1),
            generations.1,
        ),
        identity::endpoint(ports.0, generations.0) != identity::endpoint(ports.1, generations.1),
{
    let left = generation::uuid_text(generations.0);
    let right = generation::uuid_text(generations.1);
    generation::lemma_uuid_text_len(generations.0);
    generation::lemma_uuid_text_len(generations.1);
    if left == right {
        generation::lemma_uuid_text_injective(generations.0, generations.1);
    }
    lemma_same_suffix("/"@, "/"@, left, right);
    lemma_same_suffix(
        "workspace:"@ + identity::workspace_key(project_ids.0) + ":"@,
        "workspace:"@ + identity::workspace_key(project_ids.1) + ":"@,
        left,
        right,
    );
    let first = "ws://127.0.0.1:"@ + text::decimal(ports.0 as nat);
    let second = "ws://127.0.0.1:"@ + text::decimal(ports.1 as nat);
    assert(identity::endpoint(ports.0, generations.0) == first + "/"@ + left);
    assert(identity::endpoint(ports.1, generations.1) == second + "/"@ + right);
    lemma_same_suffix(first + "/"@, second + "/"@, left, right);
}

/// Projects whose ids have different digests have different lanes, even if
/// their starts had the same generation.
pub proof fn projects_share_no_lane(
    a: identity::IdentityView,
    b: identity::IdentityView,
    roots: (PathBuf, PathBuf),
    project_ids: (Seq<char>, Seq<char>),
    ports: (u16, u16),
    generations: (u128, u128),
)
    requires
        identity::is_identity_of(a, roots.0, project_ids.0, ports.0, generations.0),
        identity::is_identity_of(b, roots.1, project_ids.1, ports.1, generations.1),
        digest::sha256(vstd::utf8::encode_utf8(project_ids.0)) != digest::sha256(
            vstd::utf8::encode_utf8(project_ids.1),
        ),
    ensures
        a.lane != b.lane,
{
    let left = identity::workspace_key(project_ids.0);
    let right = identity::workspace_key(project_ids.1);
    let start = "workspace:"@.len() as int;
    assert(a.lane.subrange(start, start + 64) == left);
    assert(b.lane.subrange(start, start + 64) == right);
    if left == right {
        text::lemma_hex_injective(
            digest::sha256(vstd::utf8::encode_utf8(project_ids.0)),
            digest::sha256(vstd::utf8::encode_utf8(project_ids.1)),
        );
    }
}

/// Texts that end in different suffixes of one length differ.
proof fn lemma_same_suffix(
    head_a: Seq<char>,
    head_b: Seq<char>,
    tail_a: Seq<char>,
    tail_b: Seq<char>,
)
    requires
        tail_a.len() == tail_b.len(),
        tail_a != tail_b,
    ensures
        head_a + tail_a != head_b + tail_b,
{
    if head_a + tail_a == head_b + tail_b {
        let whole = head_a + tail_a;
        assert(whole.len() == head_a.len() + tail_a.len());
        assert((head_b + tail_b).len() == head_b.len() + tail_b.len());
        assert(whole.subrange(head_a.len() as int, whole.len() as int) == tail_a);
        assert((head_b + tail_b).subrange(head_b.len() as int, whole.len() as int) == tail_b);
    }
}

/// No socket gets in without the path of the start: the root path is never it.
pub proof fn root_path_opens_no_connection(generation: u128)
    ensures
        identity::connection_path(generation) != "/"@,
{
    generation::lemma_uuid_text_len(generation);
    reveal_strlit("/");
    assert(identity::connection_path(generation).len() == 37);
}

/// Every lane is recognised as that of a workspace browser, and none is the
/// word that tools use for their own.
pub proof fn lanes_are_workspace_sessions(key: Seq<char>, generation: u128)
    ensures
        tabs::is_workspace_lane(identity::lane(key, generation)),
        tabs::is_workspace_session(identity::lane(key, generation)),
        tabs::is_workspace_session("workspace"@),
        identity::lane(key, generation) != "workspace"@,
{
    let lane = identity::lane(key, generation);
    reveal_strlit("workspace:");
    reveal_strlit("workspace");
    assert(lane.subrange(0, "workspace:"@.len() as int) == "workspace:"@);
}

/// A lane name is never what a tool is routed by: asked for one, the bridge
/// refuses.
pub proof fn lane_names_are_refused(
    bridge: bridge::BridgeView,
    name: Seq<char>,
    project_id: Option<Seq<char>>,
)
    requires
        tabs::is_workspace_lane(name),
    ensures
        bridge.tool_lane(Ok(Some(name)), project_id) == Err::<Option<Seq<char>>, Seq<char>>(
            bridge::lane_name_message(),
        ),
{
    reveal_strlit("workspace:");
    reveal_strlit("workspace");
}

/// A tool reaches the lane of a workspace browser only by the word
/// `workspace`, and only that of its own project.
pub proof fn tools_reach_only_their_own_lane(
    bridge: bridge::BridgeView,
    session: Result<Option<Seq<char>>, Seq<char>>,
    project_id: Option<Seq<char>>,
    owner: Seq<char>,
)
    requires
        is_sound(bridge),
        bridge.workspaces.contains_key(owner),
        bridge.tool_lane(session, project_id) == Ok::<Option<Seq<char>>, Seq<char>>(
            Some(bridge.workspaces[owner].lane),
        ),
    ensures
        session == Ok::<Option<Seq<char>>, Seq<char>>(Some("workspace"@)),
        project_id == Some(owner),
{
}

/// A removal begins with the registration alone: until the lane is shut down
/// and forgotten, everything that belongs to it and to all others is there.
pub proof fn nothing_is_forgotten_before_the_shutdown(
    bridge: bridge::BridgeView,
    project_id: Seq<char>,
)
    ensures
        ({
            let left = bridge.unregister(project_id);
            &&& left.lane_of(project_id) is None
            &&& forall|other: Seq<char>|
                other != project_id ==> #[trigger] left.lane_of(other) == bridge.lane_of(other)
            &&& left.sessions == bridge.sessions
            &&& left.occupancy == bridge.occupancy
            &&& left.turn_ledgers == bridge.turn_ledgers
            &&& left.pending_cleanups == bridge.pending_cleanups
            &&& left.needs_human == bridge.needs_human
        }),
{
}

/// When a lane is forgotten, nothing that belongs to it is left: no session,
/// no turn that holds it, and no tab.
pub proof fn removal_forgets_the_lane(bridge: bridge::BridgeView, lane: Seq<char>)
    ensures
        ({
            let left = bridge.forget_lane(lane);
            &&& !left.sessions.contains_key(lane)
            &&& !left.occupancy.contains_key(lane)
            &&& forall|turn: Seq<char>, tab: tabs::TabView|
                left.turn_ledgers.contains_key(turn)
                    && #[trigger] left.turn_ledgers[turn].tabs.contains(tab) ==> tab.session != lane
            &&& forall|turn: Seq<char>, tab: tabs::TabView|
                left.pending_cleanups.contains_key(turn)
                    && #[trigger] left.pending_cleanups[turn].tabs.contains(tab) ==> tab.session
                    != lane
            &&& forall|key: (Seq<char>, i64)| #[trigger]
                left.needs_human.contains_key(key) ==> key.0 != lane
        }),
{
    let left = bridge.forget_lane(lane);
    assert forall|turn: Seq<char>, tab: tabs::TabView|
        left.turn_ledgers.contains_key(turn)
            && #[trigger] left.turn_ledgers[turn].tabs.contains(tab) implies tab.session != lane by {
        tabs::lemma_tabs_outside(bridge.turn_ledgers[turn].tabs, set![lane]);
    }
    assert forall|turn: Seq<char>, tab: tabs::TabView|
        left.pending_cleanups.contains_key(turn)
            && #[trigger] left.pending_cleanups[turn].tabs.contains(tab) implies tab.session
        != lane by {
        tabs::lemma_tabs_outside(bridge.pending_cleanups[turn].tabs, set![lane]);
    }
}

/// Whether no tab of a list is open in the session `lane`.
pub open spec fn none_of(all: Seq<tabs::TabView>, lane: Seq<char>) -> bool {
    forall|i: int| 0 <= i < all.len() ==> (#[trigger] all[i]).session != lane
}

proof fn lemma_none_of(all: Seq<tabs::TabView>, lane: Seq<char>)
    requires
        none_of(all, lane),
    ensures
        tabs::tabs_outside(all, set![lane]) == all,
    decreases all.len(),
{
    reveal(Seq::filter);
    if all.len() > 0 {
        assert(all[all.len() - 1].session != lane);
        assert(none_of(all.drop_last(), lane));
        lemma_none_of(all.drop_last(), lane);
        assert(all == all.drop_last().push(all.last()));
    }
}

/// When a lane is forgotten, every project and every other lane keeps what it
/// had. Rows without a tab of the lane do not change; only
/// one without any tab goes.
pub proof fn removal_spares_the_others(bridge: bridge::BridgeView, lane: Seq<char>)
    ensures
        ({
            let left = bridge.forget_lane(lane);
            &&& left.workspaces == bridge.workspaces
            &&& left.sessions == bridge.sessions.remove(lane)
            &&& left.occupancy == bridge.occupancy.remove(lane)
            &&& forall|turn: Seq<char>, tab: tabs::TabView|
                #![trigger bridge.turn_ledgers[turn].tabs.contains(tab)]
                bridge.turn_ledgers.contains_key(turn) && bridge.turn_ledgers[turn].tabs.contains(tab)
                    && tab.session != lane ==> left.turn_ledgers.contains_key(turn)
                    && left.turn_ledgers[turn].tabs.contains(tab)
                    && left.turn_ledgers[turn].handle == bridge.turn_ledgers[turn].handle
            &&& forall|turn: Seq<char>, tab: tabs::TabView|
                #![trigger bridge.pending_cleanups[turn].tabs.contains(tab)]
                bridge.pending_cleanups.contains_key(turn)
                    && bridge.pending_cleanups[turn].tabs.contains(tab) && tab.session != lane
                    ==> left.pending_cleanups.contains_key(turn)
                    && left.pending_cleanups[turn].tabs.contains(tab)
                    && left.pending_cleanups[turn].frame_id
                    == bridge.pending_cleanups[turn].frame_id
                    && left.pending_cleanups[turn].handle
                    == bridge.pending_cleanups[turn].handle
            &&& forall|key: (Seq<char>, i64)| #[trigger]
                bridge.needs_human.contains_key(key) && key.0 != lane
                    ==> left.needs_human.contains_key(key) && left.needs_human[key]
                    == bridge.needs_human[key]
            &&& forall|turn: Seq<char>| #[trigger]
                bridge.turn_ledgers.contains_key(turn) && bridge.turn_ledgers[turn].tabs.len() > 0
                    && none_of(bridge.turn_ledgers[turn].tabs, lane) ==> left.turn_ledgers.contains_key(
                    turn,
                ) && left.turn_ledgers[turn] == bridge.turn_ledgers[turn]
            &&& forall|turn: Seq<char>| #[trigger]
                bridge.pending_cleanups.contains_key(turn)
                    && bridge.pending_cleanups[turn].tabs.len() > 0 && none_of(
                    bridge.pending_cleanups[turn].tabs,
                    lane,
                ) ==> left.pending_cleanups.contains_key(turn) && left.pending_cleanups[turn]
                    == bridge.pending_cleanups[turn]
            &&& forall|turn: Seq<char>| #[trigger]
                left.turn_ledgers.contains_key(turn) ==> bridge.turn_ledgers.contains_key(turn)
            &&& forall|turn: Seq<char>| #[trigger]
                left.pending_cleanups.contains_key(turn) ==> bridge.pending_cleanups.contains_key(
                    turn,
                )
            &&& forall|key: (Seq<char>, i64)| #[trigger]
                left.needs_human.contains_key(key) ==> bridge.needs_human.contains_key(key)
        }),
{
    let left = bridge.forget_lane(lane);
    assert forall|turn: Seq<char>, tab: tabs::TabView|
        #![trigger bridge.turn_ledgers[turn].tabs.contains(tab)]
        bridge.turn_ledgers.contains_key(turn) && bridge.turn_ledgers[turn].tabs.contains(tab)
            && tab.session != lane implies left.turn_ledgers.contains_key(turn)
        && left.turn_ledgers[turn].tabs.contains(tab) && left.turn_ledgers[turn].handle
        == bridge.turn_ledgers[turn].handle by {
        tabs::lemma_tabs_outside(bridge.turn_ledgers[turn].tabs, set![lane]);
        assert(tabs::tabs_outside(bridge.turn_ledgers[turn].tabs, set![lane]).contains(tab));
    }
    assert forall|turn: Seq<char>, tab: tabs::TabView|
        #![trigger bridge.pending_cleanups[turn].tabs.contains(tab)]
        bridge.pending_cleanups.contains_key(turn) && bridge.pending_cleanups[turn].tabs.contains(
            tab,
        ) && tab.session != lane implies left.pending_cleanups.contains_key(turn)
        && left.pending_cleanups[turn].tabs.contains(tab) && left.pending_cleanups[turn].frame_id
        == bridge.pending_cleanups[turn].frame_id && left.pending_cleanups[turn].handle
        == bridge.pending_cleanups[turn].handle by {
        tabs::lemma_tabs_outside(bridge.pending_cleanups[turn].tabs, set![lane]);
        assert(tabs::tabs_outside(bridge.pending_cleanups[turn].tabs, set![lane]).contains(tab));
    }
    assert forall|turn: Seq<char>| #[trigger]
        bridge.turn_ledgers.contains_key(turn) && bridge.turn_ledgers[turn].tabs.len() > 0 && none_of(
            bridge.turn_ledgers[turn].tabs,
            lane,
        ) implies left.turn_ledgers.contains_key(turn) && left.turn_ledgers[turn]
        == bridge.turn_ledgers[turn] by {
        lemma_none_of(bridge.turn_ledgers[turn].tabs, lane);
    }
    assert forall|turn: Seq<char>| #[trigger]
        bridge.pending_cleanups.contains_key(turn) && bridge.pending_cleanups[turn].tabs.len() > 0
            && none_of(
            bridge.pending_cleanups[turn].tabs,
            lane,
        ) implies left.pending_cleanups.contains_key(turn) && left.pending_cleanups[turn]
        == bridge.pending_cleanups[turn] by {
        lemma_none_of(bridge.pending_cleanups[turn].tabs, lane);
    }
}

/// Stopping a workspace browser again changes nothing and shuts nothing down,
/// so its process is stopped once.
pub proof fn stopping_twice_is_stopping_once(bridge: bridge::BridgeView, project_id: Seq<char>)
    ensures
        bridge.unregister(project_id).lane_of(project_id) is None,
        bridge.unregister(project_id).unregister(project_id) == bridge.unregister(project_id),
        bridge.remove_workspace(project_id).remove_workspace(project_id)
            == bridge.remove_workspace(project_id),
{
    assert(bridge.unregister(project_id).unregister(project_id).workspaces
        =~= bridge.unregister(project_id).workspaces);
}

/// From the beginning of a stop on, a socket that finishes its handshake
/// cannot bring the lane back, and once the lane is forgotten a late reply on
/// it reaches no one.
pub proof fn a_stopped_lane_stays_stopped(
    bridge: bridge::BridgeView,
    project_id: Seq<char>,
    client_id: u64,
    request_id: Seq<char>,
)
    requires
        bridge.workspaces.contains_key(project_id),
        tabs::is_workspace_lane(bridge.workspaces[project_id].lane),
        forall|other: Seq<char>|
            other != project_id && #[trigger] bridge.workspaces.contains_key(other)
                ==> bridge.workspaces[other].lane != bridge.workspaces[project_id].lane,
    ensures
        ({
            let lane = bridge.workspaces[project_id].lane;
            &&& !bridge.unregister(project_id).admits(lane)
            &&& !bridge.remove_workspace(project_id).admits(lane)
            &&& !bridge.remove_workspace(project_id).expects_reply(client_id, lane, request_id)
        }),
{
    let lane = bridge.workspaces[project_id].lane;
    let left = bridge.unregister(project_id);
    if left.is_registered(lane) {
        let other = choose|other: Seq<char>| #[trigger]
            left.workspaces.contains_key(other) && left.workspaces[other].lane == lane;
        assert(bridge.workspaces.contains_key(other));
    }
    assert(bridge.remove_workspace(project_id).workspaces == left.workspaces);
    if bridge.remove_workspace(project_id).is_registered(lane) {
        let other = choose|other: Seq<char>| #[trigger]
            bridge.remove_workspace(project_id).workspaces.contains_key(other)
                && bridge.remove_workspace(project_id).workspaces[other].lane == lane;
        assert(left.workspaces.contains_key(other));
    }
}

/// Requests and replies do not cross connections: a reply on one lane leaves
/// what waits on another lane, and takes nothing that waits only there.
pub proof fn replies_do_not_cross_lanes(
    bridge: bridge::BridgeView,
    client_id: u64,
    lane: Seq<char>,
    other: Seq<char>,
    request_id: Seq<char>,
)
    requires
        lane != other,
    ensures
        bridge.expects_reply(client_id, lane, request_id) ==> {
            let settled = bridge.settle(lane, request_id);
            &&& settled.pending_on(other) == bridge.pending_on(other)
            &&& settled.is_connected(other) == bridge.is_connected(other)
            &&& settled.is_connected(lane)
            &&& settled.pending_on(lane) == bridge.pending_on(lane).remove(request_id)
        },
        !bridge.pending_on(lane).contains_key(request_id) ==> !bridge.expects_reply(
            client_id,
            lane,
            request_id,
        ),
{
}

/// A reply takes back what its request has put there, and nothing else.
pub proof fn a_reply_undoes_its_request(
    bridge: bridge::BridgeView,
    client_id: u64,
    lane: Seq<char>,
    request_id: Seq<char>,
    handle: u64,
)
    requires
        bridge.sessions.contains_key(lane),
        bridge.sessions[lane].client == Some(client_id),
        !bridge.pending_on(lane).contains_key(request_id),
    ensures
        bridge.expect(lane, request_id, handle).expects_reply(client_id, lane, request_id),
        bridge.expect(lane, request_id, handle).pending_on(lane)[request_id] == handle,
        bridge.expect(lane, request_id, handle).settle(lane, request_id) == bridge,
{
    let back = bridge.expect(lane, request_id, handle).settle(lane, request_id);
    assert(back.sessions[lane].pending =~= bridge.sessions[lane].pending);
    assert(back.sessions =~= bridge.sessions);
}

/// A client that takes one lane connects that lane and no other.
pub proof fn connections_are_of_their_own_lane(
    bridge: bridge::BridgeView,
    client_id: u64,
    lane: Seq<char>,
    other: Seq<char>,
)
    requires
        lane != other,
    ensures
        bridge.install_client(client_id, lane).is_connected(lane),
        bridge.install_client(client_id, lane).is_connected(other) == bridge.is_connected(other),
        bridge.install_client(client_id, lane).pending_on(other) == bridge.pending_on(other),
        bridge.install_client(client_id, lane).pending_on(lane) == bridge.pending_on(lane),
{
}

/// A registered workspace browser is the one that its project is routed to,
/// and other projects are routed as before.
pub proof fn registration_routes_its_own_project(
    bridge: bridge::BridgeView,
    identity: identity::IdentityView,
    other: Seq<char>,
)
    requires
        other != identity.project_id,
    ensures
        bridge.register(identity).workspaces.contains_key(identity.project_id),
        bridge.register(identity).workspaces[identity.project_id] == identity,
        bridge.register(identity).is_registered(identity.lane),
        bridge.register(identity).admits(identity.lane),
        bridge.register(identity).workspaces.contains_key(other)
            == bridge.workspaces.contains_key(other),
        bridge.workspaces.contains_key(other) ==> bridge.register(identity).workspaces[other]
            == bridge.workspaces[other],
{
    assert(bridge.register(identity).workspaces.contains_key(identity.project_id));
}

/// What a start registers is the workspace browser of its own project, on a
/// lane that its own sockets may serve.
pub proof fn a_start_registers_its_own_project(
    bridge: bridge::BridgeView,
    identity: identity::IdentityView,
    root: PathBuf,
    project_id: Seq<char>,
    port: u16,
)
    requires
        identity::is_new_identity(identity, root, project_id, port),
    ensures
        bridge.register(identity).workspaces.contains_key(project_id),
        bridge.register(identity).workspaces[project_id] == identity,
        bridge.register(identity).admits(identity.lane),
        tabs::is_workspace_lane(identity.lane),
        bridge.register(identity).status(Some(project_id), true) == status::instance_status(
            identity,
            bridge.is_connected(identity.lane),
            true,
        ),
        status::instance_status(identity, true, true).project_id == Some(project_id),
{
    let generation = choose|generation: u128|
        generation::is_random_uuid(generation) && #[trigger] identity::is_identity_of(
            identity,
            root,
            project_id,
            port,
            generation,
        );
    lanes_are_workspace_sessions(identity::workspace_key(project_id), generation);
    assert(bridge.register(identity).workspaces.contains_key(project_id));
}

/// Starting a workspace browser that runs gives its status, with the lane it
/// has already.
pub proof fn starting_again_keeps_the_lane(
    bridge: bridge::BridgeView,
    identity: identity::IdentityView,
    outcome: start::StartOutcome,
)
    requires
        start::is_start_outcome(outcome, bridge.register(identity), identity.project_id, true),
    ensures
        outcome matches start::StartOutcome::Running(status) && status@
            == status::instance_status(identity, bridge.is_connected(identity.lane), true),
{
}

/// Stopping a workspace browser makes room for one more, and never less room.
pub proof fn stopping_reclaims_capacity(bridge: bridge::BridgeView, project_id: Seq<char>)
    requires
        bridge.workspaces.dom().finite(),
    ensures
        bridge.unregister(project_id).workspaces.dom().finite(),
        bridge.unregister(project_id).workspaces.len() == bridge.workspaces.len()
            - if bridge.workspaces.contains_key(project_id) {
            1int
        } else {
            0int
        },
{
    assert(bridge.workspaces.remove(project_id).dom() =~= bridge.workspaces.dom().remove(
        project_id,
    ));
}

/// Where the lifecycle of workspace browsers stands. Starts and stops take
/// turns: none begins before the one at work is over.
pub enum Lifecycle {
    /// No start or stop is at work.
    Idle,
    /// A start of this project goes on.
    Starting(Seq<char>),
    /// A start of this project has launched and waits.
    Launched(Seq<char>),
}

/// The bridge at one moment, and where its lifecycle stands.
pub struct Moment {
    pub bridge: bridge::BridgeView,
    pub lifecycle: Lifecycle,
}

/// What can happen to a bridge.
pub enum Happening {
    /// A start begins.
    Start { project_id: Seq<char>, running: bool, outcome: start::StartOutcome },
    /// The start at work launches its browser.
    Launch { identity: identity::IdentityView },
    /// The launch at work is over; it connected or not.
    Finish { connected: bool },
    /// The start at work fails before its launch, or is given up anywhere.
    GiveUp,
    /// A workspace browser is stopped.
    Stop { project_id: Seq<char> },
    /// A lane is forgotten, a client comes, a request or a reply does, stored
    /// rows do, or a start is refused that names no project.
    Other,
}

/// Whether `after` is what `happening` makes of `before`.
pub open spec fn leads_to(before: Moment, happening: Happening, after: Moment) -> bool {
    match happening {
        Happening::Start { project_id, running, outcome } => {
            &&& before.lifecycle is Idle
            &&& start::is_start_outcome(outcome, before.bridge, project_id, running)
            &&& after.bridge == if outcome is Running {
                before.bridge
            } else {
                before.bridge.unregister(project_id)
            }
            &&& after.lifecycle == if outcome is Proceed {
                Lifecycle::Starting(project_id)
            } else {
                Lifecycle::Idle
            }
        },
        Happening::Launch { identity } => {
            &&& before.lifecycle == Lifecycle::Starting(identity.project_id)
            &&& after.bridge == before.bridge.register(identity)
            &&& after.lifecycle == Lifecycle::Launched(identity.project_id)
        },
        Happening::Finish { connected } => {
            &&& before.lifecycle matches Lifecycle::Launched(project_id)
            &&& after.bridge == if connected {
                before.bridge
            } else {
                before.bridge.unregister(project_id)
            }
            &&& after.lifecycle is Idle
        },
        Happening::GiveUp => after == (Moment { lifecycle: Lifecycle::Idle, ..before }),
        Happening::Stop { project_id } => {
            &&& before.lifecycle is Idle
            &&& after == (Moment { bridge: before.bridge.unregister(project_id), ..before })
        },
        Happening::Other => {
            &&& after.bridge.workspaces == before.bridge.workspaces
            &&& after.lifecycle == before.lifecycle
        },
    }
}

/// Whether `moments` are what `happenings` make of the first of them, one
/// after the other. The first is a moment at which no start is at work and the
/// limit holds.
pub open spec fn is_run(moments: Seq<Moment>, happenings: Seq<Happening>) -> bool {
    &&& moments.len() == happenings.len() + 1
    &&& moments[0].lifecycle is Idle
    &&& moments[0].bridge.workspaces.dom().finite()
    &&& moments[0].bridge.workspaces.len() <= MAX_WORKSPACES
    &&& forall|i: int|
        0 <= i < happenings.len() ==> leads_to(
            moments[i],
            #[trigger] happenings[i],
            moments[i + 1],
        )
}

/// The limit holds, and a start at work has room for one more and finds its
/// project without a workspace browser.
pub open spec fn is_ready(moment: Moment) -> bool {
    let workspaces = moment.bridge.workspaces;
    &&& workspaces.dom().finite()
    &&& workspaces.len() <= MAX_WORKSPACES
    &&& moment.lifecycle matches Lifecycle::Starting(project_id) ==> workspaces.len()
        < MAX_WORKSPACES && !workspaces.contains_key(project_id)
}

proof fn lemma_is_ready_at(moments: Seq<Moment>, happenings: Seq<Happening>, at: int)
    requires
        is_run(moments, happenings),
        0 <= at < moments.len(),
    ensures
        is_ready(moments[at]),
    decreases at,
{
    if at > 0 {
        lemma_is_ready_at(moments, happenings, at - 1);
        let before = moments[at - 1];
        let bridge = before.bridge;
        assert(leads_to(before, happenings[at - 1], moments[at - 1 + 1]));
        match happenings[at - 1] {
            Happening::Start { project_id, .. } => stopping_reclaims_capacity(bridge, project_id),
            Happening::Launch { identity } => {
                assert(bridge.register(identity).workspaces.dom()
                    =~= bridge.workspaces.dom().insert(identity.project_id));
            },
            Happening::Finish { .. } => {
                if let Lifecycle::Launched(project_id) = before.lifecycle {
                    stopping_reclaims_capacity(bridge, project_id);
                }
            },
            Happening::Stop { project_id } => stopping_reclaims_capacity(bridge, project_id),
            _ => {},
        }
    }
}

/// However many starts and stops there are, whether they succeed or fail, and
/// whatever else happens in between: there are never more workspace browsers
/// than the limit.
pub proof fn the_limit_holds_in_every_run(moments: Seq<Moment>, happenings: Seq<Happening>)
    requires
        is_run(moments, happenings),
    ensures
        forall|i: int|
            0 <= i < moments.len() ==> (#[trigger] moments[i]).bridge.workspaces.dom().finite()
                && moments[i].bridge.workspaces.len() <= MAX_WORKSPACES,
{
    assert forall|i: int| 0 <= i < moments.len() implies is_ready(#[trigger] moments[i]) by {
        lemma_is_ready_at(moments, happenings, i);
    }
}

/// No browser is launched into the profile of another one of its project: in
/// every run a launch finds its project without a workspace browser.
pub proof fn a_launch_never_finds_its_project_registered(
    moments: Seq<Moment>,
    happenings: Seq<Happening>,
)
    requires
        is_run(moments, happenings),
    ensures
        forall|i: int|
            0 <= i < happenings.len() ==> ((#[trigger] happenings[i]) matches Happening::Launch {
                identity,
            } ==> !moments[i].bridge.workspaces.contains_key(identity.project_id)),
{
    assert forall|i: int| 0 <= i < happenings.len() implies ((
    #[trigger] happenings[i]) matches Happening::Launch { identity }
        ==> !moments[i].bridge.workspaces.contains_key(identity.project_id)) by {
        lemma_is_ready_at(moments, happenings, i);
    }
}

/// Whether `happening` takes the workspace browser of `project_id` away: a
/// stop, a launch that did not connect, or a start that finds its process gone.
pub open spec fn takes_away(before: Moment, happening: Happening, project_id: Seq<char>) -> bool {
    match happening {
        Happening::Start { project_id: id, running, .. } => id == project_id && !running,
        Happening::Finish { connected } => !connected && before.lifecycle
            == Lifecycle::Launched(project_id),
        Happening::Stop { project_id: id } => id == project_id,
        _ => false,
    }
}

/// A project whose browser was launched and keeps running is launched once:
/// the browser stays registered as it is, no other launch of the project
/// follows, and every further start of it is answered with that browser.
pub proof fn a_running_browser_is_launched_once(
    moments: Seq<Moment>,
    happenings: Seq<Happening>,
    identity: identity::IdentityView,
    launched: int,
    later: int,
)
    requires
        is_run(moments, happenings),
        0 <= launched < later < moments.len(),
        happenings[launched] == (Happening::Launch { identity }),
        forall|i: int|
            launched < i < later ==> !takes_away(
                moments[i],
                #[trigger] happenings[i],
                identity.project_id,
            ),
    ensures
        moments[later].bridge.workspaces.contains_key(identity.project_id),
        moments[later].bridge.workspaces[identity.project_id] == identity,
        later < happenings.len() ==> match happenings[later] {
            Happening::Launch { identity: other } => other.project_id != identity.project_id,
            Happening::Start { project_id, running, outcome } => project_id == identity.project_id
                && running ==> (outcome matches start::StartOutcome::Running(status) && status@
                == status::instance_status(
                identity,
                moments[later].bridge.is_connected(identity.lane),
                true,
            )),
            _ => true,
        },
    decreases later,
{
    let before = moments[later - 1];
    assert(leads_to(before, happenings[later - 1], moments[later - 1 + 1]));
    if launched < later - 1 {
        a_running_browser_is_launched_once(moments, happenings, identity, launched, later - 1);
        assert(!takes_away(before, happenings[later - 1], identity.project_id));
    }
    if later < happenings.len() {
        assert(leads_to(moments[later], happenings[later], moments[later + 1]));
        lemma_is_ready_at(moments, happenings, later);
    }
}

/// What happens besides starts and stops leaves the registered workspace
/// browsers alone.
pub proof fn other_happenings_keep_the_workspaces(
    bridge: bridge::BridgeView,
    client_id: u64,
    lane: Seq<char>,
    request_id: Seq<char>,
    handle: u64,
    cleanups: Seq<tabs::CleanupView>,
    needs_human: Seq<tabs::TabView>,
)
    ensures
        bridge.forget_lane(lane).workspaces == bridge.workspaces,
        bridge.install_client(client_id, lane).workspaces == bridge.workspaces,
        bridge.expect(lane, request_id, handle).workspaces == bridge.workspaces,
        bridge.settle(lane, request_id).workspaces == bridge.workspaces,
        bridge.load_cleanups(cleanups).workspaces == bridge.workspaces,
        bridge.load_needs_human(needs_human).workspaces == bridge.workspaces,
{
    lemma_load_cleanups_workspaces(bridge, cleanups);
    lemma_load_needs_human_workspaces(bridge, needs_human);
}

proof fn lemma_load_cleanups_workspaces(
    bridge: bridge::BridgeView,
    cleanups: Seq<tabs::CleanupView>,
)
    ensures
        bridge.load_cleanups(cleanups).workspaces == bridge.workspaces,
    decreases cleanups.len(),
{
    if cleanups.len() > 0 {
        lemma_load_cleanups_workspaces(bridge, cleanups.drop_last());
    }
}

proof fn lemma_load_needs_human_workspaces(
    bridge: bridge::BridgeView,
    needs_human: Seq<tabs::TabView>,
)
    ensures
        bridge.load_needs_human(needs_human).workspaces == bridge.workspaces,
    decreases needs_human.len(),
{
    if needs_human.len() > 0 {
        lemma_load_needs_human_workspaces(bridge, needs_human.drop_last());
    }
}

/// What holds of the registered workspace browsers at all times: they are no
/// more than the limit, each stands under its own project, and each has a
/// workspace lane that no other one has.
pub open spec fn is_sound(bridge: bridge::BridgeView) -> bool {
    &&& bridge.workspaces.dom().finite()
    &&& bridge.workspaces.len() <= MAX_WORKSPACES
    &&& forall|id: Seq<char>| #[trigger]
        bridge.workspaces.contains_key(id) ==> bridge.workspaces[id].project_id == id
            && tabs::is_workspace_lane(bridge.workspaces[id].lane)
    &&& forall|a: Seq<char>, b: Seq<char>|
        a != b && #[trigger] bridge.workspaces.contains_key(a)
            && #[trigger] bridge.workspaces.contains_key(b) ==> bridge.workspaces[a].lane
            != bridge.workspaces[b].lane
}

/// A new bridge is sound, and nothing that happens makes a sound one unsound. A
/// launch has to come from a start that found room, and its lane has to be new.
pub proof fn soundness_is_kept(
    bridge: bridge::BridgeView,
    after: bridge::BridgeView,
    project_id: Seq<char>,
    identity: identity::IdentityView,
)
    requires
        is_sound(bridge),
    ensures
        is_sound(bridge::BridgeView::empty()),
        after.workspaces == bridge.workspaces ==> is_sound(after),
        is_sound(bridge.unregister(project_id)),
        bridge.workspaces.len() < MAX_WORKSPACES && !bridge.workspaces.contains_key(
            identity.project_id,
        ) && tabs::is_workspace_lane(identity.lane) && !bridge.is_registered(identity.lane)
            ==> is_sound(bridge.register(identity)),
{
    stopping_reclaims_capacity(bridge, project_id);
    let left = bridge.unregister(project_id);
    assert forall|id: Seq<char>| #[trigger]
        left.workspaces.contains_key(id) implies bridge.workspaces.contains_key(id)
        && left.workspaces[id] == bridge.workspaces[id] by {}
    let registered = bridge.register(identity);
    assert(registered.workspaces.dom() =~= bridge.workspaces.dom().insert(identity.project_id));
    assert forall|id: Seq<char>| #[trigger]
        registered.workspaces.contains_key(id) && id
            != identity.project_id implies bridge.workspaces.contains_key(id)
        && registered.workspaces[id] == bridge.workspaces[id] by {}
}

/// Whether the bridge knows nothing of `lane`, and no row of it is empty.
pub open spec fn is_free_of(bridge: bridge::BridgeView, lane: Seq<char>) -> bool {
    &&& !bridge.sessions.contains_key(lane)
    &&& !bridge.occupancy.contains_key(lane)
    &&& forall|turn: Seq<char>| #[trigger]
        bridge.turn_ledgers.contains_key(turn) ==> bridge.turn_ledgers[turn].tabs.len() > 0 && none_of(
            bridge.turn_ledgers[turn].tabs,
            lane,
        )
    &&& forall|turn: Seq<char>| #[trigger]
        bridge.pending_cleanups.contains_key(turn) ==> bridge.pending_cleanups[turn].tabs.len() > 0
            && none_of(bridge.pending_cleanups[turn].tabs, lane)
    &&& forall|key: (Seq<char>, i64)| #[trigger]
        bridge.needs_human.contains_key(key) ==> key.0 != lane
}

/// A launch that is given up leaves no instance: the project has none, the
/// others are as they were, and where nothing was known of the lane before,
/// the whole bridge is as it was, whether or not a client had connected.
pub proof fn a_failed_start_leaves_no_trace(
    bridge: bridge::BridgeView,
    identity: identity::IdentityView,
    client_id: u64,
)
    requires
        !bridge.workspaces.contains_key(identity.project_id),
    ensures
        bridge.register(identity).remove_workspace(identity.project_id).workspaces
            == bridge.workspaces,
        is_free_of(bridge, identity.lane) ==> bridge.register(identity).remove_workspace(
            identity.project_id,
        ) == bridge,
        is_free_of(bridge, identity.lane) ==> bridge.register(identity).install_client(
            client_id,
            identity.lane,
        ).remove_workspace(identity.project_id) == bridge,
{
    let lane = identity.lane;
    let left = bridge.register(identity).remove_workspace(identity.project_id);
    let connected = bridge.register(identity).install_client(client_id, lane).remove_workspace(
        identity.project_id,
    );
    assert(left.workspaces =~= bridge.workspaces);
    assert(connected.workspaces =~= bridge.workspaces);
    if is_free_of(bridge, lane) {
        assert forall|turn: Seq<char>|
            bridge.turn_ledgers.contains_key(turn) implies TurnLedger::outside(
            bridge.turn_ledgers[turn],
            set![lane],
        ) == Some(bridge.turn_ledgers[turn]) by {
            lemma_none_of(bridge.turn_ledgers[turn].tabs, lane);
        }
        assert forall|turn: Seq<char>|
            bridge.pending_cleanups.contains_key(turn) implies CleanupPrompt::outside(
            bridge.pending_cleanups[turn],
            set![lane],
        ) == Some(bridge.pending_cleanups[turn]) by {
            lemma_none_of(bridge.pending_cleanups[turn].tabs, lane);
        }
        assert(left.sessions =~= bridge.sessions);
        assert(left.occupancy =~= bridge.occupancy);
        assert(left.turn_ledgers =~= bridge.turn_ledgers);
        assert(left.pending_cleanups =~= bridge.pending_cleanups);
        assert(left.needs_human =~= bridge.needs_human);
        assert(connected.sessions =~= bridge.sessions);
    }
}

/// A new run takes back no cleanup of a workspace browser: of what was stored,
/// the tabs that come back are those of other sessions.
pub proof fn restart_discards_workspace_cleanups(
    stored: Seq<tabs::CleanupView>,
    turn: Seq<char>,
    tab: tabs::TabView,
)
    requires
        bridge::BridgeView::empty().load_cleanups(stored).pending_cleanups.contains_key(turn),
        bridge::BridgeView::empty().load_cleanups(stored).pending_cleanups[turn].tabs.contains(tab),
    ensures
        !tabs::is_workspace_session(tab.session),
        exists|i: int|
            0 <= i < stored.len() && (#[trigger] stored[i]).turn_id == turn
                && stored[i].tabs.contains(tab),
    decreases stored.len(),
{
    if stored.len() > 0 {
        let head = stored.drop_last();
        let loaded = bridge::BridgeView::empty().load_cleanups(head);
        let last = stored.last();
        let kept = CleanupPrompt::outside(last, SessionSet::Workspaces@);
        if kept is Some && last.turn_id == turn {
            tabs::lemma_tabs_outside(last.tabs, SessionSet::Workspaces@);
            assert(tabs::tabs_outside(last.tabs, SessionSet::Workspaces@).contains(tab));
            assert(stored[stored.len() - 1].tabs.contains(tab));
        } else {
            restart_discards_workspace_cleanups(head, turn, tab);
            let i = choose|i: int|
                0 <= i < head.len() && (#[trigger] head[i]).turn_id == turn
                    && head[i].tabs.contains(tab);
            assert(stored[i] == head[i]);
        }
    }
}

/// A new run takes back every cleanup of other sessions: a tab of one comes
/// back, unless a later cleanup of the same turn took its place.
pub proof fn restart_keeps_other_cleanups(
    stored: Seq<tabs::CleanupView>,
    at: int,
    tab: tabs::TabView,
)
    requires
        0 <= at < stored.len(),
        stored[at].tabs.contains(tab),
        !tabs::is_workspace_session(tab.session),
        forall|later: int|
            at < later < stored.len() ==> (#[trigger] stored[later]).turn_id != stored[at].turn_id,
    ensures
        ({
            let loaded = bridge::BridgeView::empty().load_cleanups(stored).pending_cleanups;
            &&& loaded.contains_key(stored[at].turn_id)
            &&& loaded[stored[at].turn_id].tabs.contains(tab)
            &&& loaded[stored[at].turn_id].frame_id == stored[at].frame_id
        }),
    decreases stored.len(),
{
    let head = stored.drop_last();
    if at == stored.len() - 1 {
        tabs::lemma_tabs_outside(stored[at].tabs, SessionSet::Workspaces@);
        assert(tabs::tabs_outside(stored[at].tabs, SessionSet::Workspaces@).contains(tab));
    } else {
        assert(head[at] == stored[at]);
        assert forall|later: int| at < later < head.len() implies (#[trigger] head[later]).turn_id
            != head[at].turn_id by {
            assert(head[later] == stored[later]);
        }
        restart_keeps_other_cleanups(head, at, tab);
        assert(stored[stored.len() - 1].turn_id != stored[at].turn_id);
    }
}

/// Of the stored tabs that need a human, a new run takes back exactly those
/// of other sessions.
pub proof fn restart_discards_workspace_prompts(
    stored: Seq<tabs::TabView>,
    session: Seq<char>,
    tab_id: i64,
)
    ensures
        bridge::BridgeView::empty().load_needs_human(stored).needs_human.contains_key(
            (session, tab_id),
        ) <==> !tabs::is_workspace_session(session) && exists|i: int|
            0 <= i < stored.len() && (#[trigger] stored[i]).session == session && stored[i].tab_id
                == tab_id,
    decreases stored.len(),
{
    if stored.len() > 0 {
        let head = stored.drop_last();
        let last = stored.last();
        restart_discards_workspace_prompts(head, session, tab_id);
        if exists|i: int|
            0 <= i < stored.len() && (#[trigger] stored[i]).session == session && stored[i].tab_id
                == tab_id {
            let i = choose|i: int|
                0 <= i < stored.len() && (#[trigger] stored[i]).session == session
                    && stored[i].tab_id == tab_id;
            if i < head.len() {
                assert(head[i] == stored[i]);
            }
        }
        if exists|i: int|
            0 <= i < head.len() && (#[trigger] head[i]).session == session && head[i].tab_id
                == tab_id {
            let i = choose|i: int|
                0 <= i < head.len() && (#[trigger] head[i]).session == session && head[i].tab_id
                    == tab_id;
            assert(stored[i] == head[i]);
        }
        assert(stored[stored.len() - 1] == last);
    }
}

/// A stored tab that comes back is the last one of its session and number.
pub proof fn restart_keeps_other_prompts(stored: Seq<tabs::TabView>, at: int)
    requires
        0 <= at < stored.len(),
        !tabs::is_workspace_session(stored[at].session),
        forall|later: int|
            at < later < stored.len() ==> (#[trigger] stored[later]).session != stored[at].session
                || stored[later].tab_id != stored[at].tab_id,
    ensures
        ({
            let loaded = bridge::BridgeView::empty().load_needs_human(stored).needs_human;
            let key = (stored[at].session, stored[at].tab_id);
            &&& loaded.contains_key(key)
            &&& loaded[key] == stored[at].handle
        }),
    decreases stored.len(),
{
    let head = stored.drop_last();
    if at < stored.len() - 1 {
        assert(head[at] == stored[at]);
        assert forall|later: int| at < later < head.len() implies (#[trigger] head[later]).session
            != head[at].session || head[later].tab_id != head[at].tab_id by {
            assert(head[later] == stored[later]);
        }
        restart_keeps_other_prompts(head, at);
        assert(stored[stored.len() - 1].session != stored[at].session || stored[stored.len()
            - 1].tab_id != stored[at].tab_id);
    }
}

} // verus!
