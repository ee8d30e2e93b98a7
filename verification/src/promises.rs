//! What texts, identities and statuses promise, told by what goes in and what
//! comes out.
//!
//! A law here holds of every call of the function that it names.
use crate::digest;
use crate::generation;
use crate::identity::WorkspaceIdentity;
use crate::identity;
use crate::paths;
use crate::readings;
use crate::status::{StatusField, StatusValue, WorkspaceStatus};
use crate::status;
use crate::text;
use std::path::{Path, PathBuf};
use vstd::prelude::*;

verus! {

// Texts.

/// A number in decimal reads as that number.
pub proof fn decimal_text_reads_as_its_number(n: u16, written: String)
    requires
        call_ensures(text::decimal_text, (n,), written),
    ensures
        readings::reads_as_decimal(written@, n as int),
{
    readings::lemma_decimal(n as nat);
}

/// Bytes in hexadecimal read as these bytes.
pub proof fn hex_text_spells_its_bytes(bytes: &[u8], written: String)
    requires
        call_ensures(text::hex_text, (bytes,), written),
    ensures
        readings::spells_bytes(written@, bytes@),
{
    readings::lemma_hex(bytes@);
}

/// Two texts are the same where they have the same characters.
pub proof fn same_text_compares_characters(a: &str, b: &str, same: bool)
    requires
        call_ensures(text::same_text, (a, b), same),
    ensures
        same <==> a@.len() == b@.len() && forall|i: int|
            0 <= i < a@.len() ==> #[trigger] a@[i] == b@[i],
{
    if a@.len() == b@.len() && forall|i: int| 0 <= i < a@.len() ==> #[trigger] a@[i] == b@[i] {
        assert(a@ =~= b@);
    }
}

/// A text begins with a prefix where it has the prefix's characters first.
pub proof fn starts_with_compares_characters(whole: &str, prefix: &str, yes: bool)
    requires
        call_ensures(text::starts_with, (whole, prefix), yes),
    ensures
        yes <==> readings::begins_with(whole@, prefix@),
{
    readings::lemma_prefix(whole@, prefix@);
}

// Identities.

/// Whether the parts of an identity fit together: its path is a slash and a
/// token; its lane has the digest of the project in hexadecimal and the same
/// token; its endpoint has the port in decimal and the same path; and its
/// directories have the same digest.
pub open spec fn fits(
    view: identity::IdentityView,
    root: PathBuf,
    project_id: Seq<char>,
    port: u16,
    digest: Seq<u8>,
) -> bool {
    let token = view.connection_path.subrange(1, 37);
    let key = view.lane.subrange(10, 74);
    let port_text = view.endpoint.subrange(15, view.endpoint.len() - 37);
    let directory = paths::joined_path(paths::joined_path(root, "browser-workspaces"@), key);
    &&& view.project_id == project_id
    &&& readings::is_token(token)
    &&& view.connection_path == "/"@ + token
    &&& readings::spells_bytes(key, digest)
    &&& view.lane == "workspace:"@ + key + ":"@ + token
    &&& readings::reads_as_decimal(port_text, port as int)
    &&& view.endpoint == "ws://127.0.0.1:"@ + port_text + "/"@ + token
    &&& view.profile == paths::joined_path(directory, "profile"@)
    &&& view.extension == paths::joined_path(directory, "extension"@)
}

proof fn lemma_fits(
    view: identity::IdentityView,
    root: PathBuf,
    project_id: Seq<char>,
    port: u16,
    generation: u128,
    digest: Seq<u8>,
)
    requires
        digest.len() == 32,
        identity::is_identity_with(view, root, project_id, text::hex(digest), port, generation),
    ensures
        fits(view, root, project_id, port, digest),
        view.connection_path.subrange(1, 37) == generation::uuid_text(generation),
{
    let token = generation::uuid_text(generation);
    let key = text::hex(digest);
    let port_text = text::decimal(port as nat);
    readings::lemma_uuid_text(generation);
    readings::lemma_hex(digest);
    readings::lemma_decimal(port as nat);
    reveal_strlit("/");
    reveal_strlit(":");
    reveal_strlit("workspace:");
    reveal_strlit("ws://127.0.0.1:");
    assert(view.connection_path.subrange(1, 37) =~= token);
    assert(view.lane.subrange(10, 74) =~= key);
    assert(view.endpoint.len() == 15 + port_text.len() + 37);
    assert(view.endpoint.subrange(15, view.endpoint.len() - 37) =~= port_text);
    assert(view.endpoint =~= "ws://127.0.0.1:"@ + port_text + "/"@ + token);
}

/// An identity has the project, port, generation and digest that it was made
/// of, in all of its parts.
pub proof fn an_identity_fits_its_digest(
    root: &Path,
    project_id: &str,
    port: u16,
    generation: u128,
    digest: &[u8],
    identity: WorkspaceIdentity,
)
    requires
        digest@.len() == 32,
        call_ensures(
            WorkspaceIdentity::of_digest,
            (root, project_id, port, generation, digest),
            identity,
        ),
    ensures
        fits(identity@, paths::owned_path(root), project_id@, port, digest@),
        readings::reads_as_token(identity.connection_path@.subrange(1, 37), generation as int),
{
    lemma_fits(identity@, paths::owned_path(root), project_id@, port, generation, digest@);
    readings::lemma_uuid_text(generation);
}

/// The digest in an identity is that of the project's id in UTF-8.
pub proof fn an_identity_fits_its_project(
    root: &Path,
    project_id: &str,
    port: u16,
    generation: u128,
    identity: WorkspaceIdentity,
)
    requires
        call_ensures(
            WorkspaceIdentity::of_generation,
            (root, project_id, port, generation),
            identity,
        ),
    ensures
        fits(
            identity@,
            paths::owned_path(root),
            project_id@,
            port,
            digest::sha256(vstd::utf8::encode_utf8(project_id@)),
        ),
        readings::reads_as_token(identity.connection_path@.subrange(1, 37), generation as int),
{
    let digest = digest::sha256(vstd::utf8::encode_utf8(project_id@));
    text::lemma_hex_len(digest);
    lemma_fits(identity@, paths::owned_path(root), project_id@, port, generation, digest);
    readings::lemma_uuid_text(generation);
}

/// A new identity fits its project and port, and its token is a random UUID.
pub proof fn a_new_identity_fits_its_project(
    root: &Path,
    project_id: &str,
    port: u16,
    identity: WorkspaceIdentity,
)
    requires
        call_ensures(WorkspaceIdentity::new, (root, project_id, port), identity),
    ensures
        fits(
            identity@,
            paths::owned_path(root),
            project_id@,
            port,
            digest::sha256(vstd::utf8::encode_utf8(project_id@)),
        ),
        readings::is_random_token(identity.connection_path@.subrange(1, 37)),
{
    lemma_new_identity_fits(identity@, paths::owned_path(root), project_id@, port);
}

pub proof fn lemma_new_identity_fits(
    view: identity::IdentityView,
    root: PathBuf,
    project_id: Seq<char>,
    port: u16,
)
    requires
        identity::is_new_identity(view, root, project_id, port),
    ensures
        fits(view, root, project_id, port, digest::sha256(vstd::utf8::encode_utf8(project_id))),
        readings::is_random_token(view.connection_path.subrange(1, 37)),
{
    let generation = choose|generation: u128|
        generation::is_random_uuid(generation) && #[trigger] identity::is_identity_of(
            view,
            root,
            project_id,
            port,
            generation,
        );
    let digest = digest::sha256(vstd::utf8::encode_utf8(project_id));
    text::lemma_hex_len(digest);
    lemma_fits(view, root, project_id, port, generation, digest);
    readings::lemma_random_uuid_text(generation);
}

/// Listeners on different ports have different endpoints, even in starts of
/// one generation.
pub proof fn endpoints_tell_ports_apart(
    roots: (&Path, &Path),
    project_ids: (&str, &str),
    ports: (u16, u16),
    generation: u128,
    a: WorkspaceIdentity,
    b: WorkspaceIdentity,
)
    requires
        ports.0 != ports.1,
        call_ensures(
            WorkspaceIdentity::of_generation,
            (roots.0, project_ids.0, ports.0, generation),
            a,
        ),
        call_ensures(
            WorkspaceIdentity::of_generation,
            (roots.1, project_ids.1, ports.1, generation),
            b,
        ),
    ensures
        a.endpoint@ != b.endpoint@,
{
    an_identity_fits_its_project(roots.0, project_ids.0, ports.0, generation, a);
    an_identity_fits_its_project(roots.1, project_ids.1, ports.1, generation, b);
}

/// Starts of different generations have different lanes, endpoints and paths,
/// whatever else they have in common.
pub proof fn connections_tell_generations_apart(
    roots: (&Path, &Path),
    project_ids: (&str, &str),
    ports: (u16, u16),
    generations: (u128, u128),
    a: WorkspaceIdentity,
    b: WorkspaceIdentity,
)
    requires
        generations.0 != generations.1,
        call_ensures(
            WorkspaceIdentity::of_generation,
            (roots.0, project_ids.0, ports.0, generations.0),
            a,
        ),
        call_ensures(
            WorkspaceIdentity::of_generation,
            (roots.1, project_ids.1, ports.1, generations.1),
            b,
        ),
    ensures
        a.connection_path@ != b.connection_path@,
        a.lane@ != b.lane@,
        a.endpoint@ != b.endpoint@,
{
    an_identity_fits_its_project(roots.0, project_ids.0, ports.0, generations.0, a);
    an_identity_fits_its_project(roots.1, project_ids.1, ports.1, generations.1, b);
    let left = a.connection_path@.subrange(1, 37);
    let right = b.connection_path@.subrange(1, 37);
    reveal_strlit("/");
    reveal_strlit(":");
    reveal_strlit("workspace:");
    reveal_strlit("ws://127.0.0.1:");
    assert(left != right);
    let end = |whole: Seq<char>| whole.subrange(whole.len() - 36, whole.len() as int);
    assert(end(a.lane@) =~= left);
    assert(end(b.lane@) =~= right);
    assert(end(a.endpoint@) =~= left);
    assert(end(b.endpoint@) =~= right);
}

/// Projects whose ids have different digests have different lanes, whatever
/// else their starts have in common.
pub proof fn lanes_tell_projects_apart(
    roots: (&Path, &Path),
    project_ids: (&str, &str),
    ports: (u16, u16),
    generations: (u128, u128),
    a: WorkspaceIdentity,
    b: WorkspaceIdentity,
)
    requires
        digest::sha256(vstd::utf8::encode_utf8(project_ids.0@)) != digest::sha256(
            vstd::utf8::encode_utf8(project_ids.1@),
        ),
        call_ensures(
            WorkspaceIdentity::of_generation,
            (roots.0, project_ids.0, ports.0, generations.0),
            a,
        ),
        call_ensures(
            WorkspaceIdentity::of_generation,
            (roots.1, project_ids.1, ports.1, generations.1),
            b,
        ),
    ensures
        a.lane@ != b.lane@,
{
    an_identity_fits_its_project(roots.0, project_ids.0, ports.0, generations.0, a);
    an_identity_fits_its_project(roots.1, project_ids.1, ports.1, generations.1, b);
    if a.lane@ == b.lane@ {
        readings::lemma_spelled_once(
            a.lane@.subrange(10, 74),
            digest::sha256(vstd::utf8::encode_utf8(project_ids.0@)),
            digest::sha256(vstd::utf8::encode_utf8(project_ids.1@)),
        );
    }
}

/// A copy of an identity has every part of it.
pub proof fn a_copied_identity_is_the_same(identity: WorkspaceIdentity, copy: WorkspaceIdentity)
    requires
        call_ensures(WorkspaceIdentity::clone, (&identity,), copy),
    ensures
        copy.project_id@ == identity.project_id@,
        copy.lane@ == identity.lane@,
        copy.profile == identity.profile,
        copy.extension == identity.extension,
        copy.endpoint@ == identity.endpoint@,
        copy.connection_path@ == identity.connection_path@,
{
}

/// A project is there where its id has a character.
pub proof fn a_project_needs_an_id(project_id: Option<&str>, required: Result<&str, String>)
    requires
        call_ensures(identity::require_project, (project_id,), required),
    ensures
        match project_id {
            Some(id) => if id@.len() > 0 {
                required matches Ok(same) && same@ == id@
            } else {
                required matches Err(error) && error@
                    == "workspace browser requires a current project"@
            },
            None => required matches Err(error) && error@
                == "workspace browser requires a current project"@,
        },
{
}

/// A listener that expects a path takes the sockets that ask for this path,
/// and no others.
pub proof fn a_listener_takes_its_own_path(expected: Option<&str>, path: &str, taken: bool)
    requires
        call_ensures(identity::workspace_path_matches, (expected, path), taken),
    ensures
        match expected {
            Some(own) => taken <==> path@ == own@,
            None => taken,
        },
{
}

// Statuses.

/// Whether a status is that of the registered browser `identity`.
pub open spec fn tells_instance(
    status: WorkspaceStatus,
    identity: identity::IdentityView,
    connected: bool,
    running: bool,
) -> bool {
    &&& status.session@ == "workspace"@
    &&& status.project_id matches Some(id)
    &&& id@ == identity.project_id
    &&& status.connected == connected
    &&& status.process_running == running
    &&& status.workspace_limit == 3
    &&& status.instance matches Some(instance)
    &&& instance.lane@ == identity.lane
    &&& instance.profile_dir == identity.profile
    &&& instance.extension_dir == identity.extension
    &&& instance.endpoint@ == identity.endpoint
}

/// Whether a status says that no browser is registered for `project_id`.
pub open spec fn tells_absence(status: WorkspaceStatus, project_id: Option<&str>) -> bool {
    &&& status.session@ == "workspace"@
    &&& match project_id {
        Some(id) => status.project_id matches Some(same) && same@ == id@,
        None => status.project_id is None,
    }
    &&& !status.connected
    &&& !status.process_running
    &&& status.workspace_limit == 3
    &&& status.instance is None
}

/// The status of an identity has its parts and the two flags.
pub proof fn a_status_tells_its_identity(
    identity: WorkspaceIdentity,
    connected: bool,
    running: bool,
    status: WorkspaceStatus,
)
    requires
        call_ensures(WorkspaceIdentity::status, (&identity, connected, running), status),
    ensures
        tells_instance(status, identity@, connected, running),
{
}

/// The status of a project without a browser says so.
pub proof fn an_absent_status_tells_nothing_else(
    project_id: Option<&str>,
    status: WorkspaceStatus,
)
    requires
        call_ensures(WorkspaceStatus::absent, (project_id,), status),
    ensures
        tells_absence(status, project_id),
{
}

/// Whether the field at `i` has the name `name`, and no other field has.
pub open spec fn only_field(fields: Seq<StatusField>, name: Seq<char>, i: int) -> bool {
    &&& 0 <= i < fields.len()
    &&& fields[i].name@ == name
    &&& forall|j: int|
        0 <= j < fields.len() && (#[trigger] fields[j]).name@ == name ==> j == i
}

/// Whether one field has the name `name`, and its value is `flag`.
pub open spec fn sends_flag(fields: Seq<StatusField>, name: Seq<char>, flag: bool) -> bool {
    exists|i: int| #[trigger]
        only_field(fields, name, i) && fields[i].value == StatusValue::Bool(flag)
}

/// Whether one field has the name `name`, and its value is `number`.
pub open spec fn sends_number(fields: Seq<StatusField>, name: Seq<char>, number: usize) -> bool {
    exists|i: int| #[trigger]
        only_field(fields, name, i) && fields[i].value == StatusValue::Count(number)
}

/// Whether one field has the name `name`, and its value is the text `words`.
pub open spec fn sends_text(fields: Seq<StatusField>, name: Seq<char>, words: Seq<char>) -> bool {
    exists|i: int| #[trigger]
        only_field(fields, name, i) && (fields[i].value matches StatusValue::Text(value) && value@
            == words)
}

/// Whether one field has the name `name`, and it has no value.
pub open spec fn sends_null(fields: Seq<StatusField>, name: Seq<char>) -> bool {
    exists|i: int| #[trigger] only_field(fields, name, i) && fields[i].value is Null
}

/// The object that callers are sent has one field for each thing that the
/// status says, with the value of that thing, and no other fields. There is an
/// object unless a directory is not Unicode.
pub proof fn every_field_has_its_own_value(
    status: WorkspaceStatus,
    sent: Option<Vec<StatusField>>,
)
    requires
        call_ensures(WorkspaceStatus::fields, (&status,), sent),
    ensures
        match (status.instance, sent) {
            (Some(instance), None) => paths::unicode_text(instance.profile_dir) is None
                || paths::unicode_text(instance.extension_dir) is None,
            (None, None) => false,
            (instance, Some(fields)) => {
                &&& sends_text(fields@, "session"@, status.session@)
                &&& match status.project_id {
                    Some(id) => sends_text(fields@, "project_id"@, id@),
                    None => sends_null(fields@, "project_id"@),
                }
                &&& sends_flag(fields@, "connected"@, status.connected)
                &&& sends_flag(fields@, "process_running"@, status.process_running)
                &&& sends_number(fields@, "workspace_limit"@, status.workspace_limit)
                &&& match instance {
                    None => fields@.len() == 5,
                    Some(instance) => {
                        &&& fields@.len() == 9
                        &&& sends_text(fields@, "lane"@, instance.lane@)
                        &&& sends_text(fields@, "endpoint"@, instance.endpoint@)
                        &&& paths::unicode_text(instance.profile_dir) matches Some(profile)
                        &&& sends_text(fields@, "profile_dir"@, profile)
                        &&& paths::unicode_text(instance.extension_dir) matches Some(extension)
                        &&& sends_text(fields@, "extension_dir"@, extension)
                    },
                }
            },
        },
{
    if let Some(fields) = sent {
        let views = status::field_views(fields@);
        lemma_field_names();
        assert forall|i: int| 0 <= i < fields@.len() implies views[i] == (#[trigger] fields@[i])@
            && views[i].0 == fields@[i].name@ && views[i].1 == fields@[i].value@ by {}
        assert(views.len() == fields@.len());
        if status.instance is None {
            assert(only_field(fields@, "session"@, 0));
            assert(only_field(fields@, "project_id"@, 1));
            assert(only_field(fields@, "connected"@, 2));
            assert(only_field(fields@, "process_running"@, 3));
            assert(only_field(fields@, "workspace_limit"@, 4));
        } else {
            assert(only_field(fields@, "session"@, 0));
            assert(only_field(fields@, "project_id"@, 1));
            assert(only_field(fields@, "lane"@, 2));
            assert(only_field(fields@, "connected"@, 3));
            assert(only_field(fields@, "process_running"@, 4));
            assert(only_field(fields@, "profile_dir"@, 5));
            assert(only_field(fields@, "extension_dir"@, 6));
            assert(only_field(fields@, "endpoint"@, 7));
            assert(only_field(fields@, "workspace_limit"@, 8));
        }
    }
}

proof fn lemma_field_names()
    ensures
        "lane"@.len() == 4,
        "session"@.len() == 7,
        "endpoint"@.len() == 8,
        "connected"@.len() == 9,
        "project_id"@.len() == 10,
        "profile_dir"@.len() == 11,
        "extension_dir"@.len() == 13,
        "process_running"@.len() == 15,
        "workspace_limit"@.len() == 15,
        "process_running"@ != "workspace_limit"@,
{
    reveal_strlit("lane");
    reveal_strlit("session");
    reveal_strlit("endpoint");
    reveal_strlit("connected");
    reveal_strlit("project_id");
    reveal_strlit("profile_dir");
    reveal_strlit("extension_dir");
    reveal_strlit("process_running");
    reveal_strlit("workspace_limit");
    assert("process_running"@[0] == 'p');
    assert("workspace_limit"@[0] == 'w');
}

} // verus!
