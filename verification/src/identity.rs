//! The identity of one project's workspace browser: where its profile lives,
//! the lane its session is known by, and the socket its extension connects to.
use crate::digest;
use crate::generation;
use crate::paths;
use crate::text;
use std::path::{Path, PathBuf};
use vstd::prelude::*;
use vstd::string::*;

verus! {

/// How many workspace browsers may be registered at a time.
pub const MAX_WORKSPACES: usize = 3;

/// A project's workspace browser, from one start to its stop.
#[derive(Debug)]
pub struct WorkspaceIdentity {
    pub project_id: String,
    pub lane: String,
    pub profile: PathBuf,
    pub extension: PathBuf,
    pub endpoint: String,
    pub connection_path: String,
}

/// What a [`WorkspaceIdentity`] stands for.
pub struct IdentityView {
    pub project_id: Seq<char>,
    pub lane: Seq<char>,
    pub profile: PathBuf,
    pub extension: PathBuf,
    pub endpoint: Seq<char>,
    pub connection_path: Seq<char>,
}

impl View for WorkspaceIdentity {
    type V = IdentityView;

    open spec fn view(&self) -> IdentityView {
        IdentityView {
            project_id: self.project_id@,
            lane: self.lane@,
            profile: self.profile,
            extension: self.extension,
            endpoint: self.endpoint@,
            connection_path: self.connection_path@,
        }
    }
}

/// The directory name of a project: the SHA-256 digest of its id in
/// hexadecimal. The id itself never becomes part of a path.
pub open spec fn workspace_key(project_id: Seq<char>) -> Seq<char> {
    text::hex(digest::sha256(vstd::utf8::encode_utf8(project_id)))
}

/// The directory of the project with the directory name `key` under `root`.
pub open spec fn workspace_directory(root: PathBuf, key: Seq<char>) -> PathBuf {
    paths::joined_path(paths::joined_path(root, "browser-workspaces"@), key)
}

/// The path of the socket that only the extension of this start is told.
pub open spec fn connection_path(generation: u128) -> Seq<char> {
    "/"@ + generation::uuid_text(generation)
}

/// The lane of a start of the project with the directory name `key`.
pub open spec fn lane(key: Seq<char>, generation: u128) -> Seq<char> {
    "workspace:"@ + key + ":"@ + generation::uuid_text(generation)
}

/// The address that the extension of a start connects to.
pub open spec fn endpoint(port: u16, generation: u128) -> Seq<char> {
    "ws://127.0.0.1:"@ + text::decimal(port as nat) + connection_path(generation)
}

/// The identity of a start of `project_id` under `root`, with the directory
/// name `key`, a listener on `port` and the random number `generation`.
pub open spec fn identity(
    root: PathBuf,
    project_id: Seq<char>,
    key: Seq<char>,
    port: u16,
    generation: u128,
) -> IdentityView {
    let directory = workspace_directory(root, key);
    IdentityView {
        project_id,
        lane: lane(key, generation),
        profile: paths::joined_path(directory, "profile"@),
        extension: paths::joined_path(directory, "extension"@),
        endpoint: endpoint(port, generation),
        connection_path: connection_path(generation),
    }
}

/// `path` is `root` with the directories of `key` and `leaf` below it.
pub open spec fn lies_below(path: PathBuf, root: PathBuf, key: Seq<char>, leaf: Seq<char>) -> bool {
    paths::path_parts(path) == paths::path_parts(root) + seq![
        paths::PathPart::Normal("browser-workspaces"@),
        paths::PathPart::Normal(key),
        paths::PathPart::Normal(leaf),
    ]
}

/// What the identity of a start with the directory name `key` is:
/// [`identity`]. The text of both of its directories ends with the key and the
/// directory's own name, and both lie below `root` if that is settled.
pub open spec fn is_identity_with(
    view: IdentityView,
    root: PathBuf,
    project_id: Seq<char>,
    key: Seq<char>,
    port: u16,
    generation: u128,
) -> bool {
    &&& view == identity(root, project_id, key, port, generation)
    &&& key.len() == 64
    &&& paths::ends_with_both(paths::path_text(view.profile), key, "profile"@)
    &&& paths::ends_with_both(paths::path_text(view.extension), key, "extension"@)
    &&& paths::is_settled(root) ==> {
        &&& lies_below(view.profile, root, key, "profile"@)
        &&& lies_below(view.extension, root, key, "extension"@)
    }
}

/// What the identity of a start of `project_id` is: its directory name is the
/// key of the project.
pub open spec fn is_identity_of(
    view: IdentityView,
    root: PathBuf,
    project_id: Seq<char>,
    port: u16,
    generation: u128,
) -> bool {
    is_identity_with(view, root, project_id, workspace_key(project_id), port, generation)
}

/// What the identity of a new start is: that of some random generation.
pub open spec fn is_new_identity(
    view: IdentityView,
    root: PathBuf,
    project_id: Seq<char>,
    port: u16,
) -> bool {
    exists|generation: u128|
        generation::is_random_uuid(generation) && #[trigger] is_identity_of(
            view,
            root,
            project_id,
            port,
            generation,
        )
}

impl WorkspaceIdentity {
    /// The identity of a new start: its directories depend on the project
    /// alone, and its lane and socket on a fresh random generation.
    pub fn new(root: &Path, project_id: &str, port: u16) -> (identity: WorkspaceIdentity)
        ensures
            is_new_identity(identity@, paths::owned_path(root), project_id@, port),
    {
        let generation = generation::random_generation();
        let identity = WorkspaceIdentity::of_generation(root, project_id, port, generation);
        assert(is_identity_of(
            identity@,
            paths::owned_path(root),
            project_id@,
            port,
            generation,
        ));
        identity
    }

    /// The identity of the start that is known by `generation`.
    pub fn of_generation(root: &Path, project_id: &str, port: u16, generation: u128) -> (identity:
        WorkspaceIdentity)
        ensures
            is_identity_of(
                identity@,
                paths::owned_path(root),
                project_id@,
                port,
                generation,
            ),
    {
        let digest = digest::sha256_digest(project_id.as_bytes());
        WorkspaceIdentity::of_digest(root, project_id, port, generation, digest.as_slice())
    }

    /// The identity of the start that is known by `generation`, of a project
    /// whose id has the digest `digest`.
    pub fn of_digest(
        root: &Path,
        project_id: &str,
        port: u16,
        generation: u128,
        digest: &[u8],
    ) -> (identity: WorkspaceIdentity)
        requires
            digest@.len() == 32,
        ensures
            is_identity_with(
                identity@,
                paths::owned_path(root),
                project_id@,
                text::hex(digest@),
                port,
                generation,
            ),
    {
        let key = text::hex_text(digest);
        proof {
            text::lemma_hex_len(digest@);
            text::lemma_hex_is_digits(digest@);
            reveal_strlit("browser-workspaces");
            reveal_strlit("profile");
            reveal_strlit("extension");
        }
        let generation_text = generation::generation_text(generation);
        let root_path = root.to_path_buf();
        let workspaces = paths::join(&root_path, "browser-workspaces");
        let directory = paths::join(&workspaces, key.as_str());
        let profile = paths::join(&directory, "profile");
        let extension = paths::join(&directory, "extension");
        let connection_path = "/".to_owned().concat(generation_text.as_str());
        let lane = "workspace:".to_owned().concat(key.as_str()).concat(":").concat(
            generation_text.as_str(),
        );
        let port_text = text::decimal_text(port);
        let endpoint = "ws://127.0.0.1:".to_owned().concat(port_text.as_str()).concat(
            connection_path.as_str(),
        );
        let identity = WorkspaceIdentity {
            project_id: project_id.to_owned(),
            lane,
            profile,
            extension,
            endpoint,
            connection_path,
        };
        proof {
            let parts = paths::path_parts(root_path);
            if paths::is_settled(root_path) {
                let below = |leaf: Seq<char>|
                    parts + seq![
                        paths::PathPart::Normal("browser-workspaces"@),
                        paths::PathPart::Normal(key@),
                        paths::PathPart::Normal(leaf),
                    ];
                assert(paths::path_parts(profile) =~= below("profile"@));
                assert(paths::path_parts(extension) =~= below("extension"@));
            }
            assert(paths::ends_with(paths::path_text(directory), key@));
        }
        identity
    }
}

impl Clone for WorkspaceIdentity {
    fn clone(&self) -> (copy: WorkspaceIdentity)
        ensures
            copy@ == self@,
    {
        WorkspaceIdentity {
            project_id: self.project_id.clone(),
            lane: self.lane.clone(),
            profile: self.profile.clone(),
            extension: self.extension.clone(),
            endpoint: self.endpoint.clone(),
            connection_path: self.connection_path.clone(),
        }
    }
}

/// The project that a workspace request is for: the current one, if there is
/// one and its id is not empty.
pub fn require_project<'a>(project_id: Option<&'a str>) -> (required: Result<&'a str, String>)
    ensures
        match project_id {
            Some(id) if id@.len() > 0 => required == Ok::<&'a str, String>(id),
            _ => required matches Err(error) && error@
                == "workspace browser requires a current project"@,
        },
{
    match project_id {
        Some(id) if !id.is_empty() => Ok(id),
        _ => Err("workspace browser requires a current project".to_owned()),
    }
}

/// Whether a socket that asks for `path` may join a listener that expects
/// `expected`; a listener that expects no path takes every socket.
pub fn workspace_path_matches(expected: Option<&str>, path: &str) -> (matches: bool)
    ensures
        matches == match expected {
            Some(expected) => expected@ == path@,
            None => true,
        },
{
    match expected {
        Some(expected) => text::same_text(expected, path),
        None => true,
    }
}

} // verus!
