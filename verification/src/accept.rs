//! Which sockets the listener of a workspace browser serves, and how it ends.
use crate::identity::WorkspaceIdentity;
use vstd::prelude::*;
use vstd::string::*;

verus! {

/// What the listener of a workspace browser waits for.
#[derive(Debug, Clone, Copy)]
pub enum ListenerEvent {
    /// The workspace browser is shut down, or its owner is gone.
    ShutdownChanged,
    /// No socket could be accepted.
    AcceptFailed,
    /// A socket was accepted.
    Accepted,
}

/// What the listener does next.
#[derive(Debug, Clone, Copy)]
pub enum ListenerStep {
    /// Give the socket a task of its own and wait on.
    Spawn,
    /// Stop listening.
    Stop,
}

/// What happens to an accepted socket.
#[derive(Debug)]
pub enum ConnectionEvent {
    /// Its task begins; `shut_down` is whether the shutdown was signalled
    /// already.
    Spawned { shut_down: bool },
    /// The workspace browser is shut down while the socket is served, or its
    /// owner is gone.
    ShutdownChanged,
    /// The socket was served to its end, or turned away with an error.
    Served(Result<(), String>),
}

/// What the task of a socket does next.
#[derive(Debug)]
pub enum ConnectionStep {
    /// Serve the socket on this lane, if it asks for this path.
    Serve { lane: String, required_path: Option<String> },
    /// Close the socket.
    Close,
    /// Close the socket and log this warning.
    Warn(String),
}

/// What a [`ConnectionStep`] stands for.
pub enum ConnectionStepView {
    Serve { lane: Seq<char>, required_path: Option<Seq<char>> },
    Close,
    Warn(Seq<char>),
}

impl View for ConnectionStep {
    type V = ConnectionStepView;

    open spec fn view(&self) -> ConnectionStepView {
        match self {
            ConnectionStep::Serve { lane, required_path } => ConnectionStepView::Serve {
                lane: lane@,
                required_path: crate::status::optional_text(*required_path),
            },
            ConnectionStep::Close => ConnectionStepView::Close,
            ConnectionStep::Warn(message) => ConnectionStepView::Warn(message@),
        }
    }
}

/// One turn of the loop that accepts the sockets of a workspace browser.
pub fn accept_workspace(event: ListenerEvent) -> (step: ListenerStep)
    ensures
        step == match event {
            ListenerEvent::Accepted => ListenerStep::Spawn,
            _ => ListenerStep::Stop,
        },
{
    match event {
        ListenerEvent::ShutdownChanged => ListenerStep::Stop,
        ListenerEvent::AcceptFailed => ListenerStep::Stop,
        ListenerEvent::Accepted => ListenerStep::Spawn,
    }
}

/// One turn of the task that serves an accepted socket. It serves the lane of
/// its own workspace browser and no other, to a client that knows the path of
/// this start.
pub fn serve_workspace(identity: &WorkspaceIdentity, event: ConnectionEvent) -> (step:
    ConnectionStep)
    ensures
        step@ == match event {
            ConnectionEvent::Spawned { shut_down } => if shut_down {
                ConnectionStepView::Close
            } else {
                ConnectionStepView::Serve {
                    lane: identity@.lane,
                    required_path: Some(identity@.connection_path),
                }
            },
            ConnectionEvent::ShutdownChanged => ConnectionStepView::Close,
            ConnectionEvent::Served(Ok(_)) => ConnectionStepView::Close,
            ConnectionEvent::Served(Err(error)) => ConnectionStepView::Warn(
                "project workspace connection rejected: "@ + error@,
            ),
        },
{
    match event {
        ConnectionEvent::Spawned { shut_down } => {
            if shut_down {
                ConnectionStep::Close
            } else {
                ConnectionStep::Serve {
                    lane: identity.lane.clone(),
                    required_path: Some(identity.connection_path.clone()),
                }
            }
        },
        ConnectionEvent::ShutdownChanged => ConnectionStep::Close,
        ConnectionEvent::Served(served) => match served {
            Ok(_) => ConnectionStep::Close,
            Err(error) => ConnectionStep::Warn(
                "project workspace connection rejected: ".to_owned().concat(error.as_str()),
            ),
        },
    }
}

} // verus!
