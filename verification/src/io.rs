//! The requests that the dashboard hands to the side that talks to the
//! engine.

use vstd::prelude::*;

verus! {

/// A request to the side that talks to the engine.
#[derive(Debug)]
pub enum IoEvent {
    /// Watch the set of containers.
    StartMonitoring,
    /// Follow the log of the container with this id.
    ShowLogs(String),
    /// Stop the container with this id.
    StopContainer(String),
    /// Pause the container with this id, or let it go on.
    PauseContainer(String),
    /// Open a shell in the container with this id.
    StartExecSession(String),
}

/// The mathematical content of an [`IoEvent`].
pub enum IoRequest {
    StartMonitoring,
    ShowLogs(Seq<char>),
    StopContainer(Seq<char>),
    PauseContainer(Seq<char>),
    StartExecSession(Seq<char>),
}

impl View for IoEvent {
    type V = IoRequest;

    open spec fn view(&self) -> IoRequest {
        match *self {
            IoEvent::StartMonitoring => IoRequest::StartMonitoring,
            IoEvent::ShowLogs(id) => IoRequest::ShowLogs(id@),
            IoEvent::StopContainer(id) => IoRequest::StopContainer(id@),
            IoEvent::PauseContainer(id) => IoRequest::PauseContainer(id@),
            IoEvent::StartExecSession(id) => IoRequest::StartExecSession(id@),
        }
    }
}

} // verus!
