//! What to ask of the engine when the user wants a container stopped or
//! paused, given the state in which the container is found.

use vstd::prelude::*;
use crate::container::ContainerStatus;

verus! {

/// The seconds that a container gets to stop by itself.
pub const STOP_GRACE_SECONDS: i64 = 10;

/// What to do to a container that the user wants stopped.
#[derive(Clone, Copy, Debug, PartialEq, Eq, Structural)]
pub enum StopPlan {
    /// Stop it, and allow it this many seconds.
    Stop { grace_seconds: i64 },
    /// Remove it, by force.
    Remove,
    /// Leave it alone.
    Skip,
}

/// What to do to a container that the user wants paused.
#[derive(Clone, Copy, Debug, PartialEq, Eq, Structural)]
pub enum PausePlan {
    Pause,
    Unpause,
    /// Leave it alone.
    Skip,
}

/// A running container is stopped; one that has exited or was only created
/// is removed; in any other state, or where the state is not known, nothing
/// is done.
pub fn plan_stop(status: Option<ContainerStatus>) -> (r: StopPlan)
    ensures
        r == (match status {
            Some(ContainerStatus::Running) => StopPlan::Stop { grace_seconds: 10 },
            Some(ContainerStatus::Exited) => StopPlan::Remove,
            Some(ContainerStatus::Created) => StopPlan::Remove,
            _ => StopPlan::Skip,
        }),
{
    match status {
        Some(ContainerStatus::Running) => StopPlan::Stop { grace_seconds: STOP_GRACE_SECONDS },
        Some(ContainerStatus::Exited) => StopPlan::Remove,
        Some(ContainerStatus::Created) => StopPlan::Remove,
        _ => StopPlan::Skip,
    }
}

/// A running container is paused and a paused one goes on; in any other
/// state, or where the state is not known, nothing is done.
pub fn plan_pause(status: Option<ContainerStatus>) -> (r: PausePlan)
    ensures
        r == (match status {
            Some(ContainerStatus::Running) => PausePlan::Pause,
            Some(ContainerStatus::Paused) => PausePlan::Unpause,
            _ => PausePlan::Skip,
        }),
{
    match status {
        Some(ContainerStatus::Running) => PausePlan::Pause,
        Some(ContainerStatus::Paused) => PausePlan::Unpause,
        _ => PausePlan::Skip,
    }
}

} // verus!
