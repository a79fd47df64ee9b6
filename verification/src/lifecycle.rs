//! The lifecycle reconciler: from the engine's observed state of a named
//! container to the single next action that ends with an attached session.
//! No state is stored here; the engine is re-queried on every invocation.
use vstd::prelude::*;

verus! {

/// The state of a named container as the engine reports it.
#[derive(Debug, Clone, Copy, PartialEq, Eq, Structural)]
pub enum ContainerState {
    Absent,
    StoppedExists,
    Running,
}

/// The single action that reaches an attached session from a given state.
#[derive(Debug, Clone, Copy, PartialEq, Eq, Structural)]
pub enum LifecycleAction {
    /// Instantiate a new container from the resolved image and attach.
    CreateAndRun,
    /// Start the stopped container, then attach; starting comes first.
    StartThenExec,
    /// Attach directly.
    Exec,
}

/// The observed state from the engine's two queries; a container that does
/// not exist is absent whatever the running query would say.
pub open spec fn spec_observe(exists: bool, running: bool) -> ContainerState {
    if !exists {
        ContainerState::Absent
    } else if running {
        ContainerState::Running
    } else {
        ContainerState::StoppedExists
    }
}

/// The reconciliation table: one action per state, a single pass, no loops.
pub open spec fn spec_next_action(s: ContainerState) -> LifecycleAction {
    match s {
        ContainerState::Absent => LifecycleAction::CreateAndRun,
        ContainerState::StoppedExists => LifecycleAction::StartThenExec,
        ContainerState::Running => LifecycleAction::Exec,
    }
}

/// Computes the next lifecycle action; holds no state of its own.
pub struct LifecycleReconciler;

impl LifecycleReconciler {
    /// Folds the engine's existence and running queries into one state.
    pub fn observe(exists: bool, running: bool) -> (r: ContainerState)
        ensures
            r == spec_observe(exists, running),
    {
        if !exists {
            ContainerState::Absent
        } else if running {
            ContainerState::Running
        } else {
            ContainerState::StoppedExists
        }
    }

    /// The single next action for the observed state: a running container is
    /// attached to directly, never created or started again.
    pub fn next_action(state: ContainerState) -> (r: LifecycleAction)
        ensures
            r == spec_next_action(state),
            state is Running ==> r is Exec,
            state is StoppedExists ==> r is StartThenExec,
            state is Absent ==> r is CreateAndRun,
    {
        match state {
            ContainerState::Absent => LifecycleAction::CreateAndRun,
            ContainerState::StoppedExists => LifecycleAction::StartThenExec,
            ContainerState::Running => LifecycleAction::Exec,
        }
    }
}

} // verus!
