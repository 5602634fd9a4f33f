//! Decisions of the unified validator node when it stops: what to shut down, and how the node
//! exits.
//!
//! The node runs the execution client and the consensus task side by side and stops at the
//! first of three events: a shutdown signal, the end of the execution client or the end of the
//! consensus task. Waiting, cancelling and joining are the node's own work; the choices it
//! makes between them are here.

use vstd::prelude::*;

verus! {

/// How a task that the node joined ended.
#[derive(Clone, Copy, Debug, PartialEq, Eq, Structural)]
pub enum TaskExit {
    /// The task returned successfully.
    Completed,
    /// The task returned an error.
    Failed,
    /// The task was cancelled before it finished.
    Cancelled,
    /// The task panicked.
    Panicked,
}

/// Why the node stops.
#[derive(Clone, Copy, Debug, PartialEq, Eq, Structural)]
pub enum ExitReason {
    /// A shutdown signal arrived.
    Signal,
    /// The execution client ended, as given.
    Execution(TaskExit),
    /// The consensus task ended, as given.
    Consensus(TaskExit),
}

/// What the node shuts down before it exits.
#[derive(Clone, Copy, Debug, PartialEq, Eq, Structural)]
pub enum ShutdownPlan {
    /// Stop the consensus task (when `consensus` holds), then the execution engine, then wait
    /// for the execution client.
    Full { consensus: bool },
    /// Stop only the consensus task: the execution client is gone already.
    ConsensusOnly,
}

/// How the node exits once the shutdown succeeded.
#[derive(Clone, Copy, Debug, PartialEq, Eq, Structural)]
pub enum NodeExit {
    /// Without an error.
    Clean,
    /// With the error that the execution client returned.
    ExecutionFailed,
    /// Because the execution client could not be joined.
    ExecutionJoinFailed,
    /// With the error that the consensus task returned.
    ConsensusFailed,
    /// Because the consensus task could not be joined.
    ConsensusJoinFailed,
}

/// The shutdown that follows `reason`: after a signal everything stops; when the execution
/// client ended only the consensus task remains to stop; when the consensus task ended the
/// execution side stops, and the ended task is not waited for again.
pub open spec fn spec_shutdown_plan(reason: ExitReason) -> ShutdownPlan {
    match reason {
        ExitReason::Signal => ShutdownPlan::Full { consensus: true },
        ExitReason::Execution(_) => ShutdownPlan::ConsensusOnly,
        ExitReason::Consensus(_) => ShutdownPlan::Full { consensus: false },
    }
}

/// The shutdown that follows `reason`.
pub fn shutdown_plan(reason: ExitReason) -> (r: ShutdownPlan)
    ensures
        r == spec_shutdown_plan(reason),
{
    match reason {
        ExitReason::Signal => ShutdownPlan::Full { consensus: true },
        ExitReason::Execution(_) => ShutdownPlan::ConsensusOnly,
        ExitReason::Consensus(_) => ShutdownPlan::Full { consensus: false },
    }
}

/// How the execution client's end `exit` makes the node exit: any failure to join it (a
/// cancellation too) is an error.
pub open spec fn spec_execution_exit(exit: TaskExit) -> NodeExit {
    match exit {
        TaskExit::Completed => NodeExit::Clean,
        TaskExit::Failed => NodeExit::ExecutionFailed,
        TaskExit::Cancelled | TaskExit::Panicked => NodeExit::ExecutionJoinFailed,
    }
}

/// How the consensus task's end `exit` makes the node exit: a cancelled task ended as asked.
pub open spec fn spec_consensus_exit(exit: TaskExit) -> NodeExit {
    match exit {
        TaskExit::Completed | TaskExit::Cancelled => NodeExit::Clean,
        TaskExit::Failed => NodeExit::ConsensusFailed,
        TaskExit::Panicked => NodeExit::ConsensusJoinFailed,
    }
}

/// How the execution client's end `exit` makes the node exit.
pub fn execution_exit(exit: TaskExit) -> (r: NodeExit)
    ensures
        r == spec_execution_exit(exit),
{
    match exit {
        TaskExit::Completed => NodeExit::Clean,
        TaskExit::Failed => NodeExit::ExecutionFailed,
        TaskExit::Cancelled | TaskExit::Panicked => NodeExit::ExecutionJoinFailed,
    }
}

/// How the consensus task's end `exit` makes the node exit.
pub fn consensus_exit(exit: TaskExit) -> (r: NodeExit)
    ensures
        r == spec_consensus_exit(exit),
{
    match exit {
        TaskExit::Completed | TaskExit::Cancelled => NodeExit::Clean,
        TaskExit::Failed => NodeExit::ConsensusFailed,
        TaskExit::Panicked => NodeExit::ConsensusJoinFailed,
    }
}

/// How the node exits after stopping for `reason`, once its shutdown succeeded: cleanly after
/// a signal, otherwise as the task that ended says.
pub fn node_exit(reason: ExitReason) -> (r: NodeExit)
    ensures
        r == match reason {
            ExitReason::Signal => NodeExit::Clean,
            ExitReason::Execution(e) => spec_execution_exit(e),
            ExitReason::Consensus(e) => spec_consensus_exit(e),
        },
{
    match reason {
        ExitReason::Signal => NodeExit::Clean,
        ExitReason::Execution(e) => execution_exit(e),
        ExitReason::Consensus(e) => consensus_exit(e),
    }
}

/// The interval of the process metrics collector, in seconds: the configured one, at least
/// one second.
pub fn metrics_interval_secs(configured: u64) -> (r: u64)
    ensures
        r == if configured < 1 {
            1
        } else {
            configured
        },
{
    if configured < 1 {
        1
    } else {
        configured
    }
}

} // verus!
