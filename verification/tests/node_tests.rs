use base_core::node::{
    metrics_interval_secs, node_exit, shutdown_plan, ExitReason, NodeExit, ShutdownPlan, TaskExit,
};

#[test]
fn signal_stops_everything_cleanly() {
    assert_eq!(shutdown_plan(ExitReason::Signal), ShutdownPlan::Full { consensus: true });
    assert_eq!(node_exit(ExitReason::Signal), NodeExit::Clean);
}

#[test]
fn execution_exit_stops_consensus_only() {
    let reason = ExitReason::Execution(TaskExit::Failed);
    assert_eq!(shutdown_plan(reason), ShutdownPlan::ConsensusOnly);
    assert_eq!(node_exit(reason), NodeExit::ExecutionFailed);
    assert_eq!(node_exit(ExitReason::Execution(TaskExit::Completed)), NodeExit::Clean);
    assert_eq!(node_exit(ExitReason::Execution(TaskExit::Cancelled)), NodeExit::ExecutionJoinFailed);
    assert_eq!(node_exit(ExitReason::Execution(TaskExit::Panicked)), NodeExit::ExecutionJoinFailed);
}

#[test]
fn consensus_exit_stops_execution_and_tolerates_cancellation() {
    let reason = ExitReason::Consensus(TaskExit::Cancelled);
    assert_eq!(shutdown_plan(reason), ShutdownPlan::Full { consensus: false });
    assert_eq!(node_exit(reason), NodeExit::Clean);
    assert_eq!(node_exit(ExitReason::Consensus(TaskExit::Failed)), NodeExit::ConsensusFailed);
    assert_eq!(node_exit(ExitReason::Consensus(TaskExit::Panicked)), NodeExit::ConsensusJoinFailed);
}

#[test]
fn metrics_interval_is_at_least_one_second() {
    assert_eq!(metrics_interval_secs(0), 1);
    assert_eq!(metrics_interval_secs(15), 15);
}
