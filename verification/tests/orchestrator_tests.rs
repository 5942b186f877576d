use dt_core::config::ConflictPolicyEnum;
use dt_core::orchestrator::{Action, ErrorKind, Orchestrator, PipelineEvent, RunState};

#[test]
fn conflict_under_ignore_keeps_the_pipeline_running() {
    let mut o = Orchestrator::new(ConflictPolicyEnum::Ignore);
    let a = o.on_event(PipelineEvent::Conflict(ErrorKind::ConstraintViolation));
    assert_eq!(a, Action::Proceed);
    assert_eq!(o.state, RunState::Running);
    assert_eq!(o.monitor.conflicts, 1);
    assert!(o.first_error.is_none());
    // the pipeline goes on and can still finish cleanly
    let a2 = o.on_event(PipelineEvent::SourceExhausted);
    assert_eq!(a2, Action::FinalizeCheckpoint);
    assert_eq!(o.exit_code(), 0);
}

#[test]
fn conflict_under_interrupt_cancels_with_exit_code_one() {
    let mut o = Orchestrator::new(ConflictPolicyEnum::Interrupt);
    let a = o.on_event(PipelineEvent::Conflict(ErrorKind::ConstraintViolation));
    assert_eq!(a, Action::CancelAll);
    assert_eq!(o.state, RunState::Cancelling);
    assert_eq!(o.first_error, Some(ErrorKind::ConstraintViolation));
    assert_eq!(o.exit_code(), 1);
}

#[test]
fn the_first_error_is_kept_and_later_ones_suppressed() {
    let mut o = Orchestrator::new(ConflictPolicyEnum::Interrupt);
    o.on_event(PipelineEvent::Fatal(ErrorKind::ProtocolViolation));
    assert_eq!(o.first_error, Some(ErrorKind::ProtocolViolation));
    assert_eq!(o.exit_code(), 3);
}

#[test]
fn config_errors_exit_with_code_two() {
    let mut o = Orchestrator::new(ConflictPolicyEnum::Interrupt);
    o.on_event(PipelineEvent::Fatal(ErrorKind::Config));
    assert_eq!(o.exit_code(), 2);
}

#[test]
fn a_cancel_request_interrupts_cleanly() {
    let mut o = Orchestrator::new(ConflictPolicyEnum::Ignore);
    let a = o.on_event(PipelineEvent::CancelRequested);
    assert_eq!(a, Action::CancelAll);
    assert_eq!(o.first_error, Some(ErrorKind::Cancelled));
    assert_eq!(o.exit_code(), 1);
}

#[test]
fn error_kinds_classify_as_designed() {
    assert!(ErrorKind::ConnectionLost.is_retriable());
    assert!(ErrorKind::CheckpointStoreFailure.is_retriable());
    assert!(!ErrorKind::Config.is_retriable());
    assert!(ErrorKind::DataConversion.is_conflict());
    assert!(ErrorKind::ConstraintViolation.is_conflict());
    assert!(!ErrorKind::ProtocolViolation.is_conflict());
}
