use vstd::prelude::*;
use crate::config::ConflictPolicyEnum;
use crate::monitor::{Monitor, sat_add};

verus! {

/// The error kinds the pipeline distinguishes.
#[derive(Clone, Copy, PartialEq, Eq, Structural, Debug)]
pub enum ErrorKind {
    Config,
    ConnectionLost,
    ProtocolViolation,
    DataConversion,
    ConstraintViolation,
    Cancelled,
    CheckpointStoreFailure,
}

/// Whether a component absorbs the error with bounded backoff.
pub open spec fn spec_retriable(k: ErrorKind) -> bool {
    k == ErrorKind::ConnectionLost || k == ErrorKind::CheckpointStoreFailure
}

/// Whether the error is surfaced to the conflict policy.
pub open spec fn spec_conflict(k: ErrorKind) -> bool {
    k == ErrorKind::DataConversion || k == ErrorKind::ConstraintViolation
}

impl ErrorKind {
    /// Whether a component absorbs this error with bounded backoff.
    pub fn is_retriable(&self) -> (r: bool)
        ensures
            r == spec_retriable(*self),
    {
        match self {
            ErrorKind::ConnectionLost => true,
            ErrorKind::CheckpointStoreFailure => true,
            _ => false,
        }
    }

    /// Whether this error is surfaced to the conflict policy.
    pub fn is_conflict(&self) -> (r: bool)
        ensures
            r == spec_conflict(*self),
    {
        match self {
            ErrorKind::DataConversion => true,
            ErrorKind::ConstraintViolation => true,
            _ => false,
        }
    }
}

/// What the orchestrator is doing.
#[derive(Clone, Copy, PartialEq, Eq, Structural, Debug)]
pub enum RunState {
    Running,
    Cancelling,
    Finished,
}

/// What the orchestrator observes from its components.
#[derive(Clone, Copy, PartialEq, Eq, Structural, Debug)]
pub enum PipelineEvent {
    /// A sinker surfaced a conflict-class error.
    Conflict(ErrorKind),
    /// A component failed fatally.
    Fatal(ErrorKind),
    /// The extractor drained its source cleanly.
    SourceExhausted,
    /// The operator asked for a stop.
    CancelRequested,
}

/// What the embedding runtime must do next.
#[derive(Clone, Copy, PartialEq, Eq, Structural, Debug)]
pub enum Action {
    /// Keep the pipeline going.
    Proceed,
    /// Cancel the token, await all components and flush the monitor.
    CancelAll,
    /// Drive a final checkpoint barrier, then shut down cleanly.
    FinalizeCheckpoint,
}

/// The control core of the task runtime: it owns the decision of what
/// happens on every pipeline event, keeps the first error, and turns the
/// outcome into the process exit code. The embedding runtime performs the
/// actions it returns.
pub struct Orchestrator {
    pub policy: ConflictPolicyEnum,
    pub state: RunState,
    pub first_error: Option<ErrorKind>,
    pub monitor: Monitor,
}

impl Orchestrator {
    /// A freshly started pipeline.
    pub fn new(policy: ConflictPolicyEnum) -> (r: Orchestrator)
        ensures
            r.policy == policy,
            r.state == RunState::Running,
            r.first_error is None,
            r.monitor.conflicts == 0 && r.monitor.errors == 0,
    {
        Orchestrator { policy, state: RunState::Running, first_error: None, monitor: Monitor::new() }
    }

    /// Decides what one pipeline event means. A conflict is absorbed or
    /// halts the pipeline as the policy says; a fatal error or a cancel
    /// request always halts it; a drained source finishes cleanly. The
    /// first error is kept and later ones are suppressed.
    pub fn on_event(&mut self, ev: PipelineEvent) -> (a: Action)
        requires
            old(self).state == RunState::Running,
        ensures
            final(self).policy == old(self).policy,
            match ev {
                PipelineEvent::Conflict(k) => {
                    &&& (old(self).policy == ConflictPolicyEnum::Ignore ==> a == Action::Proceed
                        && final(self).state == RunState::Running && final(self).first_error == old(self).first_error && final(self).monitor.conflicts as int == sat_add(
                        old(self).monitor.conflicts as int,
                        1,
                    ))
                    &&& (old(self).policy == ConflictPolicyEnum::Interrupt ==> a
                        == Action::CancelAll && final(self).state == RunState::Cancelling && final(self).first_error == (if old(self).first_error is Some {
                        old(self).first_error
                    } else {
                        Some(k)
                    }))
                },
                PipelineEvent::Fatal(k) => a == Action::CancelAll && final(self).state
                    == RunState::Cancelling && final(self).first_error == (if old(self).first_error is Some {
                    old(self).first_error
                } else {
                    Some(k)
                }),
                PipelineEvent::SourceExhausted => a == Action::FinalizeCheckpoint && final(self).state == RunState::Finished && final(self).first_error == old(self).first_error,
                PipelineEvent::CancelRequested => a == Action::CancelAll && final(self).state
                    == RunState::Cancelling && final(self).first_error == (if old(self).first_error is Some {
                    old(self).first_error
                } else {
                    Some(ErrorKind::Cancelled)
                }),
            },
    {
        match ev {
            PipelineEvent::Conflict(k) => {
                let go_on = crate::monitor::settle_conflict(&self.policy, &mut self.monitor);
                if go_on {
                    Action::Proceed
                } else {
                    self.state = RunState::Cancelling;
                    if self.first_error.is_none() {
                        self.first_error = Some(k);
                    }
                    Action::CancelAll
                }
            },
            PipelineEvent::Fatal(k) => {
                self.state = RunState::Cancelling;
                if self.first_error.is_none() {
                    self.first_error = Some(k);
                }
                Action::CancelAll
            },
            PipelineEvent::SourceExhausted => {
                self.state = RunState::Finished;
                Action::FinalizeCheckpoint
            },
            PipelineEvent::CancelRequested => {
                self.state = RunState::Cancelling;
                if self.first_error.is_none() {
                    self.first_error = Some(ErrorKind::Cancelled);
                }
                Action::CancelAll
            },
        }
    }

    /// The process exit code of the finished task: zero for a clean end of
    /// stream, two for a configuration error, three for an unrecoverable
    /// source error, one for any other interruption.
    pub fn exit_code(&self) -> (r: u8)
        ensures
            r == (match self.first_error {
                None => (if self.state == RunState::Finished {
                    0u8
                } else {
                    1u8
                }),
                Some(ErrorKind::Config) => 2u8,
                Some(ErrorKind::ProtocolViolation) => 3u8,
                Some(_) => 1u8,
            }),
    {
        match &self.first_error {
            None => {
                if self.state == RunState::Finished {
                    0
                } else {
                    1
                }
            },
            Some(ErrorKind::Config) => 2,
            Some(ErrorKind::ProtocolViolation) => 3,
            Some(_) => 1,
        }
    }
}

}
