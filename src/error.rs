//! Why a run failed.
use vstd::prelude::*;
use crate::example::ExampleId;

verus! {

/// Every failure is fatal for the whole run.
pub enum AppError {
    /// Two examples resolved to one identifier.
    DuplicateId(ExampleId),
    /// No example with this identifier is in the table.
    NotFound(ExampleId),
    /// The example is not an interactive one.
    NotRepl(ExampleId),
    /// The example is not an evaluation.
    NotExpression(ExampleId),
    /// A session was reported spawned while not awaiting its spawn.
    UnexpectedSpawn(ExampleId),
    /// An evaluation was reported spawned twice.
    AlreadySpawned(ExampleId),
    /// Output arrived for a session that is not running.
    NotLive(ExampleId),
    /// A byte arrived while nothing was expected.
    UnexpectedOutput(u8),
    /// Session output that is not well-formed text once styling is removed.
    InvalidText(Vec<u8>),
    /// The echoed line (as read) differs from the query that was sent.
    EchoMismatch { actual: Vec<u8>, expected: String },
    /// The result block (sanitized) differs from the documented result.
    ResultMismatch { id: ExampleId, actual: Vec<u8>, expected: String },
    /// An evaluation exited unsuccessfully; its error output is kept.
    EvaluationFailed { id: ExampleId, stderr: Vec<u8> },
    /// A collaborator failed (spawn, read, write); its message is kept.
    Upstream(String),
    /// More status lines acknowledged than were queued.
    CounterUnderflow,
}

/// An error with its byte buffers seen as sequences.
pub enum ErrorV {
    DuplicateId(ExampleId),
    NotFound(ExampleId),
    NotRepl(ExampleId),
    NotExpression(ExampleId),
    UnexpectedSpawn(ExampleId),
    AlreadySpawned(ExampleId),
    NotLive(ExampleId),
    UnexpectedOutput(u8),
    InvalidText(Seq<u8>),
    EchoMismatch { actual: Seq<u8>, expected: String },
    ResultMismatch { id: ExampleId, actual: Seq<u8>, expected: String },
    EvaluationFailed { id: ExampleId, stderr: Seq<u8> },
    Upstream(String),
    CounterUnderflow,
}

impl View for AppError {
    type V = ErrorV;

    open spec fn view(&self) -> ErrorV {
        match self {
            AppError::DuplicateId(id) => ErrorV::DuplicateId(*id),
            AppError::NotFound(id) => ErrorV::NotFound(*id),
            AppError::NotRepl(id) => ErrorV::NotRepl(*id),
            AppError::NotExpression(id) => ErrorV::NotExpression(*id),
            AppError::UnexpectedSpawn(id) => ErrorV::UnexpectedSpawn(*id),
            AppError::AlreadySpawned(id) => ErrorV::AlreadySpawned(*id),
            AppError::NotLive(id) => ErrorV::NotLive(*id),
            AppError::UnexpectedOutput(b) => ErrorV::UnexpectedOutput(*b),
            AppError::InvalidText(t) => ErrorV::InvalidText(t@),
            AppError::EchoMismatch { actual, expected } => ErrorV::EchoMismatch {
                actual: actual@,
                expected: *expected,
            },
            AppError::ResultMismatch { id, actual, expected } => ErrorV::ResultMismatch {
                id: *id,
                actual: actual@,
                expected: *expected,
            },
            AppError::EvaluationFailed { id, stderr } => ErrorV::EvaluationFailed {
                id: *id,
                stderr: stderr@,
            },
            AppError::Upstream(m) => ErrorV::Upstream(*m),
            AppError::CounterUnderflow => ErrorV::CounterUnderflow,
        }
    }
}

impl AppError {
    /// A copy with the same content.
    pub fn duplicate(&self) -> (r: Self)
        ensures
            r@ == self@,
    {
        match self {
            AppError::DuplicateId(id) => AppError::DuplicateId(id.duplicate()),
            AppError::NotFound(id) => AppError::NotFound(id.duplicate()),
            AppError::NotRepl(id) => AppError::NotRepl(id.duplicate()),
            AppError::NotExpression(id) => AppError::NotExpression(id.duplicate()),
            AppError::UnexpectedSpawn(id) => AppError::UnexpectedSpawn(id.duplicate()),
            AppError::AlreadySpawned(id) => AppError::AlreadySpawned(id.duplicate()),
            AppError::NotLive(id) => AppError::NotLive(id.duplicate()),
            AppError::UnexpectedOutput(b) => AppError::UnexpectedOutput(*b),
            AppError::InvalidText(t) => AppError::InvalidText(t.clone()),
            AppError::EchoMismatch { actual, expected } => AppError::EchoMismatch {
                actual: actual.clone(),
                expected: expected.clone(),
            },
            AppError::ResultMismatch { id, actual, expected } => AppError::ResultMismatch {
                id: id.duplicate(),
                actual: actual.clone(),
                expected: expected.clone(),
            },
            AppError::EvaluationFailed { id, stderr } => AppError::EvaluationFailed {
                id: id.duplicate(),
                stderr: stderr.clone(),
            },
            AppError::Upstream(m) => AppError::Upstream(m.clone()),
            AppError::CounterUnderflow => AppError::CounterUnderflow,
        }
    }
}

} // verus!
