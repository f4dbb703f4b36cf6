//! What collaborators report to the engine, and what the engine asks of them.
use vstd::prelude::*;
use crate::error::{AppError, ErrorV};
use crate::example::{Example, ExampleId, ExpressionExample};

verus! {

/// Work for the collaborator that runs interactive sessions.
pub enum ReplCommand {
    Spawn(ExampleId),
    /// Write this exact text to the session.
    Query(ExampleId, String),
    Kill(ExampleId),
}

/// How an evaluation ended.
pub struct ExpressionOutput {
    pub success: bool,
    pub stderr: Vec<u8>,
}

/// Reports of the session collaborator; a failure carries its message.
pub enum ReplEvent {
    Spawn(Result<ExampleId, String>),
    Query(ExampleId, String, Result<(), String>),
    Kill(Result<ExampleId, String>),
    /// One byte of a session's output.
    Read(ExampleId, Result<u8, String>),
}

/// Reports of the evaluation collaborator; a failure carries its message.
pub enum ExpressionEvent {
    Spawn(Result<ExampleId, String>),
    Output(Result<(ExampleId, ExpressionOutput), String>),
}

pub enum InputEvent {
    Example(Example),
    ReplEvent(ReplEvent),
    ExpressionEvent(ExpressionEvent),
    /// A status line that was queued has been written.
    Eprintlned,
}

pub enum OutputEvent {
    ReplCommand(ReplCommand),
    /// Evaluate this example's expression.
    ExpressionCommand(ExpressionExample),
    /// Write this status line.
    Eprintln(Vec<u8>),
    /// The run is over, with this outcome.
    Done(Result<(), AppError>),
}

/// A command with its buffers seen as sequences.
pub enum OutputV {
    ReplCommand(ReplCommand),
    ExpressionCommand(ExpressionExample),
    Eprintln(Seq<u8>),
    Done(Result<(), ErrorV>),
}

impl View for OutputEvent {
    type V = OutputV;

    open spec fn view(&self) -> OutputV {
        match self {
            OutputEvent::ReplCommand(c) => OutputV::ReplCommand(*c),
            OutputEvent::ExpressionCommand(e) => OutputV::ExpressionCommand(*e),
            OutputEvent::Eprintln(l) => OutputV::Eprintln(l@),
            OutputEvent::Done(Ok(())) => OutputV::Done(Ok(())),
            OutputEvent::Done(Err(e)) => OutputV::Done(Err(e@)),
        }
    }
}

/// Each command seen as its view.
pub open spec fn views(v: Seq<OutputEvent>) -> Seq<OutputV> {
    v.map_values(|o: OutputEvent| o@)
}

/// A handler's outcome seen through views.
pub open spec fn outcome(r: Result<Vec<OutputEvent>, AppError>) -> Result<Seq<OutputV>, ErrorV> {
    match r {
        Ok(v) => Ok(views(v@)),
        Err(e) => Err(e@),
    }
}

/// No command in `o` ends the run.
pub open spec fn no_signal(o: Seq<OutputV>) -> bool {
    forall|i: int| 0 <= i < o.len() ==> !(#[trigger] o[i] is Done)
}

} // verus!
