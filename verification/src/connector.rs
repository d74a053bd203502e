//! The steps of a call on a connector.
//!
//! A connector runs nothing itself. It says what is to be done next, as a
//! [`Step`], and is told what came of it, as an [`Event`]: the caller looks a
//! tool up or runs a command, hands the answer back, and gets the next step,
//! until the step is [`Step::Done`].

use crate::command::{CommandSpec, CommandView};
use crate::process::{
    outcome_of, result_view, run_result, ErrorView, ProcessError, ReportView, RunReport,
};
use vstd::prelude::*;

verus! {

/// What the caller is to do next.
#[derive(Debug, PartialEq, Eq)]
pub enum Step {
    /// Find out whether the named tool is on the search path.
    FindTool(String),
    /// Run the command, write `input` (if any) to its standard input, close
    /// that, discard its standard output, and wait for it to end.
    Run { command: CommandSpec, input: Option<Vec<u8>> },
    /// Nothing: the call is over, with this result.
    Done(Result<(), ProcessError>),
}

/// A [`Step`] as mathematical values.
pub enum StepView {
    FindTool(Seq<char>),
    Run { command: CommandView, input: Option<Seq<u8>> },
    Done(Result<(), ErrorView>),
}

/// What came of a step.
#[derive(Debug, PartialEq, Eq)]
pub enum Event {
    /// The tool was looked up, and was found or not.
    ToolLookup(bool),
    /// The command was run.
    Ran(RunReport),
}

/// An [`Event`] as mathematical values.
pub enum EventView {
    ToolLookup(bool),
    Ran(ReportView),
}

impl View for Event {
    type V = EventView;

    open spec fn view(&self) -> EventView {
        match self {
            Event::ToolLookup(found) => EventView::ToolLookup(*found),
            Event::Ran(report) => EventView::Ran(report@),
        }
    }
}

/// The view of an optional byte string.
pub open spec fn bytes_view(bytes: Option<Vec<u8>>) -> Option<Seq<u8>> {
    match bytes {
        Some(b) => Some(b@),
        None => None,
    }
}

impl View for Step {
    type V = StepView;

    open spec fn view(&self) -> StepView {
        match self {
            Step::FindTool(tool) => StepView::FindTool(tool@),
            Step::Run { command, input } => StepView::Run {
                command: command@,
                input: bytes_view(*input),
            },
            Step::Done(result) => StepView::Done(result_view(*result)),
        }
    }
}

/// The step after a run: the call is over, and its result is that of the
/// run.
pub fn finish(report: RunReport) -> (step: Step)
    ensures
        step@ == StepView::Done(outcome_of(report@)),
{
    Step::Done(run_result(report))
}

} // verus!
