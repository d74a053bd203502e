//! What running a command comes to: the report of the run, and the result
//! that the caller gets for it.

use vstd::prelude::*;

verus! {

/// How a process ended.
#[derive(Debug, PartialEq, Eq)]
pub struct ProcessOutcome {
    /// The process exited with status zero.
    pub succeeded: bool,
    /// The exit status in the system's words.
    pub diagnostic: String,
}

/// What the runner saw of one command.
#[derive(Debug, PartialEq, Eq)]
pub enum RunReport {
    /// The system did not start the process; the text is its reason.
    SpawnFailed(String),
    /// The process was started and has ended.
    Exited {
        outcome: ProcessOutcome,
        /// The input could not be written to the process in full. This is
        /// recorded and is no failure by itself: a process that ends early
        /// closes its input, and its exit status tells why.
        input_failed: bool,
    },
}

/// Why a call on a connector failed.
#[derive(Debug, PartialEq, Eq)]
pub enum ProcessError {
    /// The named tool is not on the search path.
    ToolNotFound(String),
    /// The process could not be started.
    SpawnFailed(String),
    /// The process ended with a status other than zero, or was killed.
    ProcessFailed(String),
}

/// A [`RunReport`] as mathematical values.
pub enum ReportView {
    SpawnFailed(Seq<char>),
    Exited { succeeded: bool, diagnostic: Seq<char>, input_failed: bool },
}

/// A [`ProcessError`] as mathematical values.
pub enum ErrorView {
    ToolNotFound(Seq<char>),
    SpawnFailed(Seq<char>),
    ProcessFailed(Seq<char>),
}

impl View for RunReport {
    type V = ReportView;

    open spec fn view(&self) -> ReportView {
        match self {
            RunReport::SpawnFailed(reason) => ReportView::SpawnFailed(reason@),
            RunReport::Exited { outcome, input_failed } => ReportView::Exited {
                succeeded: outcome.succeeded,
                diagnostic: outcome.diagnostic@,
                input_failed: *input_failed,
            },
        }
    }
}

impl View for ProcessError {
    type V = ErrorView;

    open spec fn view(&self) -> ErrorView {
        match self {
            ProcessError::ToolNotFound(tool) => ErrorView::ToolNotFound(tool@),
            ProcessError::SpawnFailed(reason) => ErrorView::SpawnFailed(reason@),
            ProcessError::ProcessFailed(status) => ErrorView::ProcessFailed(status@),
        }
    }
}

/// The view of a call's result.
pub open spec fn result_view(result: Result<(), ProcessError>) -> Result<(), ErrorView> {
    match result {
        Ok(()) => Ok(()),
        Err(e) => Err(e@),
    }
}

/// The result of a run: success for an exit with status zero and for nothing
/// else. Whether the input could be written plays no part.
pub open spec fn outcome_of(report: ReportView) -> Result<(), ErrorView> {
    match report {
        ReportView::SpawnFailed(reason) => Err(ErrorView::SpawnFailed(reason)),
        ReportView::Exited { succeeded, diagnostic, input_failed } => if succeeded {
            Ok(())
        } else {
            Err(ErrorView::ProcessFailed(diagnostic))
        },
    }
}

/// The text of an error.
pub open spec fn message_of(error: ErrorView) -> Seq<char> {
    match error {
        ErrorView::ToolNotFound(tool) => "cannot find '"@ + tool + "' binary in path"@,
        ErrorView::SpawnFailed(reason) => reason,
        ErrorView::ProcessFailed(status) => "command error: \""@ + status + "\""@,
    }
}

/// The report of a process that exited with status zero.
pub open spec fn is_success(report: ReportView) -> bool {
    report matches ReportView::Exited { succeeded, .. } && succeeded
}

/// A failure for which the blame lies with a process: it could not be
/// started, or it did not exit with status zero.
pub open spec fn is_run_failure(result: Result<(), ErrorView>) -> bool {
    result matches Err(error) && (error is SpawnFailed || error is ProcessFailed)
}

/// A run succeeds if and only if the process exited with status zero. Every
/// other run fails as a spawn failure or as a process failure, never as a
/// missing tool, and a process failure carries the reported exit status.
pub proof fn lemma_outcome(report: ReportView)
    ensures
        outcome_of(report) is Ok <==> is_success(report),
        outcome_of(report) is Err <==> is_run_failure(outcome_of(report)),
        outcome_of(report) matches Err(error) ==> match report {
            ReportView::SpawnFailed(reason) => error == ErrorView::SpawnFailed(reason),
            ReportView::Exited { diagnostic, .. } => error == ErrorView::ProcessFailed(diagnostic),
        },
{
}

/// Whether the input could be written in full has no part in the result.
pub proof fn lemma_input_failure_is_ignored(succeeded: bool, diagnostic: Seq<char>)
    ensures
        outcome_of(ReportView::Exited { succeeded, diagnostic, input_failed: true }) == outcome_of(
            ReportView::Exited { succeeded, diagnostic, input_failed: false },
        ),
{
}

/// Turns the report of a run into the result of the call that asked for it.
pub fn run_result(report: RunReport) -> (result: Result<(), ProcessError>)
    ensures
        result_view(result) == outcome_of(report@),
{
    match report {
        RunReport::SpawnFailed(reason) => Err(ProcessError::SpawnFailed(reason)),
        RunReport::Exited { outcome, input_failed: _ } => {
            if outcome.succeeded {
                Ok(())
            } else {
                Err(ProcessError::ProcessFailed(outcome.diagnostic))
            }
        },
    }
}

impl ProcessError {
    /// The error in words, for the caller to show.
    pub fn message(&self) -> (text: String)
        ensures
            text@ == message_of(self@),
    {
        match self {
            ProcessError::ToolNotFound(tool) => {
                let mut text = String::from_str("cannot find '");
                text.append(tool.as_str());
                text.append("' binary in path");
                text
            },
            ProcessError::SpawnFailed(reason) => reason.clone(),
            ProcessError::ProcessFailed(status) => {
                let mut text = String::from_str("command error: \"");
                text.append(status.as_str());
                text.append("\"");
                text
            },
        }
    }
}

} // verus!
