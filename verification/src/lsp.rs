//! What the language server decides: the actions it offers on a pine, and what it reports
//! after asking the editor to change a document.
use vstd::prelude::*;

verus! {

/// The command that runs the pine under the cursor.
pub const PINE_EXEC_COMMAND: &'static str = "pine.exec";

/// The title of the action that runs a pine.
pub const RUN_PINE_TITLE: &'static str = "Run pine";

/// What running a pine inserts below it, for now.
pub const PINE_EXEC_OUTPUT: &'static str = "new text here\n";

/// How an edit the server asked for went.
pub enum EditOutcome {
    Applied,
    Rejected,
    /// The editor could not be asked; holds what went wrong.
    Failed(String),
}

/// How much a log message matters.
#[derive(Debug, Clone, Copy, PartialEq, Eq)]
pub enum LogLevel {
    Info,
    Error,
}

/// What the server logs after an edit.
pub fn edit_outcome_message(outcome: EditOutcome) -> (r: (LogLevel, String))
    ensures
        match outcome {
            EditOutcome::Applied => r.0 == LogLevel::Info && r.1@ == "applied"@,
            EditOutcome::Rejected => r.0 == LogLevel::Info && r.1@ == "rejected"@,
            EditOutcome::Failed(e) => r.0 == LogLevel::Error && r.1@ == e@,
        },
{
    match outcome {
        EditOutcome::Applied => (LogLevel::Info, String::from_str("applied")),
        EditOutcome::Rejected => (LogLevel::Info, String::from_str("rejected")),
        EditOutcome::Failed(e) => (LogLevel::Error, e),
    }
}

/// The line that a pine's output goes on: the one after the pine's line, which the editor
/// gives as a number that is cut to 32 bits.
pub fn output_line(pine_line: u64) -> (r: u32)
    requires
        (pine_line as u32) < u32::MAX,
    ensures
        r == (pine_line as u32) + 1,
{
    (pine_line as u32) + 1
}

} // verus!
