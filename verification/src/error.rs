//! Why a job fails. Each failure ends its own job and no other.

use crate::text::{i64_to_string, signed_decimal};
use vstd::prelude::*;
use vstd::string::*;

verus! {

/// Why a job failed.
#[derive(Debug)]
pub enum JobError {
    /// The encoder is not where it was said to be.
    BinaryNotFound { program: String },
    /// The encoder could not be started.
    SpawnFailure { reason: String, command: String },
    /// The encoder ended without success. `code` is its exit code, if it
    /// has one; `diagnostics` holds the lines of its output that looked
    /// like errors.
    NonZeroExit { code: Option<i32>, diagnostics: String },
    /// The output would be written over the input.
    PathCollisionUnresolved { path: String },
    /// A file was in the place of the output and could not be removed.
    PreexistingOutputRemovalFailed { path: String, reason: String },
    /// The job lacks something that a command line needs.
    InvalidConfig { reason: String },
    /// The encoder's output could not be read, or the encoder not awaited.
    StreamFailure { reason: String },
    /// The job was stopped on request.
    Cancelled,
}

/// A [`JobError`] as plain values.
pub enum JobErrorView {
    BinaryNotFound { program: Seq<char> },
    SpawnFailure { reason: Seq<char>, command: Seq<char> },
    NonZeroExit { code: Option<i32>, diagnostics: Seq<char> },
    PathCollisionUnresolved { path: Seq<char> },
    PreexistingOutputRemovalFailed { path: Seq<char>, reason: Seq<char> },
    InvalidConfig { reason: Seq<char> },
    StreamFailure { reason: Seq<char> },
    Cancelled,
}

/// How an exit status reads: the code in decimal, or `unknown` where the
/// process left none.
pub open spec fn status_text(code: Option<i32>) -> Seq<char> {
    match code {
        Some(c) => signed_decimal(c as int),
        None => "unknown"@,
    }
}

impl JobErrorView {
    /// The text that a user is shown for the failure.
    pub open spec fn message(self) -> Seq<char> {
        match self {
            JobErrorView::BinaryNotFound { program } => "Encoder not found: "@ + program,
            JobErrorView::SpawnFailure { reason, command } => "Failed to spawn ffmpeg process: "@
                + reason + "\nCommand: "@ + command,
            JobErrorView::NonZeroExit { code, diagnostics } => "ffmpeg exited with status "@
                + status_text(code) + "\nFull stderr:\n"@ + diagnostics,
            JobErrorView::PathCollisionUnresolved { path } =>
                "Input and output are the same file: "@ + path,
            JobErrorView::PreexistingOutputRemovalFailed { path, reason } =>
                "Cannot remove the existing output "@ + path + ": "@ + reason,
            JobErrorView::InvalidConfig { reason } => "Invalid config: "@ + reason,
            JobErrorView::StreamFailure { reason } => "Lost contact with ffmpeg: "@ + reason,
            JobErrorView::Cancelled => "Cancelled"@,
        }
    }
}

impl View for JobError {
    type V = JobErrorView;

    open spec fn view(&self) -> JobErrorView {
        match self {
            JobError::BinaryNotFound { program } => JobErrorView::BinaryNotFound {
                program: program@,
            },
            JobError::SpawnFailure { reason, command } => JobErrorView::SpawnFailure {
                reason: reason@,
                command: command@,
            },
            JobError::NonZeroExit { code, diagnostics } => JobErrorView::NonZeroExit {
                code: *code,
                diagnostics: diagnostics@,
            },
            JobError::PathCollisionUnresolved { path } => JobErrorView::PathCollisionUnresolved {
                path: path@,
            },
            JobError::PreexistingOutputRemovalFailed { path, reason } =>
                JobErrorView::PreexistingOutputRemovalFailed { path: path@, reason: reason@ },
            JobError::InvalidConfig { reason } => JobErrorView::InvalidConfig { reason: reason@ },
            JobError::StreamFailure { reason } => JobErrorView::StreamFailure { reason: reason@ },
            JobError::Cancelled => JobErrorView::Cancelled,
        }
    }
}

impl JobError {
    /// The text that a user is shown for the failure.
    pub fn message(&self) -> (r: String)
        ensures
            r@ == self@.message(),
    {
        match self {
            JobError::BinaryNotFound { program } => {
                let mut s = String::from_str("Encoder not found: ");
                s.append(program.as_str());
                s
            },
            JobError::SpawnFailure { reason, command } => {
                let mut s = String::from_str("Failed to spawn ffmpeg process: ");
                s.append(reason.as_str());
                s.append("\nCommand: ");
                s.append(command.as_str());
                s
            },
            JobError::NonZeroExit { code, diagnostics } => {
                let mut s = String::from_str("ffmpeg exited with status ");
                match code {
                    Some(c) => {
                        let digits = i64_to_string(*c as i64);
                        s.append(digits.as_str());
                    },
                    None => {
                        s.append("unknown");
                    },
                }
                s.append("\nFull stderr:\n");
                s.append(diagnostics.as_str());
                s
            },
            JobError::PathCollisionUnresolved { path } => {
                let mut s = String::from_str("Input and output are the same file: ");
                s.append(path.as_str());
                s
            },
            JobError::PreexistingOutputRemovalFailed { path, reason } => {
                let mut s = String::from_str("Cannot remove the existing output ");
                s.append(path.as_str());
                s.append(": ");
                s.append(reason.as_str());
                s
            },
            JobError::InvalidConfig { reason } => {
                let mut s = String::from_str("Invalid config: ");
                s.append(reason.as_str());
                s
            },
            JobError::StreamFailure { reason } => {
                let mut s = String::from_str("Lost contact with ffmpeg: ");
                s.append(reason.as_str());
                s
            },
            JobError::Cancelled => String::from_str("Cancelled"),
        }
    }
}

} // verus!
