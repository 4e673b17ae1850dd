//! The ways an operation of the pipeline can fail.

use crate::command::{
    command_line_of, Action, ActionView, Event, EventView, Invocation, InvocationView,
};
use vstd::prelude::*;

verus! {

/// Why an operation stopped. Nothing is retried and nothing is recovered: the
/// first failure ends the operation.
#[derive(Debug, Clone, PartialEq, Eq)]
pub enum NdkError {
    /// A tool exited with a status other than zero. Holds the invocation, so
    /// that it can be shown and repeated.
    ToolInvocationFailed(Invocation),
    /// A file that an operation needs is not there.
    PathNotFound(String),
    /// A filesystem operation failed; holds the operating system's message.
    IoError(String),
    /// A filesystem operation on the given path failed; holds the path and
    /// the operating system's message.
    IoPathError(String, String),
    /// The device listed no package of exactly this name.
    PackageNotInOutput { package: String, output: String },
    /// The device listed the package without a numeric id.
    UidNotInOutput(String),
    /// What the device listed as the package's numeric id is no unsigned
    /// number; holds that text.
    NotAUid(String),
}

pub enum NdkErrorView {
    ToolInvocationFailed(InvocationView),
    PathNotFound(Seq<char>),
    IoError(Seq<char>),
    IoPathError(Seq<char>, Seq<char>),
    PackageNotInOutput { package: Seq<char>, output: Seq<char> },
    UidNotInOutput(Seq<char>),
    NotAUid(Seq<char>),
}

impl View for NdkError {
    type V = NdkErrorView;

    open spec fn view(&self) -> NdkErrorView {
        match self {
            NdkError::ToolInvocationFailed(invocation) => NdkErrorView::ToolInvocationFailed(
                invocation@,
            ),
            NdkError::PathNotFound(path) => NdkErrorView::PathNotFound(path@),
            NdkError::IoError(message) => NdkErrorView::IoError(message@),
            NdkError::IoPathError(path, message) => NdkErrorView::IoPathError(path@, message@),
            NdkError::PackageNotInOutput { package, output } => NdkErrorView::PackageNotInOutput {
                package: package@,
                output: output@,
            },
            NdkError::UidNotInOutput(output) => NdkErrorView::UidNotInOutput(output@),
            NdkError::NotAUid(text) => NdkErrorView::NotAUid(text@),
        }
    }
}

/// What the user is told about an error. A tool that failed is named with
/// all its arguments, so that the run can be repeated by hand.
pub open spec fn message_of(error: NdkErrorView) -> Seq<char> {
    match error {
        NdkErrorView::ToolInvocationFailed(invocation) => "Command `"@ + command_line_of(
            invocation,
        ) + "` had a non-zero exit code."@,
        NdkErrorView::PathNotFound(path) => "Path `"@ + path + "` doesn't exist."@,
        NdkErrorView::IoError(message) => message,
        NdkErrorView::IoPathError(path, message) => "IoError on `"@ + path + "`: "@ + message,
        NdkErrorView::PackageNotInOutput { package, output } => "Could not find `package:"@
            + package + "` in output `"@ + output + "`"@,
        NdkErrorView::UidNotInOutput(output) => "Could not find `uid:` in output `"@ + output
            + "`"@,
        NdkErrorView::NotAUid(text) => "Could not parse `"@ + text + "` as uid"@,
    }
}

impl NdkError {
    /// What the user is told about the error.
    pub fn message(&self) -> (message: String)
        ensures
            message@ == message_of(self@),
    {
        match self {
            NdkError::ToolInvocationFailed(invocation) => {
                let mut message = String::from_str("Command `");
                message.append(invocation.command_line().as_str());
                message.append("` had a non-zero exit code.");
                message
            },
            NdkError::PathNotFound(path) => {
                let mut message = String::from_str("Path `");
                message.append(path.as_str());
                message.append("` doesn't exist.");
                message
            },
            NdkError::IoError(message) => message.clone(),
            NdkError::IoPathError(path, cause) => {
                let mut message = String::from_str("IoError on `");
                message.append(path.as_str());
                message.append("`: ");
                message.append(cause.as_str());
                message
            },
            NdkError::PackageNotInOutput { package, output } => {
                let mut message = String::from_str("Could not find `package:");
                message.append(package.as_str());
                message.append("` in output `");
                message.append(output.as_str());
                message.append("`");
                message
            },
            NdkError::UidNotInOutput(output) => {
                let mut message = String::from_str("Could not find `uid:` in output `");
                message.append(output.as_str());
                message.append("`");
                message
            },
            NdkError::NotAUid(text) => {
                let mut message = String::from_str("Could not parse `");
                message.append(text.as_str());
                message.append("` as uid");
                message
            },
        }
    }
}

/// A result as contracts see it: what it holds on success, the view of the
/// error otherwise.
pub open spec fn result_view<T>(result: Result<T, NdkError>) -> Result<T, NdkErrorView> {
    match result {
        Ok(value) => Ok(value),
        Err(error) => Err(error@),
    }
}

/// The error that ends a job when `action` did not succeed and `event` tells
/// how.
///
/// A tool that exits with a failure status is reported with its invocation,
/// a file that is not there with its path. Whatever the operating system
/// refused is reported with its message; an action that has no answer but
/// success, reported as `Failed`, counts as refused without a message.
pub open spec fn failure_of(action: ActionView, event: EventView) -> NdkErrorView {
    match event {
        EventView::Io(message) => NdkErrorView::IoError(message),
        _ => match action {
            ActionView::Run(invocation) => NdkErrorView::ToolInvocationFailed(invocation),
            ActionView::RequireFile(path) => NdkErrorView::PathNotFound(path),
            _ => NdkErrorView::IoError(Seq::empty()),
        },
    }
}

/// The error that ends a job when `action` did not succeed and `event` tells
/// how.
pub fn failure(action: Action, event: Event) -> (error: NdkError)
    ensures
        error@ == failure_of(action@, event@),
{
    match event {
        Event::Io(message) => NdkError::IoError(message),
        _ => match action {
            Action::Run(invocation) => NdkError::ToolInvocationFailed(invocation),
            Action::RequireFile(path) => NdkError::PathNotFound(path),
            _ => NdkError::IoError(String::new()),
        },
    }
}

} // verus!
