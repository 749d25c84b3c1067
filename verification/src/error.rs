//! The ways a run can fail before or instead of its command.

use crate::quote::{quote_arguments, quoted_list};
use vstd::prelude::*;

verus! {

/// A failure of the tool itself, as opposed to a failure that the command
/// reports through its own exit code.
#[derive(Debug, PartialEq, Eq)]
pub enum Error {
    /// Inference was asked for together with an explicit dependency list.
    InferWithDependencies,
    /// No command was given.
    MissingCommand,
    /// Inference found no accessible path among the command's arguments.
    NoInferableDependency { arguments: Vec<String> },
    /// The metadata of a declared dependency could not be read.
    UnreadableDependency { path: String, cause: String },
    /// The command could not be started.
    CommandNotFound { program: String },
}

/// An error as plain values.
pub enum ErrorView {
    InferWithDependencies,
    MissingCommand,
    NoInferableDependency { arguments: Seq<Seq<char>> },
    UnreadableDependency { path: Seq<char>, cause: Seq<char> },
    CommandNotFound { program: Seq<char> },
}

impl ErrorView {
    /// Whether the command line itself was at fault.
    pub open spec fn is_usage(self) -> bool {
        self is InferWithDependencies || self is MissingCommand
    }

    /// The text shown to the user.
    pub open spec fn message(self) -> Seq<char> {
        match self {
            ErrorView::InferWithDependencies =>
                "--infer cannot be used with explicit dependencies"@,
            ErrorView::MissingCommand => "a command to execute is required"@,
            ErrorView::NoInferableDependency { arguments } =>
                "--infer must find at least one accessible file in command arguments. "@
                    + "Command arguments are: "@ + quoted_list(arguments),
            ErrorView::UnreadableDependency { path, cause } =>
                path + ": Could not read file metadata: "@ + cause,
            ErrorView::CommandNotFound { program } => program + ": command not found"@,
        }
    }

    /// The exit code of a run that ends with this error: 2 for a usage
    /// error, 1 for every other.
    pub open spec fn exit_code(self) -> int {
        if self.is_usage() {
            2
        } else {
            1
        }
    }
}

impl View for Error {
    type V = ErrorView;

    open spec fn view(&self) -> ErrorView {
        match self {
            Error::InferWithDependencies => ErrorView::InferWithDependencies,
            Error::MissingCommand => ErrorView::MissingCommand,
            Error::NoInferableDependency { arguments } => ErrorView::NoInferableDependency {
                arguments: arguments.deep_view(),
            },
            Error::UnreadableDependency { path, cause } => ErrorView::UnreadableDependency {
                path: path@,
                cause: cause@,
            },
            Error::CommandNotFound { program } => ErrorView::CommandNotFound { program: program@ },
        }
    }
}

/// A result as plain values: what it holds on success, or its error.
pub open spec fn result_view<T: DeepView>(result: Result<T, Error>) -> Result<T::V, ErrorView> {
    match result {
        Ok(value) => Ok(value.deep_view()),
        Err(error) => Err(error@),
    }
}

impl Error {
    /// The text shown to the user.
    pub fn message(&self) -> (text: String)
        ensures
            text@ == self@.message(),
    {
        match self {
            Error::InferWithDependencies => {
                String::from_str("--infer cannot be used with explicit dependencies")
            },
            Error::MissingCommand => String::from_str("a command to execute is required"),
            Error::NoInferableDependency { arguments } => {
                let list = quote_arguments(arguments.as_slice());
                String::from_str(
                    "--infer must find at least one accessible file in command arguments. ",
                ).concat("Command arguments are: ").concat(list.as_str())
            },
            Error::UnreadableDependency { path, cause } => {
                path.clone().concat(": Could not read file metadata: ").concat(cause.as_str())
            },
            Error::CommandNotFound { program } => program.clone().concat(": command not found"),
        }
    }

    /// The exit code of a run that ends with this error. It is never 0.
    pub fn exit_code(&self) -> (code: i32)
        ensures
            code == self@.exit_code(),
            code != 0,
    {
        match self {
            Error::InferWithDependencies | Error::MissingCommand => 2,
            _ => 1,
        }
    }
}

} // verus!
