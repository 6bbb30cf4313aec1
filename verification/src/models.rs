//! Shared data types: the error taxonomy, the command-line argument
//! structures, and the command enumeration dispatched by `run_command`.

use vstd::prelude::*;

verus! {

/// Every failure the tool can report. A missing variable on a
/// non-persistent delete is a warning, not one of these.
#[derive(Debug, Clone, PartialEq, Eq)]
pub enum ErrorKind {
    /// The variable name is empty or holds a space; the inner text says which.
    NameValidationError(String),
    /// The variable was not found; the flag suppresses name suggestions.
    CannotFindVariable(String, bool),
    /// An underlying file operation failed, with its message.
    FileError(String),
    /// The dotenv text could not be parsed, with the parser's message.
    ParsingError(String),
    /// The persistent backend refused to record the assignment.
    CannotSetVariableGlobally(String),
    /// The persistent backend refused to remove the entry.
    CannotDeleteVariableGlobally(String),
    /// The child process could not be started.
    StartingProcessError,
    /// The child process ran and reported failure.
    ProcessFailed,
    /// A malformed input reached a store operation.
    InvalidInput(String),
}

/// The human-readable text of an error, used when reporting it.
pub open spec fn error_text(e: ErrorKind) -> Seq<char> {
    match e {
        ErrorKind::NameValidationError(m) => m@,
        ErrorKind::CannotFindVariable(k, _) => "can't find '"@ + k@ + "'"@,
        ErrorKind::FileError(m) => m@,
        ErrorKind::ParsingError(m) => m@,
        ErrorKind::CannotSetVariableGlobally(m) => "can't globally set variable: "@ + m@,
        ErrorKind::CannotDeleteVariableGlobally(m) => "can't globally delete variable: "@ + m@,
        ErrorKind::StartingProcessError => "can't start process"@,
        ErrorKind::ProcessFailed => "process failed"@,
        ErrorKind::InvalidInput(m) => m@,
    }
}

impl ErrorKind {
    /// Renders the error for the user.
    pub fn message(&self) -> (r: String)
        ensures
            r@ == error_text(*self),
    {
        match self {
            ErrorKind::NameValidationError(m) => m.clone(),
            ErrorKind::CannotFindVariable(k, _) => {
                let mut out = String::from_str("can't find '");
                out.append(k.as_str());
                out.append("'");
                out
            },
            ErrorKind::FileError(m) => m.clone(),
            ErrorKind::ParsingError(m) => m.clone(),
            ErrorKind::CannotSetVariableGlobally(m) => {
                let mut out = String::from_str("can't globally set variable: ");
                out.append(m.as_str());
                out
            },
            ErrorKind::CannotDeleteVariableGlobally(m) => {
                let mut out = String::from_str("can't globally delete variable: ");
                out.append(m.as_str());
                out
            },
            ErrorKind::StartingProcessError => String::from_str("can't start process"),
            ErrorKind::ProcessFailed => String::from_str("process failed"),
            ErrorKind::InvalidInput(m) => m.clone(),
        }
    }
}

/// Arguments of the `get` command.
#[derive(Debug, Clone)]
pub struct GetArgs {
    /// Environment variable name.
    pub key: String,
    /// Disable showing similar variables' names if the variable is not found.
    pub no_similar_names: bool,
}

/// Arguments of the `set` command.
#[derive(Debug, Clone)]
pub struct SetArgs {
    /// Environment variable name.
    pub key: String,
    /// Value for the environment variable.
    pub value: String,
    /// Process to start with the variable in scope.
    pub process: String,
}

/// Arguments of the `delete` command.
#[derive(Debug, Clone)]
pub struct DeleteArgs {
    /// Environment variable name.
    pub key: String,
    /// Process to start after the deletion.
    pub process: String,
}

/// Arguments of the `gset` command, which persists an assignment.
#[derive(Debug, Clone)]
pub struct GsetArgs {
    /// Environment variable name.
    pub key: String,
    /// Value for the environment variable.
    pub value: String,
}

/// Arguments of the `gdelete` command, which removes a persisted entry.
#[derive(Debug, Clone)]
pub struct GdeleteArgs {
    /// Environment variable name.
    pub key: String,
}

/// Arguments of the `load` command.
#[derive(Debug, Clone)]
pub struct LoadArgs {
    /// Process to start after loading.
    pub process: String,
    /// Path to the dotenv file.
    pub file: String,
}

/// Arguments of the `gload` command, which persists every loaded pair.
#[derive(Debug, Clone)]
pub struct GloadArgs {
    /// Path to the dotenv file.
    pub file: String,
}

/// The tool's commands.
#[derive(Debug, Clone)]
pub enum Commands {
    /// Prints the value of an environment variable.
    Get(GetArgs),
    /// Sets an environment variable and runs the given process.
    SetVar(SetArgs),
    /// Sets an environment variable permanently.
    Gset(GsetArgs),
    /// Deletes an environment variable and runs the given process.
    Delete(DeleteArgs),
    /// Deletes an environment variable permanently.
    Gdelete(GdeleteArgs),
    /// Loads environment variables from a dotenv file and runs a process.
    Load(LoadArgs),
    /// Loads environment variables from a dotenv file permanently.
    Gload(GloadArgs),
    /// Prints all environment variables.
    Print,
}

/// The parsed command line: one command plus the global flags.
#[derive(Debug, Clone)]
pub struct Cli {
    /// The command to run.
    pub command: Commands,
    /// Exit on any error.
    pub exit_on_error: bool,
}

} // verus!
