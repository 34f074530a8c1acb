//! The failures that commands report.

use crate::text::push_str;
use vstd::prelude::*;

verus! {

/// A failure of a command; the interpreter reports it and goes on.
#[derive(Debug)]
pub enum ShellError {
    /// A builtin command was asked for by a name that is not a builtin's.
    NotBuiltin(String),
    /// Dispatch reached a builtin command whose name is not a builtin's.
    UnknownBuiltin(String),
    /// The name given is neither a builtin nor a program on the search path,
    /// or the program could not be started.
    CommandNotFound(String),
    /// The arguments do not fit the command; the text says why.
    InvalidArguments(String),
    /// The home directory could not be determined.
    NoHomeDirectory,
    /// The operating system refused an operation; the text is its report.
    IoError(String),
}

/// The text by which an error is reported.
pub open spec fn message_of(e: ShellError) -> Seq<char> {
    match e {
        ShellError::NotBuiltin(n) => n@ + ": not a builtin command"@,
        ShellError::UnknownBuiltin(n) => "Erreur Executing Command: "@ + n@,
        ShellError::CommandNotFound(n) => n@ + ": command not found"@,
        ShellError::InvalidArguments(m) => m@,
        ShellError::NoHomeDirectory => "Home Directory not Found"@,
        ShellError::IoError(m) => m@,
    }
}

impl ShellError {
    /// The text by which the error is reported.
    pub fn message(&self) -> (r: String)
        ensures
            r@ == message_of(*self),
    {
        let mut s = String::new();
        match self {
            ShellError::NotBuiltin(n) => {
                push_str(&mut s, n.as_str());
                push_str(&mut s, ": not a builtin command");
            },
            ShellError::UnknownBuiltin(n) => {
                push_str(&mut s, "Erreur Executing Command: ");
                push_str(&mut s, n.as_str());
            },
            ShellError::CommandNotFound(n) => {
                push_str(&mut s, n.as_str());
                push_str(&mut s, ": command not found");
            },
            ShellError::InvalidArguments(m) => {
                push_str(&mut s, m.as_str());
            },
            ShellError::NoHomeDirectory => {
                push_str(&mut s, "Home Directory not Found");
            },
            ShellError::IoError(m) => {
                push_str(&mut s, m.as_str());
            },
        }
        s
    }
}

} // verus!
