//! The command resolver: a name decides between the builtins and the
//! programs on the search path, builtins first.

use crate::builtin::{builtin_named, is_builtin_name, planned, Action, BuiltinCommand};
use crate::error::ShellError;
use crate::external::copy_args;
use crate::history::ShellHistory;
use crate::shell::Shell;
use crate::text::{copy_str, views};
use vstd::prelude::*;

verus! {

/// What resolving command `name` with arguments `args` asks for, given the
/// history records `e`: the builtin's plan where `name` names one, running a
/// program otherwise, and `CommandNotFound` for an empty name.
pub open spec fn dispatched(
    name: Seq<char>,
    args: Seq<Seq<char>>,
    e: Seq<Seq<char>>,
    r: Result<Action, ShellError>,
) -> bool {
    if is_builtin_name(name) {
        planned(builtin_named(name)->0, args, e, r)
    } else if name.len() == 0 {
        r matches Err(ShellError::CommandNotFound(n)) && n@.len() == 0
    } else {
        r matches Ok(Action::Run(n, a)) && n@ == name && views(a@) == args
    }
}

/// A command that can be carried out in a session.
pub trait Execute {
    /// Whether `r` is what the command asks for, given its arguments and the
    /// session's history records `e`.
    spec fn expected(
        &self,
        args: Seq<Seq<char>>,
        e: Seq<Seq<char>>,
        r: Result<Action, ShellError>,
    ) -> bool;

    /// The line that the history records for the command with `args`.
    spec fn record(&self, args: Seq<Seq<char>>) -> Seq<char>;

    /// Works out what the command asks for and holds its line for the
    /// history until the session hears how it went.
    fn execute(&self, args: &Vec<String>, shell: &mut Shell) -> (r: Result<Action, ShellError>)
        ensures
            self.expected(views(args@), old(shell).store()@, r),
            final(shell).store() == old(shell).store(),
            final(shell).pending_record() == if r is Ok {
                Some(self.record(views(args@)))
            } else {
                None
            },
    ;
}

/// A command named by the user, not yet resolved.
pub struct Cmd {
    pub name: String,
}

impl Cmd {
    /// The command named `name`.
    pub fn new(name: &str) -> (r: Cmd)
        ensures
            r.name@ == name@,
    {
        Cmd { name: copy_str(name) }
    }

    /// What the command asks for: the builtin's plan where the name is a
    /// builtin's, whatever the search path holds; running the program
    /// otherwise.
    pub fn plan(&self, args: &Vec<String>, history: &ShellHistory) -> (r: Result<
        Action,
        ShellError,
    >)
        ensures
            dispatched(self.name@, views(args@), history@, r),
    {
        let name = self.name.as_str();
        if crate::builtin::check_builtin_existance(name) {
            match BuiltinCommand::new(name) {
                Ok(c) => c.plan(args, history),
                Err(e) => Err(e),
            }
        } else if name.is_empty() {
            Err(ShellError::CommandNotFound(copy_str(name)))
        } else {
            Ok(Action::Run(copy_str(name), copy_args(args)))
        }
    }
}

/// A name is dispatched one way only: to its builtin where it names one, and
/// then never to a program of the same name; to a program otherwise.
pub proof fn lemma_dispatch_exclusive(
    name: Seq<char>,
    args: Seq<Seq<char>>,
    e: Seq<Seq<char>>,
    r: Result<Action, ShellError>,
)
    requires
        dispatched(name, args, e, r),
    ensures
        is_builtin_name(name) ==> !(r matches Ok(Action::Run(_, _))),
        !is_builtin_name(name) && name.len() > 0 ==> r matches Ok(Action::Run(_, _)),
{
}

} // verus!
