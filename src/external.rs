//! The external invoker: commands that name a program on the search path.

use crate::builtin::Action;
use crate::error::ShellError;
use crate::text::{copy_str, views};
use vstd::prelude::*;

verus! {

/// A copy of a list of arguments.
pub fn copy_args(args: &Vec<String>) -> (r: Vec<String>)
    ensures
        views(r@) == views(args@),
{
    let mut out: Vec<String> = Vec::new();
    let mut i: usize = 0;
    while i < args.len()
        invariant
            i <= args@.len(),
            views(out@) == views(args@.subrange(0, i as int)),
        decreases args@.len() - i,
    {
        let ghost before = out@;
        out.push(copy_str(args[i].as_str()));
        proof {
            assert(views(out@) == views(before).push(args@[i as int]@));
            assert(args@.subrange(0, i + 1) == args@.subrange(0, i as int).push(args@[i as int]));
            assert(views(args@.subrange(0, i + 1)) == views(args@.subrange(0, i as int)).push(
                args@[i as int]@,
            ));
        }
        i = i + 1;
    }
    assert(args@.subrange(0, args@.len() as int) == args@);
    out
}

/// Whether `name` is a path, to be looked up as it stands rather than on the
/// search path.
pub fn names_path(name: &str) -> (r: bool)
    ensures
        r == name@.contains('/'),
{
    let cs = crate::text::chars_of(name);
    let mut i: usize = 0;
    while i < cs.len()
        invariant
            cs@ == name@,
            i <= cs@.len(),
            forall|k: int| 0 <= k < i ==> cs@[k] != '/',
        decreases cs@.len() - i,
    {
        if cs[i] == '/' {
            return true;
        }
        i = i + 1;
    }
    false
}

/// A command that names a program found on the search path.
pub struct NonBuiltinCommand {
    pub name: String,
}

impl NonBuiltinCommand {
    /// The command for program `name`, where `found` tells whether the
    /// search path holds a program of that name; `CommandNotFound` where it
    /// does not, or where the name is empty.
    pub fn new(name: &str, found: bool) -> (r: Result<Self, ShellError>)
        ensures
            r is Ok == (found && name@.len() > 0),
            r matches Ok(c) ==> c.name@ == name@,
            r matches Err(e) ==> e matches ShellError::CommandNotFound(n) && n@ == name@,
    {
        if found && !name.is_empty() {
            Ok(NonBuiltinCommand { name: copy_str(name) })
        } else {
            Err(ShellError::CommandNotFound(copy_str(name)))
        }
    }

    /// Running the program with `args`.
    pub fn plan(&self, args: &Vec<String>) -> (r: Action)
        ensures
            r matches Action::Run(n, a) && n@ == self.name@ && views(a@) == views(args@),
    {
        Action::Run(copy_str(self.name.as_str()), copy_args(args))
    }

    /// The error for a program that the system could not start.
    pub fn spawn_failed(&self) -> (r: ShellError)
        ensures
            r matches ShellError::CommandNotFound(n) && n@ == self.name@,
    {
        ShellError::CommandNotFound(copy_str(self.name.as_str()))
    }
}

} // verus!
