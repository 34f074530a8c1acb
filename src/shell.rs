//! The interpreter session: it turns a line into what must be done, and
//! records the line in the history once that has been done without failure.

use crate::builtin::{Action, BuiltinCommand, builtin_named, planned};
use crate::cmd::{Cmd, Execute, dispatched};
use crate::error::ShellError;
use crate::external::NonBuiltinCommand;
use crate::history::{ShellHistory, last_n, HISTORY_MAX};
use crate::text::{
    copy_str, has_white, is_white_spec, join, join_words, split_at_white, split_words, views, words,
};
use vstd::prelude::*;

verus! {

/// The line recorded for command `name` with arguments `args`.
pub open spec fn record_of(name: Seq<char>, args: Seq<Seq<char>>) -> Seq<char> {
    join_words(seq![name] + args)
}

/// The line recorded for `name` and `args`.
fn record_line(name: &str, args: &Vec<String>) -> (r: String)
    ensures
        r@ == record_of(name@, views(args@)),
{
    let mut parts: Vec<String> = Vec::new();
    parts.push(copy_str(name));
    let mut i: usize = 0;
    while i < args.len()
        invariant
            i <= args@.len(),
            views(parts@) == seq![name@] + views(args@.subrange(0, i as int)),
        decreases args@.len() - i,
    {
        let ghost before = parts@;
        parts.push(copy_str(args[i].as_str()));
        proof {
            assert(views(parts@) == views(before).push(args@[i as int]@));
            assert(args@.subrange(0, i + 1) == args@.subrange(0, i as int).push(args@[i as int]));
            assert(views(args@.subrange(0, i + 1)) == views(args@.subrange(0, i as int)).push(
                args@[i as int]@,
            ));
        }
        i = i + 1;
    }
    assert(args@.subrange(0, args@.len() as int) == args@);
    join(&parts)
}

/// An interpreter session: its history, and the line of the command under
/// way, recorded once the command has been carried out.
pub struct Shell {
    history: ShellHistory,
    pending: Option<String>,
}

impl Shell {
    /// The session's history.
    pub closed spec fn store(&self) -> ShellHistory {
        self.history
    }

    /// The line of the command under way, if any.
    pub closed spec fn pending_record(&self) -> Option<Seq<char>> {
        match self.pending {
            Some(s) => Some(s@),
            None => None,
        }
    }

    /// A session with an empty history.
    pub fn new() -> (r: Self)
        ensures
            r.store()@ == Seq::<Seq<char>>::empty(),
            r.store().max_len() == HISTORY_MAX,
            r.pending_record() is None,
    {
        Shell { history: ShellHistory::new(), pending: None }
    }

    /// The session's history.
    pub fn history(&self) -> (r: &ShellHistory)
        ensures
            *r == self.store(),
    {
        &self.history
    }

    /// The session's history, to change.
    pub fn history_mut(&mut self) -> (r: &mut ShellHistory)
        ensures
            *r == old(self).store(),
            final(self).store() == *final(r),
            final(self).pending_record() == old(self).pending_record(),
    {
        &mut self.history
    }

    /// The whitespace-separated words of `args`.
    pub fn parse_args(&self, args: &str) -> (r: Vec<String>)
        ensures
            views(r@) == words(args@),
    {
        split_words(args)
    }

    /// `input` split at its first whitespace character into a command name
    /// and the rest; all of it and an empty rest where it holds none.
    pub fn parse_input(&self, input: &str) -> (r: (String, String))
        ensures
            has_white(input@) ==> {
                &&& r.0@.len() < input@.len()
                &&& is_white_spec(input@[r.0@.len() as int])
                &&& r.0@ + seq![input@[r.0@.len() as int]] + r.1@ == input@
                &&& !has_white(r.0@)
            },
            !has_white(input@) ==> r.0@ == input@ && r.1@.len() == 0,
    {
        split_at_white(input)
    }

    /// Resolves a trimmed input line: its first word names the command, the
    /// others are its arguments. The result says what must be done; the line
    /// is recorded when `complete` then reports success.
    pub fn handle_command(&mut self, input: &str) -> (r: Result<Action, ShellError>)
        ensures
            final(self).store() == old(self).store(),
            words(input@).len() == 0 ==> (r matches Err(ShellError::CommandNotFound(n))
                && n@.len() == 0),
            words(input@).len() > 0 ==> dispatched(
                words(input@)[0],
                words(input@).drop_first(),
                old(self).store()@,
                r,
            ),
            final(self).pending_record() == if r is Ok {
                Some(join_words(words(input@)))
            } else {
                None
            },
    {
        let ws = split_words(input);
        if ws.len() == 0 {
            self.pending = None;
            return Err(ShellError::CommandNotFound(String::new()));
        }
        let mut args: Vec<String> = Vec::new();
        let mut i: usize = 1;
        while i < ws.len()
            invariant
                1 <= i <= ws@.len(),
                views(args@) == views(ws@).subrange(1, i as int),
            decreases ws@.len() - i,
        {
            let ghost before = args@;
            args.push(copy_str(ws[i].as_str()));
            proof {
                assert(views(args@) == views(before).push(ws@[i as int]@));
                assert(views(ws@).subrange(1, i + 1) == views(ws@).subrange(1, i as int).push(
                    ws@[i as int]@,
                ));
            }
            i = i + 1;
        }
        proof {
            assert(views(ws@).drop_first() == views(ws@).subrange(1, ws@.len() as int));
            assert(seq![views(ws@)[0]] + views(ws@).drop_first() == views(ws@));
        }
        let cmd = Cmd::new(ws[0].as_str());
        cmd.execute(&args, self)
    }

    /// Reports how the command under way went: on success its line is
    /// appended to the history; on failure the history is left as it was.
    /// Either way the outcome is handed back unchanged.
    pub fn complete(&mut self, outcome: Result<(), ShellError>) -> (r: Result<(), ShellError>)
        ensures
            r == outcome,
            final(self).pending_record() is None,
            final(self).store().max_len() == old(self).store().max_len(),
            outcome is Ok && old(self).pending_record() is Some ==> final(self).store()@ == last_n(
                old(self).store()@.push(old(self).pending_record()->0),
                old(self).store().max_len(),
            ),
            !(outcome is Ok && old(self).pending_record() is Some) ==> final(self).store()@ == old(
                self,
            ).store()@,
    {
        let pending = self.pending.take();
        if outcome.is_ok() {
            if let Some(line) = pending {
                self.history.push(line);
            }
        }
        outcome
    }
}

impl Default for Shell {
    fn default() -> (r: Self)
        ensures
            r.store()@ == Seq::<Seq<char>>::empty(),
            r.pending_record() is None,
    {
        Shell::new()
    }
}

impl Execute for BuiltinCommand {
    open spec fn expected(
        &self,
        args: Seq<Seq<char>>,
        e: Seq<Seq<char>>,
        r: Result<Action, ShellError>,
    ) -> bool {
        match builtin_named(self.name@) {
            Some(b) => planned(b, args, e, r),
            None => r matches Err(ShellError::UnknownBuiltin(n)) && n@ == self.name@,
        }
    }

    open spec fn record(&self, args: Seq<Seq<char>>) -> Seq<char> {
        record_of(self.name@, args)
    }

    fn execute(&self, args: &Vec<String>, shell: &mut Shell) -> (r: Result<Action, ShellError>) {
        let r = self.plan(args, &shell.history);
        shell.pending = if r.is_ok() {
            Some(record_line(self.name.as_str(), args))
        } else {
            None
        };
        r
    }
}

impl Execute for NonBuiltinCommand {
    open spec fn expected(
        &self,
        args: Seq<Seq<char>>,
        e: Seq<Seq<char>>,
        r: Result<Action, ShellError>,
    ) -> bool {
        r matches Ok(Action::Run(n, a)) && n@ == self.name@ && views(a@) == args
    }

    open spec fn record(&self, args: Seq<Seq<char>>) -> Seq<char> {
        record_of(self.name@, args)
    }

    fn execute(&self, args: &Vec<String>, shell: &mut Shell) -> (r: Result<Action, ShellError>) {
        shell.pending = Some(record_line(self.name.as_str(), args));
        Ok(self.plan(args))
    }
}

impl Execute for Cmd {
    open spec fn expected(
        &self,
        args: Seq<Seq<char>>,
        e: Seq<Seq<char>>,
        r: Result<Action, ShellError>,
    ) -> bool {
        dispatched(self.name@, args, e, r)
    }

    open spec fn record(&self, args: Seq<Seq<char>>) -> Seq<char> {
        record_of(self.name@, args)
    }

    fn execute(&self, args: &Vec<String>, shell: &mut Shell) -> (r: Result<Action, ShellError>) {
        let r = self.plan(args, &shell.history);
        shell.pending = if r.is_ok() {
            Some(record_line(self.name.as_str(), args))
        } else {
            None
        };
        r
    }
}

/// `cmd` split at its first whitespace character into a command name and its
/// arguments; all of it and empty arguments where it holds none.
pub fn parse_command(cmd: &str) -> (r: Option<(String, String)>)
    ensures
        r matches Some(p) && (has_white(cmd@) ==> {
            &&& p.0@.len() < cmd@.len()
            &&& is_white_spec(cmd@[p.0@.len() as int])
            &&& p.0@ + seq![cmd@[p.0@.len() as int]] + p.1@ == cmd@
            &&& !has_white(p.0@)
        }) && (!has_white(cmd@) ==> p.0@ == cmd@ && p.1@.len() == 0),
{
    Some(split_at_white(cmd))
}

} // verus!
