//! The builtin registry: the fixed set of commands run inside the
//! interpreter, and what each of them does with its arguments.

use crate::error::ShellError;
use crate::history::ShellHistory;
use crate::text::{
    all_white, copy_str, decimal, is_white_spec, join, join_words, push_decimal, push_str,
    same_text, views,
};
use vstd::prelude::*;

verus! {

/// The builtin commands.
#[derive(Clone, Copy, Debug, PartialEq, Eq, Structural)]
pub enum Builtin {
    Echo,
    Exit,
    Pwd,
    Cd,
    History,
    Type,
}

/// The builtin that `n` names, if any.
pub open spec fn builtin_named(n: Seq<char>) -> Option<Builtin> {
    if n == "echo"@ {
        Some(Builtin::Echo)
    } else if n == "exit"@ {
        Some(Builtin::Exit)
    } else if n == "pwd"@ {
        Some(Builtin::Pwd)
    } else if n == "cd"@ {
        Some(Builtin::Cd)
    } else if n == "history"@ {
        Some(Builtin::History)
    } else if n == "type"@ {
        Some(Builtin::Type)
    } else {
        None
    }
}

/// Whether `n` names a builtin.
pub open spec fn is_builtin_name(n: Seq<char>) -> bool {
    builtin_named(n) is Some
}

/// The builtin that `name` names, if any.
pub fn lookup_builtin(name: &str) -> (r: Option<Builtin>)
    ensures
        r == builtin_named(name@),
{
    if same_text(name, "echo") {
        Some(Builtin::Echo)
    } else if same_text(name, "exit") {
        Some(Builtin::Exit)
    } else if same_text(name, "pwd") {
        Some(Builtin::Pwd)
    } else if same_text(name, "cd") {
        Some(Builtin::Cd)
    } else if same_text(name, "history") {
        Some(Builtin::History)
    } else if same_text(name, "type") {
        Some(Builtin::Type)
    } else {
        None
    }
}

/// Whether `name` is one of `echo`, `exit`, `pwd`, `cd`, `history`, `type`.
pub fn check_builtin_existance(name: &str) -> (r: bool)
    ensures
        r == is_builtin_name(name@),
{
    lookup_builtin(name).is_some()
}

/// The table from builtin names to builtins, in registration order.
pub open spec fn dispatch_entries() -> Seq<(Seq<char>, Builtin)> {
    seq![
        ("echo"@, Builtin::Echo),
        ("exit"@, Builtin::Exit),
        ("pwd"@, Builtin::Pwd),
        ("cd"@, Builtin::Cd),
        ("history"@, Builtin::History),
        ("type"@, Builtin::Type),
    ]
}

/// A table from names to builtins.
pub struct DispatchTable {
    entries: Vec<(String, Builtin)>,
}

impl View for DispatchTable {
    type V = Seq<(Seq<char>, Builtin)>;

    closed spec fn view(&self) -> Seq<(Seq<char>, Builtin)> {
        self.entries@.map_values(|e: (String, Builtin)| (e.0@, e.1))
    }
}

/// Whether some entry of `t` has the key `n`.
pub open spec fn has_key(t: Seq<(Seq<char>, Builtin)>, n: Seq<char>) -> bool {
    exists|i: int| 0 <= i < t.len() && (#[trigger] t[i]).0 == n
}

impl DispatchTable {
    /// Whether some entry has the key `name`.
    pub fn contains_key(&self, name: &str) -> (r: bool)
        ensures
            r == has_key(self@, name@),
    {
        self.get(name).is_some()
    }

    /// The builtin of the first entry with the key `name`.
    pub fn get(&self, name: &str) -> (r: Option<Builtin>)
        ensures
            r is Some == has_key(self@, name@),
            r matches Some(b) ==> exists|i: int|
                0 <= i < self@.len() && (#[trigger] self@[i]) == (name@, b),
    {
        let mut i: usize = 0;
        while i < self.entries.len()
            invariant
                i <= self@.len(),
                self@.len() == self.entries@.len(),
                forall|k: int| 0 <= k < i ==> (#[trigger] self@[k]).0 != name@,
            decreases self@.len() - i,
        {
            assert(self@[i as int] == (self.entries@[i as int].0@, self.entries@[i as int].1));
            if same_text(self.entries[i].0.as_str(), name) {
                return Some(self.entries[i].1);
            }
            i = i + 1;
        }
        None
    }

    /// The number of entries.
    pub fn len(&self) -> (r: usize)
        ensures
            r == self@.len(),
    {
        self.entries.len()
    }
}

/// The table of all builtins, keyed by their names.
pub fn build_dispatch_table() -> (r: DispatchTable)
    ensures
        r@ == dispatch_entries(),
{
    let mut entries: Vec<(String, Builtin)> = Vec::new();
    entries.push((copy_str("echo"), Builtin::Echo));
    entries.push((copy_str("exit"), Builtin::Exit));
    entries.push((copy_str("pwd"), Builtin::Pwd));
    entries.push((copy_str("cd"), Builtin::Cd));
    entries.push((copy_str("history"), Builtin::History));
    entries.push((copy_str("type"), Builtin::Type));
    let r = DispatchTable { entries };
    assert(r@ =~= dispatch_entries());
    r
}

/// The table and the registry agree: a name is a key of the table exactly
/// when it names a builtin, and its entry holds that builtin.
pub proof fn lemma_table_matches_registry(n: Seq<char>)
    ensures
        has_key(dispatch_entries(), n) == is_builtin_name(n),
        forall|i: int|
            0 <= i < dispatch_entries().len() && (#[trigger] dispatch_entries()[i]).0 == n
                ==> builtin_named(n) == Some(dispatch_entries()[i].1),
{
    let t = dispatch_entries();
    reveal_strlit("echo");
    reveal_strlit("exit");
    reveal_strlit("pwd");
    reveal_strlit("cd");
    reveal_strlit("history");
    reveal_strlit("type");
    assert forall|i: int| 0 <= i < t.len() && (#[trigger] t[i]).0 == n implies builtin_named(n)
        == Some(t[i].1) by {
        if i == 0 {
        } else if i == 1 {
            assert(t[1].0[1] != "echo"@[1]);
        } else if i == 2 {
            assert(t[2].0.len() != "echo"@.len());
        } else if i == 3 {
            assert(t[3].0.len() != "echo"@.len());
            assert(t[3].0.len() != "pwd"@.len());
        } else if i == 4 {
            assert(t[4].0.len() != "echo"@.len());
            assert(t[4].0.len() != "pwd"@.len());
            assert(t[4].0.len() != "cd"@.len());
        } else {
            assert(t[5].0[0] != "echo"@[0]);
            assert(t[5].0[0] != "exit"@[0]);
            assert(t[5].0.len() != "pwd"@.len());
            assert(t[5].0.len() != "cd"@.len());
            assert(t[5].0.len() != "history"@.len());
        }
    }
    if is_builtin_name(n) {
        if n == "echo"@ {
            assert(t[0].0 == n);
        } else if n == "exit"@ {
            assert(t[1].0 == n);
        } else if n == "pwd"@ {
            assert(t[2].0 == n);
        } else if n == "cd"@ {
            assert(t[3].0 == n);
        } else if n == "history"@ {
            assert(t[4].0 == n);
        } else {
            assert(t[5].0 == n);
        }
    }
}

/// What the caller must do to carry a command out: the effects that reach
/// the terminal, the working directory, the process or other programs.
#[derive(Debug)]
pub enum Action {
    /// Write this text to standard output, as it is.
    Print(String),
    /// Write the current working directory and a newline.
    PrintCwd,
    /// Change the working directory to this path.
    ChangeDir(String),
    /// Change the working directory to the user's home directory.
    ChangeDirHome,
    /// End the process with status 0.
    Exit,
    /// Look this name up on the search path, then write `classify` of the name
    /// and of what the lookup found.
    Classify(String),
    /// Look this program up on the search path and, where it is there, run it
    /// with these arguments and write what it prints.
    Run(String, Vec<String>),
}

/// What `echo` writes: its arguments joined by single spaces, then a newline.
pub open spec fn echo_text(args: Seq<Seq<char>>) -> Seq<char> {
    join_words(args).push('\n')
}

/// What `history` writes: each record on a line of its own, after its
/// one-based index and a space.
pub open spec fn listing(e: Seq<Seq<char>>) -> Seq<char>
    decreases e.len(),
{
    if e.len() == 0 {
        Seq::empty()
    } else {
        listing(e.drop_last()) + decimal(e.len()) + seq![' '] + e.last() + seq!['\n']
    }
}

/// Whether an argument of `type` counts as absent.
pub open spec fn is_blank(s: Seq<char>) -> bool {
    forall|i: int| 0 <= i < s.len() ==> is_white_spec(#[trigger] s[i])
}

/// What `type` writes for `name`, where `found` tells whether a program of
/// that name is on the search path.
pub open spec fn classify_text(name: Seq<char>, found: bool) -> Seq<char> {
    if is_blank(name) {
        seq!['\n']
    } else if is_builtin_name(name) {
        name + " : BUILTIN\n"@
    } else if found {
        name + " : EXTERNAL\n"@
    } else {
        name + " : UNKNOWN COMMAND\n"@
    }
}

/// The line that `type` writes for `name`, given whether a program of that
/// name is on the search path.
pub fn classify(name: &str, found: bool) -> (r: String)
    ensures
        r@ == classify_text(name@, found),
{
    let mut s = String::new();
    if all_white(name) {
        push_str(&mut s, "\n");
        proof {
            reveal_strlit("\n");
            assert(s@ =~= seq!['\n']);
        }
        return s;
    }
    push_str(&mut s, name);
    if check_builtin_existance(name) {
        push_str(&mut s, " : BUILTIN\n");
    } else if found {
        push_str(&mut s, " : EXTERNAL\n");
    } else {
        push_str(&mut s, " : UNKNOWN COMMAND\n");
    }
    s
}

/// What `echo` writes for `args`.
pub fn echo_output(args: &Vec<String>) -> (r: String)
    ensures
        r@ == echo_text(views(args@)),
{
    let mut s = join(args);
    push_str(&mut s, "\n");
    proof {
        reveal_strlit("\n");
        assert(s@ =~= echo_text(views(args@)));
    }
    s
}

/// What `history` writes for the records of `history`.
pub fn history_output(history: &ShellHistory) -> (r: String)
    ensures
        r@ == listing(history@),
{
    let mut s = String::new();
    let n = history.len();
    let mut i: usize = 0;
    while i < n
        invariant
            n == history@.len(),
            i <= n,
            s@ == listing(history@.subrange(0, i as int)),
        decreases n - i,
    {
        let rec = history.get(i);
        match rec {
            Some(x) => {
                proof {
                    let p = history@.subrange(0, i + 1);
                    assert(p.drop_last() == history@.subrange(0, i as int));
                    assert(p.last() == x.entry@);
                    reveal_strlit(" ");
                    reveal_strlit("\n");
                }
                push_decimal(&mut s, i + 1);
                push_str(&mut s, " ");
                push_str(&mut s, x.entry.as_str());
                push_str(&mut s, "\n");
            },
            None => {},
        }
        i = i + 1;
    }
    assert(history@.subrange(0, n as int) == history@);
    s
}

/// The usage error of `cd`.
pub open spec fn cd_usage() -> Seq<char> {
    "cd takes at most one path"@
}

/// What builtin `b` asks for, given its arguments and the history records.
pub open spec fn planned(
    b: Builtin,
    args: Seq<Seq<char>>,
    e: Seq<Seq<char>>,
    r: Result<Action, ShellError>,
) -> bool {
    match b {
        Builtin::Echo => r matches Ok(Action::Print(t)) && t@ == echo_text(args),
        Builtin::Exit => r matches Ok(Action::Exit),
        Builtin::Pwd => r matches Ok(Action::PrintCwd),
        Builtin::Cd => if args.len() == 0 {
            r matches Ok(Action::ChangeDirHome)
        } else if args.len() == 1 {
            r matches Ok(Action::ChangeDir(p)) && p@ == args[0]
        } else {
            r matches Err(ShellError::InvalidArguments(m)) && m@ == cd_usage()
        },
        Builtin::History => r matches Ok(Action::Print(t)) && t@ == listing(e),
        Builtin::Type => if args.len() == 0 || is_blank(args[0]) {
            r matches Ok(Action::Print(t)) && t@ == seq!['\n']
        } else if is_builtin_name(args[0]) {
            r matches Ok(Action::Print(t)) && t@ == classify_text(args[0], false)
        } else {
            r matches Ok(Action::Classify(n)) && n@ == args[0]
        },
    }
}

/// What builtin `b` asks for, given its arguments and the history.
pub fn plan_builtin(b: Builtin, args: &Vec<String>, history: &ShellHistory) -> (r: Result<
    Action,
    ShellError,
>)
    ensures
        planned(b, views(args@), history@, r),
{
    match b {
        Builtin::Echo => Ok(Action::Print(echo_output(args))),
        Builtin::Exit => Ok(Action::Exit),
        Builtin::Pwd => Ok(Action::PrintCwd),
        Builtin::Cd => {
            if args.len() == 0 {
                Ok(Action::ChangeDirHome)
            } else if args.len() == 1 {
                Ok(Action::ChangeDir(copy_str(args[0].as_str())))
            } else {
                Err(ShellError::InvalidArguments(copy_str("cd takes at most one path")))
            }
        },
        Builtin::History => Ok(Action::Print(history_output(history))),
        Builtin::Type => {
            if args.len() == 0 {
                let mut s = String::new();
                push_str(&mut s, "\n");
                proof {
                    reveal_strlit("\n");
                    assert(s@ =~= seq!['\n']);
                }
                Ok(Action::Print(s))
            } else {
                let name = args[0].as_str();
                if all_white(name) || check_builtin_existance(name) {
                    Ok(Action::Print(classify(name, false)))
                } else {
                    Ok(Action::Classify(copy_str(name)))
                }
            }
        },
    }
}

/// A command that names a builtin.
pub struct BuiltinCommand {
    pub name: String,
}

impl BuiltinCommand {
    /// The command for `name`, which must name a builtin.
    pub fn new(name: &str) -> (r: Result<Self, ShellError>)
        ensures
            r is Ok == is_builtin_name(name@),
            r matches Ok(c) ==> c.name@ == name@,
            r matches Err(e) ==> e matches ShellError::NotBuiltin(n) && n@ == name@,
    {
        if check_builtin_existance(name) {
            Ok(BuiltinCommand { name: copy_str(name) })
        } else {
            Err(ShellError::NotBuiltin(copy_str(name)))
        }
    }

    /// What the command asks for, given its arguments and the history; an
    /// error where its name is not a builtin.
    pub fn plan(&self, args: &Vec<String>, history: &ShellHistory) -> (r: Result<
        Action,
        ShellError,
    >)
        ensures
            match builtin_named(self.name@) {
                Some(b) => planned(b, views(args@), history@, r),
                None => r matches Err(ShellError::UnknownBuiltin(n)) && n@ == self.name@,
            },
    {
        match lookup_builtin(self.name.as_str()) {
            Some(b) => plan_builtin(b, args, history),
            None => Err(ShellError::UnknownBuiltin(copy_str(self.name.as_str()))),
        }
    }
}

} // verus!
