use shell::builtin::{
    build_dispatch_table, check_builtin_existance, classify, echo_output, history_output,
    plan_builtin, Action, Builtin, BuiltinCommand,
};
use shell::cmd::Execute;
use shell::error::ShellError;
use shell::history::ShellHistory;
use shell::shell::Shell;

fn strings(v: &[&str]) -> Vec<String> {
    v.iter().map(|s| s.to_string()).collect()
}

fn printed(r: Result<Action, ShellError>) -> String {
    match r {
        Ok(Action::Print(t)) => t,
        other => panic!("expected text to print, got {:?}", other),
    }
}

#[test]
fn test_builtin_command_new() {
    let cmd = BuiltinCommand::new("echo").unwrap();
    assert_eq!(cmd.name, "echo");
}

#[test]
fn test_builtin_command_new_invalid() {
    let result = BuiltinCommand::new("invalid");
    assert!(result.is_err());
}

#[test]
fn test_build_dispatch_table() {
    let table = build_dispatch_table();
    assert!(table.contains_key("echo"));
    assert!(table.contains_key("exit"));
    assert!(table.contains_key("pwd"));
    assert!(table.contains_key("cd"));
    assert!(table.contains_key("history"));
    assert!(table.contains_key("type"));
    assert_eq!(table.len(), 6);
}

#[test]
fn test_builtin_command_execute_echo() {
    let cmd = BuiltinCommand::new("echo").unwrap();
    let mut shell = Shell::new();
    let args = vec!["hello".to_string(), "world".to_string()];
    let action = cmd.execute(&args, &mut shell);
    assert!(action.is_ok());
    let result = shell.complete(Ok(()));
    assert!(result.is_ok());
    assert_eq!(shell.history().len(), 1);
}

#[test]
fn test_builtin_command_execute_type_builtin() {
    let cmd = BuiltinCommand::new("type").unwrap();
    let mut shell = Shell::new();
    let args = vec!["echo".to_string()];
    let action = cmd.execute(&args, &mut shell);
    assert!(action.is_ok());
    let result = shell.complete(Ok(()));
    assert!(result.is_ok());
    assert_eq!(shell.history().len(), 1);
}

#[test]
fn test_builtin_command_execute_type_external() {
    let cmd = BuiltinCommand::new("type").unwrap();
    let mut shell = Shell::new();
    let args = vec!["ls".to_string()];
    let action = cmd.execute(&args, &mut shell);
    assert!(action.is_ok());
    let result = shell.complete(Ok(()));
    assert!(result.is_ok());
    assert_eq!(shell.history().len(), 1);
}

#[test]
fn test_builtin_command_execute_unknown() {
    let _cmd = BuiltinCommand::new("echo").unwrap();
    let mut shell = Shell::new();
    let cmd_unknown = BuiltinCommand { name: "unknown".to_string() };
    let args: Vec<String> = vec![];
    let result = cmd_unknown.execute(&args, &mut shell);
    assert!(result.is_err());
    assert!(result.unwrap_err().message().contains("Erreur Executing Command"));
    assert!(shell.history().is_empty());
}

#[test]
fn test_builtin_command_empty_name() {
    let result = BuiltinCommand::new("");
    assert!(result.is_err());
}

#[test]
fn test_echo_empty_args() {
    let args: Vec<String> = vec![];
    assert_eq!(echo_output(&args), "\n");
}

#[test]
fn test_echo_single_arg() {
    let args = vec!["hello".to_string()];
    assert_eq!(echo_output(&args), "hello\n");
}

#[test]
fn test_echo_multiple_args() {
    let args = vec!["hello".to_string(), "world".to_string(), "test".to_string()];
    assert_eq!(echo_output(&args), "hello world test\n");
}

#[test]
fn test_echo_with_spaces() {
    let args = vec!["hello world".to_string()];
    assert_eq!(echo_output(&args), "hello world\n");
}

#[test]
fn test_type_empty_args() {
    let h = ShellHistory::new();
    let args: Vec<String> = vec![];
    assert_eq!(printed(plan_builtin(Builtin::Type, &args, &h)), "\n");
}

#[test]
fn test_type_whitespace_arg() {
    let h = ShellHistory::new();
    let args = vec!["   ".to_string()];
    assert_eq!(printed(plan_builtin(Builtin::Type, &args, &h)), "\n");
}

#[test]
fn test_type_multiple_args_mixed() {
    let h = ShellHistory::new();
    let args = strings(&["echo", "ls", "exit"]);
    assert_eq!(printed(plan_builtin(Builtin::Type, &args, &h)), "echo : BUILTIN\n");
}

#[test]
fn test_pwd() {
    let h = ShellHistory::new();
    let args: Vec<String> = vec![];
    assert!(matches!(plan_builtin(Builtin::Pwd, &args, &h), Ok(Action::PrintCwd)));
}

#[test]
fn test_cd() {
    let h = ShellHistory::new();
    let args = vec![".".to_string()];
    match plan_builtin(Builtin::Cd, &args, &h) {
        Ok(Action::ChangeDir(p)) => assert_eq!(p, "."),
        other => panic!("unexpected {:?}", other),
    }
}

#[test]
fn test_cd_no_args() {
    let h = ShellHistory::new();
    let args: Vec<String> = vec![];
    assert!(matches!(plan_builtin(Builtin::Cd, &args, &h), Ok(Action::ChangeDirHome)));
}

#[test]
fn test_history_command() {
    let h = ShellHistory::new();
    let args: Vec<String> = vec![];
    assert_eq!(printed(plan_builtin(Builtin::History, &args, &h)), "");
}

#[test]
fn cd_with_two_paths_is_invalid() {
    let h = ShellHistory::new();
    let args = strings(&["a", "b"]);
    match plan_builtin(Builtin::Cd, &args, &h) {
        Err(e @ ShellError::InvalidArguments(_)) => {
            assert_eq!(e.message(), "cd takes at most one path")
        }
        other => panic!("unexpected {:?}", other),
    }
}

#[test]
fn exit_plans_exit() {
    let h = ShellHistory::new();
    let args = strings(&["3"]);
    assert!(matches!(plan_builtin(Builtin::Exit, &args, &h), Ok(Action::Exit)));
}

#[test]
fn history_lists_records_with_indices() {
    let mut h = ShellHistory::new();
    for i in 0..11 {
        h.push(format!("cmd {}", i));
    }
    let out = history_output(&h);
    let lines: Vec<&str> = out.lines().collect();
    assert_eq!(lines.len(), 11);
    assert_eq!(lines[0], "1 cmd 0");
    assert_eq!(lines[9], "10 cmd 9");
    assert_eq!(lines[10], "11 cmd 10");
    assert!(out.ends_with('\n'));
}

#[test]
fn type_of_other_names_needs_a_lookup() {
    let h = ShellHistory::new();
    let args = strings(&["ls"]);
    match plan_builtin(Builtin::Type, &args, &h) {
        Ok(Action::Classify(n)) => assert_eq!(n, "ls"),
        other => panic!("unexpected {:?}", other),
    }
    assert_eq!(classify("ls", true), "ls : EXTERNAL\n");
    assert_eq!(classify("nosuch", false), "nosuch : UNKNOWN COMMAND\n");
    assert_eq!(classify("cd", false), "cd : BUILTIN\n");
    assert_eq!(classify(" \t", true), "\n");
}

#[test]
fn registry_membership() {
    for n in ["echo", "exit", "pwd", "cd", "history", "type"] {
        assert!(check_builtin_existance(n));
    }
    for n in ["", "ech", "echo ", "ls", "Echo"] {
        assert!(!check_builtin_existance(n));
    }
    let table = build_dispatch_table();
    assert_eq!(table.get("history"), Some(Builtin::History));
    assert_eq!(table.get("ls"), None);
    assert!(!table.contains_key("ls"));
}

#[test]
fn not_builtin_error_names_the_command() {
    match BuiltinCommand::new("frob") {
        Err(e @ ShellError::NotBuiltin(_)) => {
            assert_eq!(e.message(), "frob: not a builtin command")
        }
        _ => panic!("expected a name that is not a builtin"),
    }
}

#[test]
fn error_messages() {
    assert_eq!(ShellError::CommandNotFound("zz".to_string()).message(), "zz: command not found");
    assert_eq!(ShellError::NoHomeDirectory.message(), "Home Directory not Found");
    assert_eq!(ShellError::IoError("boom".to_string()).message(), "boom");
    assert_eq!(
        ShellError::UnknownBuiltin("q".to_string()).message(),
        "Erreur Executing Command: q"
    );
}
