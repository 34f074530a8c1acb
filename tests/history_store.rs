use shell::history::{SearchDirection, ShellHistory, HISTORY_MAX};

#[test]
fn test_shell_history_new() {
    let history = ShellHistory::new();
    assert!(history.is_empty());
    assert_eq!(history.len(), 0);
}

#[test]
fn test_shell_history_push() {
    let mut history = ShellHistory::new();
    history.push("echo hello".to_string());
    assert_eq!(history.len(), 1);
    assert!(!history.is_empty());

    history.push("ls -la".to_string());
    assert_eq!(history.len(), 2);
}

#[test]
fn test_shell_history_iter() {
    let mut history = ShellHistory::new();
    history.push("first".to_string());
    history.push("second".to_string());

    let entries: Vec<&String> = history.iter().collect();
    assert_eq!(entries.len(), 2);
}

#[test]
fn test_shell_history_max_capacity() {
    let mut history = ShellHistory::new();
    for i in 0..HISTORY_MAX {
        history.push(format!("cmd {}", i));
    }
    assert_eq!(history.len(), HISTORY_MAX);

    history.push("newest".to_string());
    assert_eq!(history.len(), HISTORY_MAX);
}

#[test]
fn test_history_trait_get() {
    let mut history = ShellHistory::new();
    assert!(history.add("test entry"));

    let result = history.get(0);
    assert!(result.is_some());
    assert_eq!(result.unwrap().idx, 0);
}

#[test]
fn test_history_trait_add() {
    let mut history = ShellHistory::new();
    assert!(history.add("test"));
    assert_eq!(history.len(), 1);

    assert!(!history.add(""));
    assert_eq!(history.len(), 1);
}

#[test]
fn test_history_trait_search() {
    let mut history = ShellHistory::new();
    history.add("echo hello world");
    history.add("ls -la");
    history.add("echo goodbye");

    let result = history.search("hello", 0, SearchDirection::Forward);
    assert!(result.is_some());
    let search_result = result.unwrap();
    assert_eq!(search_result.idx, 0);

    let result = history.search("echo", 2, SearchDirection::Reverse);
    assert!(result.is_some());
    let search_result = result.unwrap();
    assert_eq!(search_result.idx, 2);
}

#[test]
fn test_history_trait_starts_with() {
    let mut history = ShellHistory::new();
    history.add("echo hello");
    history.add("ls -la");

    let result = history.starts_with("echo", 0, SearchDirection::Forward);
    assert!(result.is_some());
    assert_eq!(result.unwrap().idx, 0);

    let result = history.starts_with("ls", 0, SearchDirection::Forward);
    assert!(result.is_some());
    assert_eq!(result.unwrap().idx, 1);
}

#[test]
fn test_history_trait_clear() {
    let mut history = ShellHistory::new();
    history.add("test");
    assert!(!history.is_empty());

    history.clear();
    assert!(history.is_empty());
    assert_eq!(history.len(), 0);
}

#[test]
fn test_history_trait_set_max_len() {
    let mut history = ShellHistory::new();
    for i in 0..10 {
        history.add(&format!("cmd {}", i));
    }
    assert_eq!(history.len(), 10);

    history.set_max_len(5);
    assert_eq!(history.len(), 5);
    assert_eq!(history.capacity(), 5);
}

#[test]
fn test_history_default() {
    let history: ShellHistory = Default::default();
    assert!(history.is_empty());
}

fn texts(h: &ShellHistory) -> Vec<String> {
    h.iter().cloned().collect()
}

#[test]
fn pushes_keep_the_latest_up_to_capacity() {
    let mut h = ShellHistory::new();
    h.set_max_len(3);
    for i in 0..5 {
        h.push(format!("c{}", i));
        assert_eq!(h.len(), std::cmp::min(i + 1, 3));
    }
    assert_eq!(texts(&h), vec!["c2", "c3", "c4"]);
}

#[test]
fn zero_capacity_keeps_nothing() {
    let mut h = ShellHistory::new();
    h.set_max_len(0);
    h.push("a".to_string());
    assert!(h.add("b") );
    assert_eq!(h.len(), 0);
    assert_eq!(h.capacity(), 0);
}

#[test]
fn one_past_capacity_evicts_the_oldest() {
    let mut h = ShellHistory::new();
    h.set_max_len(4);
    for i in 0..5 {
        h.push(format!("line {}", i));
    }
    assert_eq!(h.len(), 4);
    assert!(!texts(&h).contains(&"line 0".to_string()));
    assert_eq!(texts(&h), vec!["line 1", "line 2", "line 3", "line 4"]);
}

#[test]
fn search_scenario_on_three_records() {
    let mut h = ShellHistory::new();
    h.push("echo hello world".to_string());
    h.push("ls -la".to_string());
    h.push("echo goodbye".to_string());
    let f = h.search("echo", 0, SearchDirection::Forward).unwrap();
    assert_eq!(f.idx, 0);
    assert_eq!(f.pos, 0);
    assert_eq!(f.entry, "echo hello world");
    let r = h.search("echo", 2, SearchDirection::Reverse).unwrap();
    assert_eq!(r.idx, 2);
    assert_eq!(r.entry, "echo goodbye");
    let r = h.search("hello", 2, SearchDirection::Reverse).unwrap();
    assert_eq!(r.idx, 0);
    assert_eq!(r.pos, 5);
    let f = h.search("la", 1, SearchDirection::Forward).unwrap();
    assert_eq!(f.idx, 1);
    assert_eq!(f.pos, 4);
}

#[test]
fn search_without_match_or_out_of_range() {
    let mut h = ShellHistory::new();
    h.push("echo hello world".to_string());
    h.push("ls -la".to_string());
    assert!(h.search("", 0, SearchDirection::Forward).is_none());
    assert!(h.search("echo", 2, SearchDirection::Forward).is_none());
    assert!(h.search("echo", 1, SearchDirection::Forward).is_none());
    assert!(h.search("ls", 0, SearchDirection::Reverse).is_none());
    assert!(h.search("zzz", 1, SearchDirection::Reverse).is_none());
}

#[test]
fn search_reports_byte_offsets() {
    let mut h = ShellHistory::new();
    h.push("héllo wörld".to_string());
    let f = h.search("wö", 0, SearchDirection::Forward).unwrap();
    assert_eq!(f.pos, 7);
}

#[test]
fn prefix_search_scenario() {
    let mut h = ShellHistory::new();
    h.push("echo hello world".to_string());
    h.push("ls -la".to_string());
    h.push("echo goodbye".to_string());
    let a = h.starts_with("echo", 0, SearchDirection::Forward).unwrap();
    assert_eq!(a.idx, 0);
    assert_eq!(a.pos, 4);
    let b = h.starts_with("ls", 0, SearchDirection::Forward).unwrap();
    assert_eq!(b.idx, 1);
    let c = h.starts_with("echo", 1, SearchDirection::Reverse).unwrap();
    assert_eq!(c.idx, 0);
    assert!(h.starts_with("-la", 0, SearchDirection::Forward).is_none());
    assert!(h.starts_with("", 0, SearchDirection::Forward).is_none());
}

#[test]
fn get_out_of_range_is_none() {
    let mut h = ShellHistory::new();
    h.push("one".to_string());
    let g = h.get(0).unwrap();
    assert_eq!(g.entry, "one");
    assert_eq!(g.pos, 0);
    assert!(h.get(1).is_none());
}

#[test]
fn empty_line_rejected_by_add_but_pushed() {
    let mut h = ShellHistory::new();
    assert!(!h.add(""));
    assert_eq!(h.len(), 0);
    assert!(!h.add_owned(String::new()));
    assert_eq!(h.len(), 0);
    h.push(String::new());
    assert_eq!(h.len(), 1);
    assert_eq!(texts(&h), vec![""]);
    assert!(h.add_owned("x".to_string()));
    assert_eq!(h.len(), 2);
}

#[test]
fn clear_keeps_capacity() {
    let mut h = ShellHistory::new();
    h.set_max_len(7);
    h.push("a".to_string());
    h.clear();
    assert_eq!(h.len(), 0);
    assert_eq!(h.capacity(), 7);
}

#[test]
fn saved_text_is_one_record_per_line() {
    let mut h = ShellHistory::new();
    assert_eq!(h.to_text(), "");
    h.push("ls -la".to_string());
    h.push("echo hi".to_string());
    assert_eq!(h.to_text(), "ls -la\necho hi\n");
}

#[test]
fn save_then_load_round_trips() {
    let mut h = ShellHistory::new();
    h.push("echo hello world".to_string());
    h.push("ls -la".to_string());
    h.push("cd /tmp".to_string());
    let text = h.to_text();
    let mut fresh = ShellHistory::new();
    fresh.load_text(&text);
    assert_eq!(texts(&fresh), texts(&h));

    let mut small = ShellHistory::new();
    small.set_max_len(2);
    small.load_text(&text);
    assert_eq!(texts(&small), vec!["ls -la", "cd /tmp"]);
}

#[test]
fn load_skips_empty_lines_and_strips_crlf() {
    let mut h = ShellHistory::new();
    h.load_text("a\r\n\nb\nc");
    assert_eq!(texts(&h), vec!["a", "b", "c"]);
}
