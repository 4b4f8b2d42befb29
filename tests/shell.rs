use lmtreedb::path::CdPath;
use lmtreedb::path::Path;
use lmtreedb::shell::commands;
use lmtreedb::shell::find_possible;
use lmtreedb::shell::parse_command;
use lmtreedb::shell::selected_entry;
use lmtreedb::shell::starts_with;
use lmtreedb::shell::target_path;
use lmtreedb::shell::Autocomplete;
use lmtreedb::shell::Command;

fn names(p: &Path) -> Vec<&str> {
    p.0.iter().map(|s| s.as_str()).collect()
}

#[test]
fn prefix_check() {
    assert!(starts_with("write", "wr"));
    assert!(starts_with("write", ""));
    assert!(!starts_with("wr", "write"));
    assert!(!starts_with("read", "rm"));
}

#[test]
fn command_completion_lists() {
    assert_eq!(commands("r"), vec!["rm", "read"]);
    assert_eq!(commands("").len(), 9);
    assert_eq!(commands("e"), vec!["exit"]);
    assert!(commands("zz").is_empty());
    assert!(find_possible("cd a").is_empty());
    assert_eq!(find_possible("he"), vec!["help"]);
}

#[test]
fn autocomplete_cycles() {
    let mut a = Autocomplete::new("r");
    assert_eq!(a.current(), "rm");
    assert!(a.highlight());
    a.next();
    assert_eq!(a.current(), "read");
    a.next();
    assert_eq!(a.current(), "r");
    assert!(!a.highlight());
    a.next();
    assert_eq!(a.current(), "rm");
    assert_eq!(a.reset(), "r");
}

#[test]
fn autocomplete_complete_word() {
    let a = Autocomplete::new("ls");
    assert_eq!(a.current(), "ls");
    assert!(a.highlight());
    let b = Autocomplete::new("xyz");
    assert_eq!(b.current(), "xyz");
    assert!(!b.highlight());
}

#[test]
fn commands_parsed() {
    assert!(matches!(parse_command(""), Command::Open));
    assert!(matches!(parse_command("ls"), Command::Ls));
    assert!(matches!(parse_command("rm"), Command::Rm));
    assert!(matches!(parse_command("read"), Command::Read));
    assert!(matches!(parse_command("dbg"), Command::Dbg));
    assert!(matches!(parse_command("help"), Command::Help));
    assert!(matches!(parse_command("exit"), Command::Exit));
    assert!(matches!(parse_command("quit"), Command::Exit));
    match parse_command("cd @root/a") {
        Command::Cd(a) => assert_eq!(a, "@root/a"),
        other => panic!("unexpected {:?}", other),
    }
    match parse_command("write new") {
        Command::Write(a) => assert_eq!(a, "new"),
        other => panic!("unexpected {:?}", other),
    }
    match parse_command("read T1") {
        Command::ReadAs(a) => assert_eq!(a, "T1"),
        other => panic!("unexpected {:?}", other),
    }
    assert!(matches!(parse_command("ls x"), Command::Unknown));
    assert!(matches!(parse_command("cd"), Command::Unknown));
    assert!(matches!(parse_command("cd a b"), Command::Unknown));
    assert!(matches!(parse_command("jump"), Command::Unknown));
}

#[test]
fn selection_targets() {
    let files = vec![".".to_string(), "..".to_string(), "kid".to_string()];
    assert!(matches!(selected_entry(&files, 0), CdPath::Current));
    assert!(matches!(selected_entry(&files, 1), CdPath::Up));
    match selected_entry(&files, 2) {
        CdPath::Relative(p) => assert_eq!(names(&p), vec!["kid"]),
        other => panic!("unexpected {:?}", other),
    }
    assert!(matches!(selected_entry(&files, 3), CdPath::Current));
}

#[test]
fn navigation_targets() {
    let here = Path::root().join("a");
    let up = target_path(&here, CdPath::Up, true).unwrap();
    assert_eq!(up.to_string(), "@root");
    let root = Path::root();
    assert_eq!(target_path(&root, CdPath::Up, true).unwrap().to_string(), "@root");
    assert_eq!(target_path(&root, CdPath::Up, false).unwrap().to_string(), "/");
    let rel = target_path(&here, CdPath::Relative(Path(vec!["b".to_string()])), true).unwrap();
    assert_eq!(rel.to_string(), "@root/a/b");
    let abs = target_path(&here, CdPath::Absolute(Path::root()), true).unwrap();
    assert_eq!(abs.to_string(), "@root");
    assert_eq!(target_path(&here, CdPath::Current, true).unwrap().to_string(), "@root/a");
    assert!(target_path(&here, CdPath::Selected, true).is_none());
}
