use vibi_core::executor::{
    copy_destination_path, destination_path, is_blocked_command, is_within_root, stays_inside, split_token_field, replace_all_exec, Executor,
    Operation, Outcome, Sandbox,
};
use vibi_core::types::{Command, CommandKind, CommandStatus};

fn cmd(kind: CommandKind, path: Option<&str>, content: Option<&str>) -> Command {
    Command::new(kind, path.map(|s| s.to_string()), content.map(|s| s.to_string()))
}

#[test]
fn sandbox_keeps_its_root() {
    let s = Sandbox::new("/tmp/sb");
    assert_eq!(s.working_dir(), "/tmp/sb");
}

#[test]
fn plans_for_each_kind() {
    let e = Executor::new("/tmp/sb", true);
    match e.plan_operation(&cmd(CommandKind::EditFile, Some("a.txt"), None)).unwrap() {
        Operation::WriteFile { path, content } => {
            assert_eq!(path, "a.txt");
            assert_eq!(content, "");
        }
        o => panic!("{:?}", o),
    }
    match e.plan_operation(&cmd(CommandKind::InstallDep, None, Some("npm i x"))).unwrap() {
        Operation::Shell { command, dir } => {
            assert_eq!(command, "npm i x");
            assert_eq!(dir, "/tmp/sb");
        }
        o => panic!("{:?}", o),
    }
    match e.plan_operation(&cmd(CommandKind::OpenApp, None, Some("gedit"))).unwrap() {
        Operation::Open { target } => assert_eq!(target, "gedit"),
        o => panic!("{:?}", o),
    }
    match e.plan_operation(&cmd(CommandKind::PathTree, None, Some("target"))).unwrap() {
        Operation::PathTree { dir, exclude } => {
            assert_eq!(dir, ".");
            assert_eq!(exclude.as_deref(), Some("target"));
        }
        o => panic!("{:?}", o),
    }
    match e.plan_operation(&cmd(CommandKind::DownloadPrivateRepo, Some("r"), Some("https://h/x|TOKEN:abc"))).unwrap() {
        Operation::ClonePrivateRepo { url, auth_url, target } => {
            assert_eq!(url, "https://h/x");
            assert_eq!(auth_url, "https://oauth2:abc@h/x");
            assert_eq!(target, "r");
        }
        o => panic!("{:?}", o),
    }
}

#[test]
fn missing_fields_are_reported() {
    let e = Executor::new("/tmp/sb", true);
    assert_eq!(e.plan_operation(&cmd(CommandKind::CreateFile, None, Some("x"))).unwrap_err(), "No path specified");
    assert_eq!(e.plan_operation(&cmd(CommandKind::RunShell, Some("d"), None)).unwrap_err(), "No command specified");
    assert_eq!(e.plan_operation(&cmd(CommandKind::MoveFile, None, Some("b"))).unwrap_err(), "No source path");
    assert_eq!(e.plan_operation(&cmd(CommandKind::CopyFile, Some("a"), None)).unwrap_err(), "No destination");
    assert_eq!(e.plan_operation(&cmd(CommandKind::OpenFolder, None, None)).unwrap_err(), "No target");
    assert_eq!(e.plan_operation(&cmd(CommandKind::ReadFile, None, None)).unwrap_err(), "No path");
    assert_eq!(e.plan_operation(&cmd(CommandKind::DownloadRepo, None, None)).unwrap_err(), "No URL");
    assert_eq!(e.plan_operation(&cmd(CommandKind::DownloadPrivateRepo, None, None)).unwrap_err(), "No URL+token");
}

#[test]
fn run_marks_running_or_failed() {
    let e = Executor::new("/tmp/sb", true);
    let mut ok = cmd(CommandKind::DeleteFolder, Some("old"), None);
    assert!(e.run(&mut ok).is_some());
    assert!(matches!(ok.status, CommandStatus::Running));
    let mut bad = cmd(CommandKind::DeleteFolder, None, None);
    assert!(e.run(&mut bad).is_none());
    assert!(matches!(&bad.status, CommandStatus::Failed(m) if m == "No path specified"));
    assert_eq!(bad.output.as_deref(), Some("No path specified"));
}

#[test]
fn finish_records_the_outcome() {
    let e = Executor::new("/tmp/sb", true);
    let mut c = cmd(CommandKind::CreateFile, Some("a.txt"), Some("hi"));
    let op = e.run(&mut c).unwrap();
    assert!(Executor::finish(&mut c, &op, Outcome::Done));
    assert!(matches!(c.status, CommandStatus::Done));
    assert_eq!(c.output.as_deref(), Some("Written: a.txt"));

    let mut s = cmd(CommandKind::RunShell, None, Some("false"));
    let op = e.run(&mut s).unwrap();
    let failed = Outcome::Process { success: false, stdout: String::new(), stderr: String::new() };
    assert!(!Executor::finish(&mut s, &op, failed));
    assert!(matches!(&s.status, CommandStatus::Failed(m) if m == "Command failed"));

    let mut m = cmd(CommandKind::MoveFile, Some("a"), Some("b"));
    let op = e.run(&mut m).unwrap();
    assert!(Executor::finish(&mut m, &op, Outcome::Text("/tmp/sb/b/a".to_string())));
    assert_eq!(m.output.as_deref(), Some("Moved: a -> /tmp/sb/b/a"));
}

#[test]
fn outcome_messages() {
    let shell = Operation::Shell { command: "ls".to_string(), dir: ".".to_string() };
    let quiet = Outcome::Process { success: true, stdout: String::new(), stderr: String::new() };
    assert_eq!(Executor::outcome_message(&shell, quiet).unwrap(), "Done");
    let loud = Outcome::Process { success: true, stdout: "a b".to_string(), stderr: String::new() };
    assert_eq!(Executor::outcome_message(&shell, loud).unwrap(), "a b");
    let err = Outcome::Failed("denied".to_string());
    assert_eq!(Executor::outcome_message(&shell, err).unwrap_err(), "denied");
}

#[test]
fn token_field_and_replace() {
    assert_eq!(split_token_field("u|TOKEN:t"), ("u".to_string(), "t".to_string()));
    assert_eq!(split_token_field("u"), ("u".to_string(), String::new()));
    assert_eq!(split_token_field("u|TOKEN:t|TOKEN:z"), ("u".to_string(), "t".to_string()));
    assert_eq!(replace_all_exec("aXbXc", "X", "--"), "a--b--c");
    assert_eq!(replace_all_exec("abc", "z", "--"), "abc");
}

#[test]
fn blocked_shell_commands_are_refused() {
    let e = Executor::new("/tmp/sb", true);
    assert_eq!(
        e.plan_operation(&cmd(CommandKind::RunShell, None, Some("rm -rf /"))).unwrap_err(),
        "Command blocked: rm -rf /"
    );
    assert_eq!(e.plan_operation(&cmd(CommandKind::RunShell, None, Some(" cd .."))).unwrap_err(), "Command blocked:  cd ..");
    assert_eq!(e.plan_operation(&cmd(CommandKind::InstallDep, None, Some("cd"))).unwrap_err(), "Command blocked: cd");
    assert!(is_blocked_command("sudo rm-rf x"));
    assert!(!is_blocked_command("cdrecord"));
    assert!(!is_blocked_command("ls -la"));
    assert!(e.plan_operation(&cmd(CommandKind::RunShell, None, Some("echo cd"))).is_ok());
}

#[test]
fn destinations_beside_the_source() {
    assert_eq!(destination_path("docs/a.txt", "b.txt"), "docs/b.txt");
    assert_eq!(destination_path("a.txt", "b.txt"), "b.txt");
    assert_eq!(destination_path("docs/a.txt", "/abs/b.txt"), "/abs/b.txt");
    assert_eq!(destination_path("docs/a.txt", "C:/b.txt"), "C:/b.txt");
}

#[test]
fn copy_onto_itself_is_marked_duped() {
    assert_eq!(copy_destination_path("docs/a.txt", "a.txt"), "docs/a.txt(duped)");
    assert_eq!(copy_destination_path("docs/a.txt", "b.txt"), "docs/b.txt");
    assert_eq!(copy_destination_path("a.txt", "a.txt"), "a.txt(duped)");
}

#[test]
fn sandbox_confinement_compares_whole_components() {
    assert!(is_within_root("/home/u/sb", "/home/u/sb"));
    assert!(is_within_root("/home/u/sb", "/home/u/sb/a/b.txt"));
    assert!(!is_within_root("/home/u/sb", "/home/u/sbx/a.txt"));
    assert!(!is_within_root("/home/u/sb", "/etc/passwd"));
    assert!(is_within_root("/", "/etc"));
}

#[test]
fn relative_paths_that_leave_the_sandbox_are_refused() {
    assert!(stays_inside("a/b.txt"));
    assert!(stays_inside("a/../b.txt"));
    assert!(stays_inside("./a//b/"));
    assert!(stays_inside(""));
    assert!(!stays_inside("../etc/passwd"));
    assert!(!stays_inside("a/../../x"));
    assert!(!stays_inside("/etc/passwd"));
}

#[test]
fn destination_of_a_source_without_parent_is_taken_from_here() {
    assert_eq!(destination_path("", "b.txt"), "./b.txt");
    assert_eq!(destination_path("/", "b.txt"), "./b.txt");
}
