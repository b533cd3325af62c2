use vibi_core::commands::AppState;
use vibi_core::executor::Operation;
use vibi_core::types::{CommandKind, CommandStatus};

const REPLY: &str = "Sure, here it is.\n```rust src/main.rs\nfn main() {}\n```\nRun cargo build";

#[test]
fn new_state_has_an_empty_queue() {
    let s = AppState::new("/tmp/box", false);
    assert!(s.get_pending().is_empty());
    assert_eq!(s.sandbox_path, "/tmp/box");
    assert_eq!(s.executor.sandbox.working_dir(), "/tmp/box");
    assert!(!s.auto_execute);
}

#[test]
fn replies_are_queued_when_approval_is_needed() {
    let mut s = AppState::new("/tmp/box", false);
    let cmds = s.handle_response(REPLY);
    assert_eq!(cmds.len(), 2);
    let pending = s.get_pending();
    assert_eq!(pending.len(), 2);
    assert_eq!(pending[0].id, cmds[0].id);
    assert_eq!(pending[1].id, cmds[1].id);
    assert!(pending.iter().all(|c| matches!(c.status, CommandStatus::Pending)));
}

#[test]
fn replies_start_at_once_in_auto_mode() {
    let mut s = AppState::new("/tmp/box", true);
    let cmds = s.handle_response(REPLY);
    assert_eq!(cmds.len(), 2);
    assert!(s.get_pending().is_empty());
    assert!(cmds.iter().all(|c| matches!(c.status, CommandStatus::Running)));
    match s.executor.plan_operation(&cmds[1]).unwrap() {
        Operation::Shell { command, dir } => {
            assert_eq!(command, "cargo build");
            assert_eq!(dir, "/tmp/box");
        }
        other => panic!("unexpected operation {:?}", other),
    }
}

#[test]
fn approve_takes_the_command_out_and_starts_it() {
    let mut s = AppState::new("/tmp/box", false);
    let cmds = s.handle_response(REPLY);
    let (cmd, op) = s.approve(&cmds[0].id).unwrap();
    assert_eq!(cmd.id, cmds[0].id);
    assert_eq!(cmd.kind, CommandKind::CreateFile);
    assert!(matches!(cmd.status, CommandStatus::Running));
    match op.unwrap() {
        Operation::WriteFile { path, content } => {
            assert_eq!(path, "src/main.rs");
            assert_eq!(content, "fn main() {}");
        }
        other => panic!("unexpected operation {:?}", other),
    }
    let pending = s.get_pending();
    assert_eq!(pending.len(), 1);
    assert_eq!(pending[0].id, cmds[1].id);
    // Approving the same identifier again finds nothing.
    assert!(s.approve(&cmds[0].id).is_none());
    assert_eq!(s.get_pending().len(), 1);
}

#[test]
fn approve_unknown_id_changes_nothing() {
    let mut s = AppState::new("/tmp/box", false);
    s.handle_response(REPLY);
    assert!(s.approve("no-such-id").is_none());
    assert_eq!(s.get_pending().len(), 2);
}

#[test]
fn reject_marks_but_keeps_the_command() {
    let mut s = AppState::new("/tmp/box", false);
    let cmds = s.handle_response(REPLY);
    assert!(s.reject(&cmds[1].id));
    let pending = s.get_pending();
    assert_eq!(pending.len(), 2);
    assert!(matches!(pending[0].status, CommandStatus::Pending));
    assert!(matches!(pending[1].status, CommandStatus::Rejected));
    assert!(!s.reject("no-such-id"));
    // The rejected command can still be found by its identifier.
    let (cmd, _) = s.approve(&cmds[1].id).unwrap();
    assert_eq!(cmd.id, cmds[1].id);
}

#[test]
fn settings_change_independently() {
    let mut s = AppState::new("/tmp/box", false);
    s.set_auto_execute(true);
    assert!(s.auto_execute);
    s.set_sandbox_path("/tmp/other");
    assert_eq!(s.sandbox_path, "/tmp/other");
    assert_eq!(s.executor.sandbox.working_dir(), "/tmp/box");
}

#[test]
fn try_handle_response_refuses_uncuttable_replies() {
    let mut s = AppState::new("/tmp/box", false);
    let mut reply = String::from("é");
    reply.push_str(&"x".repeat(119));
    reply.push_str("```rust a.rs\nfn f() {}\n```");
    assert!(s.try_handle_response(&reply).is_none());
    assert!(s.get_pending().is_empty());
    assert_eq!(s.try_handle_response(REPLY).unwrap().len(), 2);
    assert_eq!(s.get_pending().len(), 2);
}
