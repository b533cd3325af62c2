use vibi_core::analyzer::Analyzer;
use vibi_core::types::{CommandKind, CommandStatus};

#[test]
fn analyze_fenced_file_and_run_hint() {
    let reply = "Sure, here it is.\n```rust src/main.rs\nfn main() {}\n```\nRun cargo build";
    let cmds = Analyzer::analyze(reply);
    assert_eq!(cmds.len(), 2);
    assert_eq!(cmds[0].kind, CommandKind::CreateFile);
    assert_eq!(cmds[0].path.as_deref(), Some("src/main.rs"));
    assert_eq!(cmds[0].content.as_deref(), Some("fn main() {}"));
    assert_eq!(cmds[1].kind, CommandKind::RunShell);
    assert!(cmds[1].path.is_none());
    assert_eq!(cmds[1].content.as_deref(), Some("cargo build"));
    assert!(cmds.iter().all(|c| matches!(c.status, CommandStatus::Pending) && c.output.is_none()));
}

#[test]
fn analyze_shell_block_skips_blank_and_comment_lines() {
    let reply = "```bash\nnpm test\n\n# a comment\necho hi\n```";
    let cmds = Analyzer::analyze(reply);
    let lines: Vec<&str> = cmds.iter().map(|c| c.content.as_deref().unwrap()).collect();
    assert_eq!(lines, vec!["npm test", "echo hi"]);
    assert!(cmds.iter().all(|c| c.kind == CommandKind::RunShell));
}

#[test]
fn analyze_install_line() {
    let cmds = Analyzer::analyze("npm install express\n");
    assert_eq!(cmds.len(), 1);
    assert_eq!(cmds[0].kind, CommandKind::InstallDep);
    assert_eq!(cmds[0].content.as_deref(), Some("npm install express"));
}

#[test]
fn analyze_delete_and_edit_intents() {
    let cmds = Analyzer::analyze("Please delete this file:\n```txt old.txt\nbye\n```");
    assert_eq!(cmds.len(), 1);
    assert_eq!(cmds[0].kind, CommandKind::DeleteFile);
    let cmds = Analyzer::analyze("Update the manifest:\n```toml Cargo.toml\n[package]\n```");
    assert_eq!(cmds.len(), 1);
    assert_eq!(cmds[0].kind, CommandKind::EditFile);
    assert_eq!(cmds[0].content.as_deref(), Some("[package]"));
}

#[test]
fn analyze_plain_prose_gives_nothing() {
    assert!(Analyzer::analyze("Hello! How can I help you today?").is_empty());
}

#[test]
fn consecutive_commands_on_one_path_are_deduplicated() {
    let reply = "```js app.js\nlet a = 1;\n```\ncreate app.js with:\nlet a = (1);\nlet b = {};\n";
    let cmds = Analyzer::analyze(reply);
    assert_eq!(cmds.len(), 1);
    assert_eq!(cmds[0].path.as_deref(), Some("app.js"));
    assert_eq!(cmds[0].content.as_deref(), Some("let a = 1;"));
}

#[test]
fn classify_intent_rules() {
    assert_eq!(Analyzer::classify_intent("a.txt", "remove this file a.txt", ""), CommandKind::DeleteFile);
    assert_eq!(Analyzer::classify_intent("a.txt", "we should Fix the bug", ""), CommandKind::EditFile);
    assert_eq!(Analyzer::classify_intent("a.txt", "here you go", "then delete"), CommandKind::CreateFile);
    assert_eq!(Analyzer::classify_intent("a.txt", "see it", "then delete"), CommandKind::DeleteFile);
}

#[test]
fn looks_like_code_needs_two_kinds_of_punctuation() {
    assert!(Analyzer::looks_like_code("f(x);"));
    assert!(Analyzer::looks_like_code("just (words)"));
    assert!(!Analyzer::looks_like_code("a: b"));
    assert!(!Analyzer::looks_like_code("plain text"));
}

#[test]
fn contexts_are_byte_windows() {
    assert_eq!(Analyzer::get_pre_context("abcdef", 4, 2), "cd");
    assert_eq!(Analyzer::get_pre_context("abcdef", 1, 5), "a");
    assert_eq!(Analyzer::get_post_context("abcdef", 4, 10), "ef");
}

#[test]
fn try_analyze_checks_cut_points() {
    assert!(Analyzer::can_analyze("```rust a.rs\nfn f() {}\n```"));
    assert_eq!(Analyzer::try_analyze("```rust a.rs\nfn f() {}\n```").unwrap().len(), 1);
    // A multi-byte character straddling the 120th byte before a block.
    let mut reply = String::from("é");
    reply.push_str(&"x".repeat(119));
    reply.push_str("```rust a.rs\nfn f() {}\n```");
    assert!(!Analyzer::can_analyze(&reply));
    assert!(Analyzer::try_analyze(&reply).is_none());
}
