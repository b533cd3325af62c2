use vibi_core::types::{CommandKind, CommandStatus};
use vibi_core::vibi_lang::compile;
use vibi_core::vibi_lang::lexer::{tokenize, Token};
use vibi_core::vibi_lang::parser::parse;
use vibi_core::vibi_lang::runtime::{execute, format_commands_summary, report_results, take_chars, Dispatch};

fn program(body: &str) -> String {
    format!("main vibi.claw\nimport vibi.tools;\n{{\n  jobs\n{}\n  jobs()\n}}\n", body)
}

#[test]
fn tokenize_arrow_and_question_eq() {
    let toks = tokenize("a => b ? = \"x\"").unwrap();
    assert_eq!(
        toks,
        vec![
            Token::Identifier("a".to_string()),
            Token::Arrow,
            Token::Identifier("b".to_string()),
            Token::QuestionEq,
            Token::String("x".to_string()),
            Token::Eof,
        ]
    );
}

#[test]
fn tokenize_lone_question_mark_and_escapes() {
    let toks = tokenize("? x \"say \\\"hi\\\"\" // note\n/usr/bin").unwrap();
    assert_eq!(
        toks,
        vec![
            Token::Identifier("?".to_string()),
            Token::Identifier("x".to_string()),
            Token::String("say \"hi\"".to_string()),
            Token::Identifier("/usr/bin".to_string()),
            Token::Eof,
        ]
    );
}

#[test]
fn tokenize_punctuation() {
    let toks = tokenize("{ } [ ] | : ( ) . && ,").unwrap();
    assert_eq!(
        toks,
        vec![
            Token::LBrace,
            Token::RBrace,
            Token::LBracket,
            Token::RBracket,
            Token::Pipe,
            Token::Colon,
            Token::LParen,
            Token::RParen,
            Token::Dot,
            Token::And,
            Token::Eof,
        ]
    );
}

#[test]
fn compile_create_files_under_path() {
    let src = program("  {\n    vibi.tool = [create.file] | path? = [\"src\"]\n    \"a.txt\"\n    \"b.txt\"\n  }");
    let cmds = compile(&src).unwrap();
    assert_eq!(cmds.len(), 2);
    assert_eq!(cmds[0].kind, CommandKind::CreateFile);
    assert_eq!(cmds[0].path.as_deref(), Some("src/a.txt"));
    assert_eq!(cmds[1].path.as_deref(), Some("src/b.txt"));
    assert!(cmds[0].content.is_none());
    assert!(matches!(cmds[0].status, CommandStatus::Pending));
    assert!(cmds[0].output.is_none());
    assert_eq!(cmds[0].id.len(), 36);
    assert_ne!(cmds[0].id, cmds[1].id);
}

#[test]
fn compile_edit_with_full_content_trims_trailing_slash() {
    let src = program(
        "  {\n    vibi.tool = [edit.file]? = \"main.rs\" | path? = [\"src/\"]\n    full.file.content:\n    \"fn main() {}\"\n    file.save()\n  }",
    );
    let cmds = compile(&src).unwrap();
    assert_eq!(cmds.len(), 1);
    assert_eq!(cmds[0].kind, CommandKind::EditFile);
    assert_eq!(cmds[0].path.as_deref(), Some("src/main.rs"));
    assert_eq!(cmds[0].content.as_deref(), Some("fn main() {}"));
}

#[test]
fn compile_search_and_replace_chained_with_and() {
    let src = program(
        "  {\n    vibi.tool = [edit.file]? = \"a.txt\"\n    search.file.content:\n    \"old\"\n    replace.file.content:\n    \"new\"\n    file.save()\n    &&\n    vibi.tool = [edit.file]? = \"b.txt\"\n    full.file.content:\n    \"all\"\n    file.save()\n  }",
    );
    let cmds = compile(&src).unwrap();
    assert_eq!(cmds.len(), 2);
    assert_eq!(cmds[0].path.as_deref(), Some("a.txt"));
    assert_eq!(cmds[0].content.as_deref(), Some("SEARCH:old|REPLACE:new"));
    assert_eq!(cmds[1].path.as_deref(), Some("b.txt"));
    assert_eq!(cmds[1].content.as_deref(), Some("all"));
}

#[test]
fn compile_run_commands_in_dir() {
    let src = program("  {\n    vibi.tool = [run.command] | dir? = [\"proj\"]\n    \"ls\"\n    \"pwd\"\n    run.command()\n  }");
    let cmds = compile(&src).unwrap();
    assert_eq!(cmds.len(), 2);
    assert_eq!(cmds[0].kind, CommandKind::RunShell);
    assert_eq!(cmds[0].path.as_deref(), Some("proj"));
    assert_eq!(cmds[0].content.as_deref(), Some("ls"));
    assert_eq!(cmds[1].content.as_deref(), Some("pwd"));
}

#[test]
fn compile_moves_and_private_repo() {
    let src = program(
        "  {\n    vibi.tool = [move.file] | path? = [\"src\"]\n    \"a.rs\" => [\"lib\"]\n    move.file()\n  }\n  {\n    vibi.tool = [download.private.repository] = \"https://github.com/x/y\" | git.token ? = \"T0K\" | path? = [\"repos\"]\n    download.private.repository()\n  }",
    );
    let cmds = compile(&src).unwrap();
    assert_eq!(cmds.len(), 2);
    assert_eq!(cmds[0].kind, CommandKind::MoveFile);
    assert_eq!(cmds[0].path.as_deref(), Some("src/a.rs"));
    assert_eq!(cmds[0].content.as_deref(), Some("lib"));
    assert_eq!(cmds[1].kind, CommandKind::DownloadPrivateRepo);
    assert_eq!(cmds[1].path.as_deref(), Some("repos"));
    assert_eq!(cmds[1].content.as_deref(), Some("https://github.com/x/y|TOKEN:T0K"));
}

#[test]
fn compile_unknown_tool_gives_no_command() {
    let src = program("  {\n    vibi.tool = [make.coffee]\n    \"now\"\n  }");
    let cmds = compile(&src).unwrap();
    assert!(cmds.is_empty());
}

#[test]
fn compile_missing_jobs_reports_what_was_found() {
    let err = compile("{ foo }").unwrap_err();
    assert_eq!(err, vec!["Expected 'jobs', got: Some(Identifier(\"foo\"))".to_string()]);
}

#[test]
fn compile_missing_opening_brace() {
    let err = compile("main vibi.claw").unwrap_err();
    assert_eq!(err, vec!["Expected '{'".to_string()]);
}

#[test]
fn parse_then_compile_agree() {
    let src = program("  {\n    vibi.tool = [read.file]\n    \"notes.md\"\n    read.file()\n  }");
    let prog = parse(tokenize(&src).unwrap()).unwrap();
    assert_eq!(prog.commands.len(), 1);
    assert_eq!(prog.commands[0].kind, CommandKind::ReadFile);
    assert_eq!(prog.commands[0].path.as_deref(), Some("notes.md"));
}

#[test]
fn summary_lists_each_command() {
    let src = program(
        "  {\n    vibi.tool = [create.file]\n    \"a.txt\"\n  }\n  {\n    vibi.tool = [run.command]\n    \"echo hi\"\n  }",
    );
    let cmds = compile(&src).unwrap();
    assert_eq!(format_commands_summary(&cmds), "1. Create File | a.txt\n2. Run Command | - → echo hi");
}

#[test]
fn take_chars_counts_characters() {
    assert_eq!(take_chars("héllo", 2), "hé");
    assert_eq!(take_chars("ab", 10), "ab");
}

#[test]
fn execute_empty_batch_is_reported() {
    match execute(Vec::new(), true) {
        Dispatch::Report(r) => assert_eq!(r, vec!["No commands to execute.".to_string()]),
        _ => panic!("expected a report"),
    }
}

#[test]
fn execute_with_approval_queues() {
    let src = program("  {\n    vibi.tool = [create.file]\n    \"a.txt\"\n  }");
    let cmds = compile(&src).unwrap();
    match execute(cmds, true) {
        Dispatch::Queue { commands, summary, report } => {
            assert_eq!(commands.len(), 1);
            assert_eq!(summary, "1. Create File | a.txt");
            assert_eq!(report, vec!["⏳ Commands queued for approval. Check the right panel.".to_string()]);
        }
        _ => panic!("expected a queue"),
    }
}

#[test]
fn execute_without_approval_runs_all() {
    let src = program("  {\n    vibi.tool = [create.file]\n    \"a.txt\"\n  }");
    let cmds = compile(&src).unwrap();
    match execute(cmds, false) {
        Dispatch::RunAll { commands, summary } => {
            assert_eq!(commands.len(), 1);
            assert_eq!(summary, "1. Create File | a.txt");
        }
        _ => panic!("expected to run"),
    }
}

#[test]
fn results_report_each_status() {
    let src = program("  {\n    vibi.tool = [create.file]\n    \"a.txt\"\n    \"b.txt\"\n    \"c.txt\"\n  }");
    let mut cmds = compile(&src).unwrap();
    cmds[0].status = CommandStatus::Done;
    cmds[0].output = Some("Written: a.txt".to_string());
    cmds[1].status = CommandStatus::Failed("boom".to_string());
    assert_eq!(
        report_results(&cmds),
        vec!["✅ Written: a.txt".to_string(), "❌ boom".to_string(), "⚠️ Pending".to_string()]
    );
}

#[test]
fn compile_private_repo_with_url_param() {
    let src = program(
        "  {\n    vibi.tool = [download.private.repository]? = \"https://github.com/x/y\" | git.token ? = \"T0K\"\n    download.private.repository()\n  }",
    );
    let cmds = compile(&src).unwrap();
    assert_eq!(cmds.len(), 1);
    assert!(cmds[0].path.is_none());
    assert_eq!(cmds[0].content.as_deref(), Some("https://github.com/x/y|TOKEN:T0K"));
}

#[test]
fn run_command_takes_its_path_parameter() {
    let src = program("  {\n    vibi.tool = [run.command] | path? = [\"build\"]\n    \"make\"\n    run.command()\n  }");
    let cmds = compile(&src).unwrap();
    assert_eq!(cmds.len(), 1);
    assert_eq!(cmds[0].kind, CommandKind::RunShell);
    assert_eq!(cmds[0].path.as_deref(), Some("build"));
    assert_eq!(cmds[0].content.as_deref(), Some("make"));
}

#[test]
fn read_file_item_with_its_own_path() {
    let src = program("  {\n    vibi.tool = [read.file]\n    \"f.txt\" | path? = [\"d\"]\n    read.file()\n  }");
    let cmds = compile(&src).unwrap();
    assert_eq!(cmds.len(), 1);
    assert_eq!(cmds[0].kind, CommandKind::ReadFile);
    assert_eq!(cmds[0].path.as_deref(), Some("d/f.txt"));
    assert!(cmds[0].content.is_none());
}

#[test]
fn open_app_reads_bracketed_names() {
    let src = program("  {\n    vibi.tool = [open.app]\n    [\"gedit\"]\n    open.app()\n  }");
    let cmds = compile(&src).unwrap();
    assert_eq!(cmds.len(), 1);
    assert_eq!(cmds[0].kind, CommandKind::OpenApp);
    assert!(cmds[0].path.is_none());
    assert_eq!(cmds[0].content.as_deref(), Some("gedit"));
}

#[test]
fn rename_file_under_a_base_folder() {
    let src = program("  {\n    vibi.tool = [rename.file] |[\"docs\"] \"a.txt\" => \"b.txt\"\n    rename.file()\n  }");
    let cmds = compile(&src).unwrap();
    assert_eq!(cmds.len(), 1);
    assert_eq!(cmds[0].kind, CommandKind::RenameFile);
    assert_eq!(cmds[0].path.as_deref(), Some("docs/a.txt"));
    assert_eq!(cmds[0].content.as_deref(), Some("b.txt"));
}

#[test]
fn move_file_with_plain_path_parameter() {
    let src = program("  {\n    vibi.tool = [move.file] | path = [\"src\"]\n    \"a.rs\" => [\"lib\"]\n    move.file()\n  }");
    let cmds = compile(&src).unwrap();
    assert_eq!(cmds.len(), 1);
    assert_eq!(cmds[0].kind, CommandKind::MoveFile);
    assert_eq!(cmds[0].path.as_deref(), Some("src/a.rs"));
    assert_eq!(cmds[0].content.as_deref(), Some("lib"));
}

#[test]
fn rename_folder_from_old_to_new() {
    let src = program("  {\n    vibi.tool = [rename.folder]?=\"old\" =>\"new\"\n    rename.folder()\n  }");
    let cmds = compile(&src).unwrap();
    assert_eq!(cmds.len(), 1);
    assert_eq!(cmds[0].kind, CommandKind::RenameFolder);
    assert_eq!(cmds[0].path.as_deref(), Some("old"));
    assert_eq!(cmds[0].content.as_deref(), Some("new"));
}

#[test]
fn path_tree_and_open_folder_take_the_directory() {
    let src = program(
        "  {\n    vibi.tool = [path.tree]? = [\"dir\"]\n    path.tree()\n  }\n  {\n    vibi.tool = [open.folder]? = [\"docs\"]\n    open.folder()\n  }",
    );
    let cmds = compile(&src).unwrap();
    assert_eq!(cmds.len(), 2);
    assert_eq!(cmds[0].kind, CommandKind::PathTree);
    assert_eq!(cmds[0].path.as_deref(), Some("dir"));
    assert!(cmds[0].content.is_none());
    assert_eq!(cmds[1].kind, CommandKind::OpenFolder);
    assert_eq!(cmds[1].path.as_deref(), Some("docs"));
}

#[test]
fn private_repo_with_spaced_token_key() {
    let src = program(
        "  {\n    vibi.tool = [download.private.repository] = \"https://github.com/x/y\"|git token = \"T\" | path? = [\"p\"]\n    download.private.repository()\n  }",
    );
    let cmds = compile(&src).unwrap();
    assert_eq!(cmds.len(), 1);
    assert_eq!(cmds[0].kind, CommandKind::DownloadPrivateRepo);
    assert_eq!(cmds[0].path.as_deref(), Some("p"));
    assert_eq!(cmds[0].content.as_deref(), Some("https://github.com/x/y|TOKEN:T"));
}

#[test]
fn jobs_compile_one_after_the_other() {
    let first = "  {\n    vibi.tool = [create.file]\n    \"a.txt\"\n  }";
    let second = "  {\n    vibi.tool = [make.coffee]\n    \"now\"\n  }\n  {\n    vibi.tool = [delete.file]\n    \"b.txt\"\n  }";
    let both = compile(&program(&format!("{}\n{}", first, second))).unwrap();
    let a = compile(&program(first)).unwrap();
    let b = compile(&program(second)).unwrap();
    assert_eq!(both.len(), a.len() + b.len());
    assert_eq!(both.len(), 2);
    assert_eq!(both[0].kind, a[0].kind);
    assert_eq!(both[0].path, a[0].path);
    assert_eq!(both[1].kind, b[0].kind);
    assert_eq!(both[1].path, b[0].path);
}
