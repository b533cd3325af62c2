use vstd::prelude::*;
use crate::text::{decimal, decimal_string, push_str};
use crate::types::{Command, CommandKind, CommandModel, CommandStatus, StatusModel};

verus! {

/// The label under which a command kind is listed for approval.
pub open spec fn kind_label(k: CommandKind) -> Seq<char> {
    match k {
        CommandKind::CreateFile => "Create File"@,
        CommandKind::CreateFolder => "Create Folder"@,
        CommandKind::EditFile => "Edit File"@,
        CommandKind::DeleteFile => "Delete File"@,
        CommandKind::DeleteFolder => "Delete Folder"@,
        CommandKind::RunShell => "Run Command"@,
        CommandKind::RenameFile => "Rename File"@,
        CommandKind::RenameFolder => "Rename Folder"@,
        CommandKind::MoveFile => "Move File"@,
        CommandKind::CopyFile => "Copy File"@,
        CommandKind::ReadFile => "Read File"@,
        CommandKind::OpenFolder => "Open Folder"@,
        CommandKind::OpenApp => "Open App"@,
        CommandKind::DownloadRepo => "Download Repo"@,
        CommandKind::DownloadPrivateRepo => "Download Private Repo"@,
        CommandKind::PathTree => "Path Tree"@,
        CommandKind::InstallDep => "Other"@,
    }
}

/// Each kind of command is listed for approval under its own label,
/// which names what the command does: no two kinds share a label, so a
/// deletion is never shown as anything else.
pub proof fn law_kind_labels_distinct(k1: CommandKind, k2: CommandKind)
    ensures
        k1 != k2 ==> kind_label(k1) != kind_label(k2),
        kind_label(CommandKind::CreateFile) == "Create File"@,
        kind_label(CommandKind::CreateFolder) == "Create Folder"@,
        kind_label(CommandKind::EditFile) == "Edit File"@,
        kind_label(CommandKind::DeleteFile) == "Delete File"@,
        kind_label(CommandKind::DeleteFolder) == "Delete Folder"@,
        kind_label(CommandKind::RunShell) == "Run Command"@,
        kind_label(CommandKind::RenameFile) == "Rename File"@,
        kind_label(CommandKind::RenameFolder) == "Rename Folder"@,
        kind_label(CommandKind::MoveFile) == "Move File"@,
        kind_label(CommandKind::CopyFile) == "Copy File"@,
        kind_label(CommandKind::ReadFile) == "Read File"@,
        kind_label(CommandKind::OpenFolder) == "Open Folder"@,
        kind_label(CommandKind::OpenApp) == "Open App"@,
        kind_label(CommandKind::DownloadRepo) == "Download Repo"@,
        kind_label(CommandKind::DownloadPrivateRepo) == "Download Private Repo"@,
        kind_label(CommandKind::PathTree) == "Path Tree"@,
        kind_label(CommandKind::InstallDep) == "Other"@,
{
    reveal_strlit("Create File");
    reveal_strlit("Create Folder");
    reveal_strlit("Edit File");
    reveal_strlit("Delete File");
    reveal_strlit("Delete Folder");
    reveal_strlit("Run Command");
    reveal_strlit("Rename File");
    reveal_strlit("Rename Folder");
    reveal_strlit("Move File");
    reveal_strlit("Copy File");
    reveal_strlit("Read File");
    reveal_strlit("Open Folder");
    reveal_strlit("Open App");
    reveal_strlit("Download Repo");
    reveal_strlit("Download Private Repo");
    reveal_strlit("Path Tree");
    reveal_strlit("Other");
    assert("Create File"@.len() != "Create Folder"@.len());
    assert("Create File"@.len() != "Edit File"@.len());
    assert("Create File"@[0] != "Delete File"@[0]);
    assert("Create File"@.len() != "Delete Folder"@.len());
    assert("Create File"@[0] != "Run Command"@[0]);
    assert("Create File"@[0] != "Rename File"@[0]);
    assert("Create File"@.len() != "Rename Folder"@.len());
    assert("Create File"@.len() != "Move File"@.len());
    assert("Create File"@.len() != "Copy File"@.len());
    assert("Create File"@.len() != "Read File"@.len());
    assert("Create File"@[0] != "Open Folder"@[0]);
    assert("Create File"@.len() != "Open App"@.len());
    assert("Create File"@.len() != "Download Repo"@.len());
    assert("Create File"@.len() != "Download Private Repo"@.len());
    assert("Create File"@.len() != "Path Tree"@.len());
    assert("Create File"@.len() != "Other"@.len());
    assert("Create Folder"@.len() != "Edit File"@.len());
    assert("Create Folder"@.len() != "Delete File"@.len());
    assert("Create Folder"@[0] != "Delete Folder"@[0]);
    assert("Create Folder"@.len() != "Run Command"@.len());
    assert("Create Folder"@.len() != "Rename File"@.len());
    assert("Create Folder"@[0] != "Rename Folder"@[0]);
    assert("Create Folder"@.len() != "Move File"@.len());
    assert("Create Folder"@.len() != "Copy File"@.len());
    assert("Create Folder"@.len() != "Read File"@.len());
    assert("Create Folder"@.len() != "Open Folder"@.len());
    assert("Create Folder"@.len() != "Open App"@.len());
    assert("Create Folder"@[0] != "Download Repo"@[0]);
    assert("Create Folder"@.len() != "Download Private Repo"@.len());
    assert("Create Folder"@.len() != "Path Tree"@.len());
    assert("Create Folder"@.len() != "Other"@.len());
    assert("Edit File"@.len() != "Delete File"@.len());
    assert("Edit File"@.len() != "Delete Folder"@.len());
    assert("Edit File"@.len() != "Run Command"@.len());
    assert("Edit File"@.len() != "Rename File"@.len());
    assert("Edit File"@.len() != "Rename Folder"@.len());
    assert("Edit File"@[0] != "Move File"@[0]);
    assert("Edit File"@[0] != "Copy File"@[0]);
    assert("Edit File"@[0] != "Read File"@[0]);
    assert("Edit File"@.len() != "Open Folder"@.len());
    assert("Edit File"@.len() != "Open App"@.len());
    assert("Edit File"@.len() != "Download Repo"@.len());
    assert("Edit File"@.len() != "Download Private Repo"@.len());
    assert("Edit File"@[0] != "Path Tree"@[0]);
    assert("Edit File"@.len() != "Other"@.len());
    assert("Delete File"@.len() != "Delete Folder"@.len());
    assert("Delete File"@[0] != "Run Command"@[0]);
    assert("Delete File"@[0] != "Rename File"@[0]);
    assert("Delete File"@.len() != "Rename Folder"@.len());
    assert("Delete File"@.len() != "Move File"@.len());
    assert("Delete File"@.len() != "Copy File"@.len());
    assert("Delete File"@.len() != "Read File"@.len());
    assert("Delete File"@[0] != "Open Folder"@[0]);
    assert("Delete File"@.len() != "Open App"@.len());
    assert("Delete File"@.len() != "Download Repo"@.len());
    assert("Delete File"@.len() != "Download Private Repo"@.len());
    assert("Delete File"@.len() != "Path Tree"@.len());
    assert("Delete File"@.len() != "Other"@.len());
    assert("Delete Folder"@.len() != "Run Command"@.len());
    assert("Delete Folder"@.len() != "Rename File"@.len());
    assert("Delete Folder"@[0] != "Rename Folder"@[0]);
    assert("Delete Folder"@.len() != "Move File"@.len());
    assert("Delete Folder"@.len() != "Copy File"@.len());
    assert("Delete Folder"@.len() != "Read File"@.len());
    assert("Delete Folder"@.len() != "Open Folder"@.len());
    assert("Delete Folder"@.len() != "Open App"@.len());
    assert("Delete Folder"@[1] != "Download Repo"@[1]);
    assert("Delete Folder"@.len() != "Download Private Repo"@.len());
    assert("Delete Folder"@.len() != "Path Tree"@.len());
    assert("Delete Folder"@.len() != "Other"@.len());
    assert("Run Command"@[1] != "Rename File"@[1]);
    assert("Run Command"@.len() != "Rename Folder"@.len());
    assert("Run Command"@.len() != "Move File"@.len());
    assert("Run Command"@.len() != "Copy File"@.len());
    assert("Run Command"@.len() != "Read File"@.len());
    assert("Run Command"@[0] != "Open Folder"@[0]);
    assert("Run Command"@.len() != "Open App"@.len());
    assert("Run Command"@.len() != "Download Repo"@.len());
    assert("Run Command"@.len() != "Download Private Repo"@.len());
    assert("Run Command"@.len() != "Path Tree"@.len());
    assert("Run Command"@.len() != "Other"@.len());
    assert("Rename File"@.len() != "Rename Folder"@.len());
    assert("Rename File"@.len() != "Move File"@.len());
    assert("Rename File"@.len() != "Copy File"@.len());
    assert("Rename File"@.len() != "Read File"@.len());
    assert("Rename File"@[0] != "Open Folder"@[0]);
    assert("Rename File"@.len() != "Open App"@.len());
    assert("Rename File"@.len() != "Download Repo"@.len());
    assert("Rename File"@.len() != "Download Private Repo"@.len());
    assert("Rename File"@.len() != "Path Tree"@.len());
    assert("Rename File"@.len() != "Other"@.len());
    assert("Rename Folder"@.len() != "Move File"@.len());
    assert("Rename Folder"@.len() != "Copy File"@.len());
    assert("Rename Folder"@.len() != "Read File"@.len());
    assert("Rename Folder"@.len() != "Open Folder"@.len());
    assert("Rename Folder"@.len() != "Open App"@.len());
    assert("Rename Folder"@[0] != "Download Repo"@[0]);
    assert("Rename Folder"@.len() != "Download Private Repo"@.len());
    assert("Rename Folder"@.len() != "Path Tree"@.len());
    assert("Rename Folder"@.len() != "Other"@.len());
    assert("Move File"@[0] != "Copy File"@[0]);
    assert("Move File"@[0] != "Read File"@[0]);
    assert("Move File"@.len() != "Open Folder"@.len());
    assert("Move File"@.len() != "Open App"@.len());
    assert("Move File"@.len() != "Download Repo"@.len());
    assert("Move File"@.len() != "Download Private Repo"@.len());
    assert("Move File"@[0] != "Path Tree"@[0]);
    assert("Move File"@.len() != "Other"@.len());
    assert("Copy File"@[0] != "Read File"@[0]);
    assert("Copy File"@.len() != "Open Folder"@.len());
    assert("Copy File"@.len() != "Open App"@.len());
    assert("Copy File"@.len() != "Download Repo"@.len());
    assert("Copy File"@.len() != "Download Private Repo"@.len());
    assert("Copy File"@[0] != "Path Tree"@[0]);
    assert("Copy File"@.len() != "Other"@.len());
    assert("Read File"@.len() != "Open Folder"@.len());
    assert("Read File"@.len() != "Open App"@.len());
    assert("Read File"@.len() != "Download Repo"@.len());
    assert("Read File"@.len() != "Download Private Repo"@.len());
    assert("Read File"@[0] != "Path Tree"@[0]);
    assert("Read File"@.len() != "Other"@.len());
    assert("Open Folder"@.len() != "Open App"@.len());
    assert("Open Folder"@.len() != "Download Repo"@.len());
    assert("Open Folder"@.len() != "Download Private Repo"@.len());
    assert("Open Folder"@.len() != "Path Tree"@.len());
    assert("Open Folder"@.len() != "Other"@.len());
    assert("Open App"@.len() != "Download Repo"@.len());
    assert("Open App"@.len() != "Download Private Repo"@.len());
    assert("Open App"@.len() != "Path Tree"@.len());
    assert("Open App"@.len() != "Other"@.len());
    assert("Download Repo"@.len() != "Download Private Repo"@.len());
    assert("Download Repo"@.len() != "Path Tree"@.len());
    assert("Download Repo"@.len() != "Other"@.len());
    assert("Download Private Repo"@.len() != "Path Tree"@.len());
    assert("Download Private Repo"@.len() != "Other"@.len());
    assert("Path Tree"@.len() != "Other"@.len());
}

/// At most the first `n` characters of `s`.
pub open spec fn prefix_upto(s: Seq<char>, n: nat) -> Seq<char> {
    if s.len() <= n {
        s
    } else {
        s.take(n as int)
    }
}

pub open spec fn or_dash(p: Option<Seq<char>>) -> Seq<char> {
    match p {
        Some(p) => p,
        None => "-"@,
    }
}

/// Line `n` of the approval summary: number, kind, path (or `-`) and the
/// first 60 characters of the content, if any.
pub open spec fn summary_line(n: nat, c: CommandModel) -> Seq<char> {
    let path = or_dash(c.path);
    let detail = match c.content {
        Some(t) => path + " → "@ + prefix_upto(t, 60),
        None => path,
    };
    decimal(n) + ". "@ + kind_label(c.kind) + " | "@ + detail
}

/// The lines joined with newlines.
pub open spec fn join_lines(ls: Seq<Seq<char>>) -> Seq<char>
    decreases ls.len(),
{
    if ls.len() == 0 {
        Seq::empty()
    } else if ls.len() == 1 {
        ls[0]
    } else {
        join_lines(ls.drop_last()) + "\n"@ + ls.last()
    }
}

pub open spec fn summary_lines(cs: Seq<Command>) -> Seq<Seq<char>> {
    Seq::new(cs.len(), |i: int| summary_line((i + 1) as nat, cs[i]@))
}

/// The approval summary of a list of commands, one numbered line each.
pub open spec fn commands_summary(cs: Seq<Command>) -> Seq<char> {
    join_lines(summary_lines(cs))
}

fn kind_label_text(k: CommandKind) -> (s: &'static str)
    ensures
        s@ == kind_label(k),
{
    match k {
        CommandKind::CreateFile => "Create File",
        CommandKind::CreateFolder => "Create Folder",
        CommandKind::EditFile => "Edit File",
        CommandKind::DeleteFile => "Delete File",
        CommandKind::DeleteFolder => "Delete Folder",
        CommandKind::RunShell => "Run Command",
        CommandKind::RenameFile => "Rename File",
        CommandKind::RenameFolder => "Rename Folder",
        CommandKind::MoveFile => "Move File",
        CommandKind::CopyFile => "Copy File",
        CommandKind::ReadFile => "Read File",
        CommandKind::OpenFolder => "Open Folder",
        CommandKind::OpenApp => "Open App",
        CommandKind::DownloadRepo => "Download Repo",
        CommandKind::DownloadPrivateRepo => "Download Private Repo",
        CommandKind::PathTree => "Path Tree",
        CommandKind::InstallDep => "Other",
    }
}

/// At most the first `n` characters of `s`.
pub fn take_chars(s: &str, n: usize) -> (r: String)
    ensures
        r@ == prefix_upto(s@, n as nat),
{
    let cs = crate::text::chars_of(s);
    if cs.len() <= n {
        crate::text::string_of_chars(&cs)
    } else {
        crate::text::string_of_range(&cs, 0, n)
    }
}

fn summary_line_text(n: usize, c: &Command) -> (s: String)
    ensures
        s@ == summary_line(n as nat, c@),
{
    let mut s = decimal_string(n);
    push_str(&mut s, ". ");
    push_str(&mut s, kind_label_text(c.kind));
    push_str(&mut s, " | ");
    match &c.path {
        Some(p) => push_str(&mut s, p.as_str()),
        None => push_str(&mut s, "-"),
    }
    match &c.content {
        Some(t) => {
            push_str(&mut s, " → ");
            push_str(&mut s, take_chars(t.as_str(), 60).as_str());
        },
        None => {},
    }
    s
}

/// The lines joined with newlines.
pub fn join_with_newlines(lines: &Vec<String>) -> (s: String)
    ensures
        s@ == join_lines(lines.deep_view()),
{
    let ghost dv = lines.deep_view();
    let mut s = String::new();
    let mut i: usize = 0;
    assert(dv.take(0) =~= Seq::<Seq<char>>::empty());
    while i < lines.len()
        invariant
            i <= lines@.len(),
            dv == lines.deep_view(),
            s@ == join_lines(dv.take(i as int)),
        decreases lines@.len() - i,
    {
        if i > 0 {
            push_str(&mut s, "\n");
        }
        push_str(&mut s, lines[i].as_str());
        assert(dv.take(i + 1).drop_last() =~= dv.take(i as int));
        proof {
            if i == 0 {
                assert(s@ =~= join_lines(dv.take(1)));
            }
        }
        i = i + 1;
    }
    assert(dv.take(lines@.len() as int) =~= dv);
    s
}

/// The approval summary of `commands`: line `i + 1` lists the kind, the
/// path and the start of the content of `commands[i]`.
pub fn format_commands_summary(commands: &[Command]) -> (s: String)
    ensures
        s@ == commands_summary(commands@),
{
    let mut lines: Vec<String> = Vec::new();
    let mut i: usize = 0;
    while i < commands.len()
        invariant
            i <= commands@.len(),
            lines.deep_view() =~= summary_lines(commands@).take(i as int),
        decreases commands@.len() - i,
    {
        let line = summary_line_text(i + 1, &commands[i]);
        let ghost before = lines.deep_view();
        lines.push(line);
        assert(lines.deep_view() =~= before.push(line@));
        assert(summary_lines(commands@).take(i + 1) =~= summary_lines(commands@).take(i as int).push(
            summary_line((i + 1) as nat, commands@[i as int]@),
        ));
        i = i + 1;
    }
    assert(summary_lines(commands@).take(commands@.len() as int) =~= summary_lines(commands@));
    join_with_newlines(&lines)
}

/// The report line for a command that has been through the executor.
pub open spec fn result_line(c: CommandModel) -> Seq<char> {
    match c.status {
        StatusModel::Done => "✅ "@ + match c.output {
            Some(o) => o,
            None => "Done"@,
        },
        StatusModel::Failed(e) => "❌ "@ + e,
        StatusModel::Pending => "⚠️ Pending"@,
        StatusModel::Approved => "⚠️ Approved"@,
        StatusModel::Rejected => "⚠️ Rejected"@,
        StatusModel::Running => "⚠️ Running"@,
    }
}

/// One report line per command, in order.
pub fn report_results(commands: &[Command]) -> (r: Vec<String>)
    ensures
        r.deep_view() == commands@.map_values(|c: Command| result_line(c@)),
{
    let mut out: Vec<String> = Vec::new();
    let mut i: usize = 0;
    while i < commands.len()
        invariant
            i <= commands@.len(),
            out.deep_view() =~= commands@.take(i as int).map_values(|c: Command| result_line(c@)),
        decreases commands@.len() - i,
    {
        let c = &commands[i];
        let line = match &c.status {
            CommandStatus::Done => {
                let mut s = "✅ ".to_owned();
                match &c.output {
                    Some(o) => push_str(&mut s, o.as_str()),
                    None => push_str(&mut s, "Done"),
                }
                s
            },
            CommandStatus::Failed(e) => {
                let mut s = "❌ ".to_owned();
                push_str(&mut s, e.as_str());
                s
            },
            CommandStatus::Pending => "⚠️ Pending".to_owned(),
            CommandStatus::Approved => "⚠️ Approved".to_owned(),
            CommandStatus::Rejected => "⚠️ Rejected".to_owned(),
            CommandStatus::Running => "⚠️ Running".to_owned(),
        };
        let ghost before = out.deep_view();
        out.push(line);
        assert(out.deep_view() =~= before.push(line@));
        assert(commands@.take(i + 1).map_values(|c: Command| result_line(c@)) =~= commands@.take(
            i as int,
        ).map_values(|c: Command| result_line(c@)).push(result_line(commands@[i as int]@)));
        i = i + 1;
    }
    assert(commands@.take(commands@.len() as int) =~= commands@);
    out
}

/// What to do with a batch of compiled commands.
pub enum Dispatch {
    /// Nothing to run; the report is final.
    Report(Vec<String>),
    /// Hand the commands to the approval queue and show the report.
    Queue { commands: Vec<Command>, summary: String, report: Vec<String> },
    /// Run every command now, then report with `report_results`.
    RunAll { commands: Vec<Command>, summary: String },
}

/// Decides what happens to a batch of compiled commands: an empty batch
/// is reported as such; otherwise the batch, with its approval summary,
/// goes to the approval queue when approval is required, and is to be run
/// at once when it is not.
pub fn execute(commands: Vec<Command>, require_approval: bool) -> (d: Dispatch)
    ensures
        commands@.len() == 0 ==> (d matches Dispatch::Report(r) && r.deep_view() == seq![
            "No commands to execute."@,
        ]),
        commands@.len() > 0 && require_approval ==> (d matches Dispatch::Queue { commands: c, summary: s, report: r }
            && c@ == commands@ && s@ == commands_summary(commands@) && r.deep_view() == seq![
            "⏳ Commands queued for approval. Check the right panel."@,
        ]),
        commands@.len() > 0 && !require_approval ==> (d matches Dispatch::RunAll { commands: c, summary: s }
            && c@ == commands@ && s@ == commands_summary(commands@)),
{
    if commands.len() == 0 {
        let mut r: Vec<String> = Vec::new();
        r.push("No commands to execute.".to_owned());
        assert(r.deep_view() =~= seq!["No commands to execute."@]);
        return Dispatch::Report(r);
    }
    let summary = format_commands_summary(commands.as_slice());
    if require_approval {
        let mut r: Vec<String> = Vec::new();
        r.push("⏳ Commands queued for approval. Check the right panel.".to_owned());
        assert(r.deep_view() =~= seq!["⏳ Commands queued for approval. Check the right panel."@]);
        return Dispatch::Queue { commands, summary, report: r };
    }
    Dispatch::RunAll { commands, summary }
}

} // verus!
