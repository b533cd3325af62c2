use vstd::prelude::*;

verus! {

/// The operations that an agent may ask the runtime to perform.
#[derive(Debug, Clone, Copy, PartialEq, Eq, Structural)]
pub enum CommandKind {
    CreateFile,
    EditFile,
    DeleteFile,
    RunShell,
    InstallDep,
    CreateFolder,
    DeleteFolder,
    RenameFile,
    RenameFolder,
    MoveFile,
    CopyFile,
    ReadFile,
    OpenFolder,
    OpenApp,
    DownloadRepo,
    DownloadPrivateRepo,
    PathTree,
}

/// Where a command stands in the approval / execution life cycle.
#[derive(Debug, Clone)]
pub enum CommandStatus {
    Pending,
    Approved,
    Rejected,
    Running,
    Done,
    Failed(String),
}

/// Mathematical model of a [`CommandStatus`].
pub enum StatusModel {
    Pending,
    Approved,
    Rejected,
    Running,
    Done,
    Failed(Seq<char>),
}

impl View for CommandStatus {
    type V = StatusModel;

    open spec fn view(&self) -> StatusModel {
        match self {
            CommandStatus::Pending => StatusModel::Pending,
            CommandStatus::Approved => StatusModel::Approved,
            CommandStatus::Rejected => StatusModel::Rejected,
            CommandStatus::Running => StatusModel::Running,
            CommandStatus::Done => StatusModel::Done,
            CommandStatus::Failed(e) => StatusModel::Failed(e@),
        }
    }
}

/// A single agent operation together with its life-cycle state.
#[derive(Debug)]
pub struct Command {
    pub id: String,
    pub kind: CommandKind,
    pub path: Option<String>,
    pub content: Option<String>,
    pub status: CommandStatus,
    pub output: Option<String>,
}

/// Mathematical model of a [`Command`].
pub struct CommandModel {
    pub id: Seq<char>,
    pub kind: CommandKind,
    pub path: Option<Seq<char>>,
    pub content: Option<Seq<char>>,
    pub status: StatusModel,
    pub output: Option<Seq<char>>,
}

/// What a command asks for, leaving out its identity and life-cycle state.
pub struct Request {
    pub kind: CommandKind,
    pub path: Option<Seq<char>>,
    pub content: Option<Seq<char>>,
}

pub open spec fn opt_str(o: Option<String>) -> Option<Seq<char>> {
    match o {
        Some(s) => Some(s@),
        None => None,
    }
}

impl View for Command {
    type V = CommandModel;

    open spec fn view(&self) -> CommandModel {
        CommandModel {
            id: self.id@,
            kind: self.kind,
            path: opt_str(self.path),
            content: opt_str(self.content),
            status: self.status@,
            output: opt_str(self.output),
        }
    }
}

impl CommandModel {
    pub open spec fn request(self) -> Request {
        Request { kind: self.kind, path: self.path, content: self.content }
    }

    /// A freshly created command: it asks for `req`, waits for approval
    /// and has produced no output yet.
    pub open spec fn is_fresh_for(self, req: Request) -> bool {
        &&& self.request() == req
        &&& self.status == StatusModel::Pending
        &&& self.output is None
    }
}

/// Every command of `cmds` is fresh and together they ask for `reqs`, in order.
pub open spec fn all_fresh_for(cmds: Seq<Command>, reqs: Seq<Request>) -> bool {
    &&& cmds.len() == reqs.len()
    &&& forall|i: int| 0 <= i < cmds.len() ==> (#[trigger] cmds[i])@.is_fresh_for(reqs[i])
}

/// Hands out a fresh random identifier: the text form of a version 4 UUID.
///
/// Calls `uuid::Uuid::new_v4` and its `to_string`. The identifier is random,
/// so nothing is claimed of its characters beyond the hyphenated length.
#[verifier::external_body]
pub(crate) fn fresh_command_id() -> (id: String)
    ensures
        id@.len() == 36,
{
    uuid::Uuid::new_v4().to_string()
}

pub fn clone_opt_string(o: &Option<String>) -> (r: Option<String>)
    ensures
        opt_str(r) == opt_str(*o),
{
    match o {
        Some(s) => Some(s.clone()),
        None => None,
    }
}

impl Clone for Command {
    fn clone(&self) -> (r: Command)
        ensures
            r@ == self@,
    {
        Command {
            id: self.id.clone(),
            kind: self.kind,
            path: clone_opt_string(&self.path),
            content: clone_opt_string(&self.content),
            status: self.status.clone_status(),
            output: clone_opt_string(&self.output),
        }
    }
}

impl CommandStatus {
    pub fn clone_status(&self) -> (r: CommandStatus)
        ensures
            r@ == self@,
    {
        match self {
            CommandStatus::Pending => CommandStatus::Pending,
            CommandStatus::Approved => CommandStatus::Approved,
            CommandStatus::Rejected => CommandStatus::Rejected,
            CommandStatus::Running => CommandStatus::Running,
            CommandStatus::Done => CommandStatus::Done,
            CommandStatus::Failed(e) => CommandStatus::Failed(e.clone()),
        }
    }
}

impl Command {
    /// Creates a pending command with a fresh random identifier.
    pub fn new(kind: CommandKind, path: Option<String>, content: Option<String>) -> (c: Command)
        ensures
            c@.is_fresh_for(Request { kind, path: opt_str(path), content: opt_str(content) }),
            c@.id.len() == 36,
    {
        Command {
            id: fresh_command_id(),
            kind,
            path,
            content,
            status: CommandStatus::Pending,
            output: None,
        }
    }
}

} // verus!
