//! The approval workflow: commands found in AI replies either run at once
//! or wait in a queue until the user approves or rejects them.

use vstd::prelude::*;
use crate::analyzer::{Analyzer, analysis, contexts_cut_whole};
use crate::executor::{Executor, Operation, plan};
use crate::types::{Command, CommandModel, CommandStatus, StatusModel, all_fresh_for};

verus! {

/// The models of a sequence of commands.
pub open spec fn models(cs: Seq<Command>) -> Seq<CommandModel> {
    cs.map_values(|c: Command| c@)
}

/// Index of the first command whose identifier is `id`, if any.
pub open spec fn first_with_id(cs: Seq<CommandModel>, id: Seq<char>) -> Option<int>
    decreases cs.len(),
{
    if cs.len() == 0 {
        None
    } else if cs[0].id == id {
        Some(0)
    } else {
        match first_with_id(cs.drop_first(), id) {
            Some(i) => Some(i + 1),
            None => None,
        }
    }
}

/// `p` is the position of the first command with identifier `id`.
pub open spec fn is_first_with_id(cs: Seq<CommandModel>, id: Seq<char>, p: int) -> bool {
    &&& 0 <= p < cs.len()
    &&& cs[p].id == id
    &&& forall|j: int| 0 <= j < p ==> (#[trigger] cs[j]).id != id
}

/// No command of `cs` has identifier `id`.
pub open spec fn lacks_id(cs: Seq<CommandModel>, id: Seq<char>) -> bool {
    forall|j: int| 0 <= j < cs.len() ==> (#[trigger] cs[j]).id != id
}

/// What starting a command leaves of it: running when its operation can
/// be planned, failed with the planning message otherwise.
pub open spec fn started(c: CommandModel, root: Seq<char>) -> CommandModel {
    match plan(c, root) {
        Ok(_) => CommandModel { status: StatusModel::Running, ..c },
        Err(m) => CommandModel { status: StatusModel::Failed(m), output: Some(m), ..c },
    }
}

/// The command at `p` marked as rejected, the others untouched.
pub open spec fn mark_rejected(cs: Seq<CommandModel>, p: int) -> Seq<CommandModel> {
    cs.update(p, CommandModel { status: StatusModel::Rejected, ..cs[p] })
}

/// The operation handed back for a started command: the planned one, or
/// none when planning failed.
pub open spec fn operation_matches(op: Option<Operation>, c: CommandModel, root: Seq<char>) -> bool {
    match plan(c, root) {
        Ok(o) => op matches Some(x) && x@ == o,
        Err(_) => op is None,
    }
}

pub proof fn lemma_first_with_id(cs: Seq<CommandModel>, id: Seq<char>)
    ensures
        match first_with_id(cs, id) {
            Some(p) => is_first_with_id(cs, id, p),
            None => lacks_id(cs, id),
        },
    decreases cs.len(),
{
    if cs.len() > 0 && cs[0].id != id {
        lemma_first_with_id(cs.drop_first(), id);
        match first_with_id(cs.drop_first(), id) {
            Some(i) => {
                assert forall|j: int| 0 <= j < i + 1 implies (#[trigger] cs[j]).id != id by {
                    if j > 0 {
                        assert(cs[j] == cs.drop_first()[j - 1]);
                    }
                }
            },
            None => {
                assert forall|j: int| 0 <= j < cs.len() implies (#[trigger] cs[j]).id != id by {
                    if j > 0 {
                        assert(cs[j] == cs.drop_first()[j - 1]);
                    }
                }
            },
        }
    }
}

/// The first position is unique: whatever satisfies `is_first_with_id` is
/// what `first_with_id` finds.
pub proof fn lemma_first_with_id_unique(cs: Seq<CommandModel>, id: Seq<char>, p: int)
    requires
        is_first_with_id(cs, id, p),
    ensures
        first_with_id(cs, id) == Some(p),
{
    lemma_first_with_id(cs, id);
    match first_with_id(cs, id) {
        Some(q) => {
            if q < p {
                assert(cs[q].id != id);
            } else if p < q {
                assert(cs[p].id != id);
            }
        },
        None => {
            assert(cs[p].id != id);
        },
    }
}

pub proof fn lemma_lacks_id(cs: Seq<CommandModel>, id: Seq<char>)
    requires
        lacks_id(cs, id),
    ensures
        first_with_id(cs, id) is None,
{
    lemma_first_with_id(cs, id);
    if let Some(q) = first_with_id(cs, id) {
        assert(cs[q].id != id);
    }
}

/// Rejecting a command keeps it in the queue under its identifier, so a
/// later approval (or rejection) of that identifier finds the same command.
pub proof fn law_rejected_command_stays_findable(cs: Seq<CommandModel>, id: Seq<char>)
    requires
        first_with_id(cs, id) is Some,
    ensures
        first_with_id(mark_rejected(cs, first_with_id(cs, id)->0), id) == first_with_id(cs, id),
{
    let p = first_with_id(cs, id)->0;
    lemma_first_with_id(cs, id);
    let r = mark_rejected(cs, p);
    assert forall|j: int| 0 <= j < p implies (#[trigger] r[j]).id != id by {
        assert(r[j] == cs[j]);
    }
    lemma_first_with_id_unique(r, id, p);
}

/// Approving removes the command it finds: when only one queued command
/// carries an identifier, approving that identifier a second time finds
/// nothing.
pub proof fn law_approval_consumes(cs: Seq<CommandModel>, id: Seq<char>)
    requires
        first_with_id(cs, id) is Some,
        forall|i: int, j: int|
            0 <= i < j < cs.len() ==> #[trigger] cs[i].id != #[trigger] cs[j].id,
    ensures
        first_with_id(cs.remove(first_with_id(cs, id)->0), id) is None,
{
    let p = first_with_id(cs, id)->0;
    lemma_first_with_id(cs, id);
    let r = cs.remove(p);
    assert forall|j: int| 0 <= j < r.len() implies (#[trigger] r[j]).id != id by {
        if j < p {
            assert(r[j] == cs[j]);
            assert(cs[j].id != cs[p].id);
        } else {
            assert(r[j] == cs[j + 1]);
            assert(cs[p].id != cs[j + 1].id);
        }
    }
    lemma_lacks_id(r, id);
}

/// The application's state: the executor, the queue of commands awaiting
/// approval, whether new commands run at once, and the sandbox path.
#[derive(Debug)]
pub struct AppState {
    pub executor: Executor,
    pub pending_commands: Vec<Command>,
    pub auto_execute: bool,
    pub sandbox_path: String,
}

fn copy_str(s: &str) -> (r: String)
    ensures
        r@ == s@,
{
    s.to_owned()
}

fn clone_commands(cs: &Vec<Command>) -> (r: Vec<Command>)
    ensures
        models(r@) == models(cs@),
{
    let mut r: Vec<Command> = Vec::new();
    let mut i: usize = 0;
    while i < cs.len()
        invariant
            i <= cs@.len(),
            r@.len() == i,
            forall|k: int| 0 <= k < i ==> (#[trigger] r@[k])@ == cs@[k]@,
        decreases cs@.len() - i,
    {
        r.push(cs[i].clone());
        i = i + 1;
    }
    assert(models(r@) =~= models(cs@));
    r
}

impl AppState {
    /// A state with an empty queue over the sandbox at `sandbox_path`.
    /// The caller makes sure the sandbox directory exists.
    pub fn new(sandbox_path: &str, auto_execute: bool) -> (s: AppState)
        ensures
            s.executor.sandbox.root@ == sandbox_path@,
            s.pending_commands@.len() == 0,
            s.auto_execute == auto_execute,
            s.sandbox_path@ == sandbox_path@,
    {
        AppState {
            executor: Executor::new(sandbox_path, auto_execute),
            pending_commands: Vec::new(),
            auto_execute,
            sandbox_path: copy_str(sandbox_path),
        }
    }

    /// Index of the first queued command with identifier `id`.
    fn position_of(&self, id: &str) -> (r: Option<usize>)
        ensures
            match first_with_id(models(self.pending_commands@), id@) {
                Some(p) => r is Some && r->0 == p,
                None => r is None,
            },
            r matches Some(i) ==> i < self.pending_commands@.len(),
    {
        let ghost ms = models(self.pending_commands@);
        let mut i: usize = 0;
        while i < self.pending_commands.len()
            invariant
                i <= self.pending_commands@.len(),
                ms == models(self.pending_commands@),
                forall|j: int| 0 <= j < i ==> (#[trigger] ms[j]).id != id@,
            decreases self.pending_commands@.len() - i,
        {
            if crate::text::str_eq(self.pending_commands[i].id.as_str(), id) {
                proof {
                    lemma_first_with_id_unique(ms, id@, i as int);
                }
                return Some(i);
            }
            i = i + 1;
        }
        proof {
            lemma_lacks_id(ms, id@);
        }
        None
    }

    /// Deals with the commands of an AI reply. When commands run at once,
    /// each is started (see `Executor::run`) and the caller carries out the
    /// planned operations; otherwise they are queued, pending, for approval.
    /// Either way the reply's commands are handed back.
    pub fn handle_response(&mut self, response: &str) -> (cmds: Vec<Command>)
        requires
            contexts_cut_whole(response@),
        ensures
            final(self).executor == old(self).executor,
            final(self).auto_execute == old(self).auto_execute,
            final(self).sandbox_path == old(self).sandbox_path,
            cmds@.len() == analysis(response@).len(),
            old(self).auto_execute ==> {
                &&& models(final(self).pending_commands@) == models(old(self).pending_commands@)
                &&& forall|i: int| 0 <= i < cmds@.len() ==> {
                    &&& (#[trigger] cmds@[i])@.request() == analysis(response@)[i]
                    &&& cmds@[i]@ == started(CommandModel {
                        status: StatusModel::Pending,
                        output: None,
                        ..cmds@[i]@
                    }, old(self).executor.sandbox.root@)
                }
            },
            !old(self).auto_execute ==> {
                &&& all_fresh_for(cmds@, analysis(response@))
                &&& models(final(self).pending_commands@) == models(old(self).pending_commands@)
                    + models(cmds@)
            },
    {
        let commands = Analyzer::analyze(response);
        let ghost reqs = analysis(response@);
        if self.auto_execute {
            let mut out: Vec<Command> = Vec::new();
            let mut commands = commands;
            let ghost orig = commands@;
            let mut i: usize = 0;
            while i < commands.len()
                invariant
                    i <= commands@.len(),
                    commands@ == orig,
                    all_fresh_for(orig, reqs),
                    out@.len() == i,
                    forall|k: int| 0 <= k < i ==> {
                        &&& (#[trigger] out@[k])@.request() == reqs[k]
                        &&& out@[k]@.id == orig[k]@.id
                        &&& out@[k]@ == started(CommandModel {
                            status: StatusModel::Pending,
                            output: None,
                            ..out@[k]@
                        }, self.executor.sandbox.root@)
                    },
                decreases commands@.len() - i,
            {
                let mut c = commands[i].clone();
                assert(orig[i as int]@.is_fresh_for(reqs[i as int]));
                let ghost before = c@;
                let _op = self.executor.run(&mut c);
                assert(before == CommandModel { status: StatusModel::Pending, output: None, ..c@ });
                out.push(c);
                i = i + 1;
            }
            out
        } else {
            let ghost before = models(self.pending_commands@);
            let mut i: usize = 0;
            while i < commands.len()
                invariant
                    i <= commands@.len(),
                    models(self.pending_commands@) == before + models(commands@.take(i as int)),
                    self.executor == old(self).executor,
                    self.auto_execute == old(self).auto_execute,
                    self.sandbox_path == old(self).sandbox_path,
                decreases commands@.len() - i,
            {
                let ghost prev = self.pending_commands@;
                let c = commands[i].clone();
                self.pending_commands.push(c);
                assert(models(self.pending_commands@) =~= models(prev).push(commands@[i as int]@));
                assert(models(commands@.take(i + 1)) =~= models(commands@.take(i as int)).push(
                    commands@[i as int]@,
                ));
                i = i + 1;
            }
            assert(commands@.take(commands@.len() as int) =~= commands@);
            commands
        }
    }

    /// Like `handle_response`, for any reply: `None`, with nothing changed,
    /// when the reply's file blocks cannot be analyzed.
    pub fn try_handle_response(&mut self, response: &str) -> (r: Option<Vec<Command>>)
        ensures
            r is None <==> !contexts_cut_whole(response@),
            r is None ==> models(final(self).pending_commands@) == models(old(self).pending_commands@),
            r is Some && !old(self).auto_execute ==> {
                &&& all_fresh_for(r->0@, analysis(response@))
                &&& models(final(self).pending_commands@) == models(old(self).pending_commands@)
                    + models(r->0@)
            },
            r is Some && old(self).auto_execute ==> models(final(self).pending_commands@) == models(
                old(self).pending_commands@,
            ),
            final(self).executor == old(self).executor,
            final(self).auto_execute == old(self).auto_execute,
            final(self).sandbox_path == old(self).sandbox_path,
    {
        if Analyzer::can_analyze(response) {
            Some(self.handle_response(response))
        } else {
            None
        }
    }

    /// Approves the first queued command with identifier `id`: takes it
    /// out of the queue and starts it (see `Executor::run`), handing back
    /// the command and the operation the caller is to carry out. `None`,
    /// with the queue untouched, when no queued command has that identifier.
    pub fn approve(&mut self, id: &str) -> (r: Option<(Command, Option<Operation>)>)
        ensures
            final(self).executor == old(self).executor,
            final(self).auto_execute == old(self).auto_execute,
            final(self).sandbox_path == old(self).sandbox_path,
            match first_with_id(models(old(self).pending_commands@), id@) {
                Some(p) => {
                    &&& r matches Some((c, op)) && c@ == started(
                        old(self).pending_commands@[p]@,
                        old(self).executor.sandbox.root@,
                    ) && operation_matches(
                        op,
                        old(self).pending_commands@[p]@,
                        old(self).executor.sandbox.root@,
                    )
                    &&& models(final(self).pending_commands@) == models(
                        old(self).pending_commands@,
                    ).remove(p)
                },
                None => r is None && final(self).pending_commands@ == old(self).pending_commands@,
            },
    {
        match self.position_of(id) {
            Some(pos) => {
                let ghost before = self.pending_commands@;
                let mut cmd = self.pending_commands.remove(pos);
                assert(models(self.pending_commands@) =~= models(before).remove(pos as int));
                let ghost c0 = cmd@;
                let op = self.executor.run(&mut cmd);
                assert(cmd@ == started(c0, self.executor.sandbox.root@));
                Some((cmd, op))
            },
            None => None,
        }
    }

    /// Marks the first queued command with identifier `id` as rejected and
    /// says whether there was one. The command stays in the queue.
    pub fn reject(&mut self, id: &str) -> (found: bool)
        ensures
            final(self).executor == old(self).executor,
            final(self).auto_execute == old(self).auto_execute,
            final(self).sandbox_path == old(self).sandbox_path,
            match first_with_id(models(old(self).pending_commands@), id@) {
                Some(p) => found && models(final(self).pending_commands@) == mark_rejected(
                    models(old(self).pending_commands@),
                    p,
                ),
                None => !found && final(self).pending_commands@ == old(self).pending_commands@,
            },
    {
        match self.position_of(id) {
            Some(pos) => {
                let ghost before = self.pending_commands@;
                let mut c = self.pending_commands[pos].clone();
                c.status = CommandStatus::Rejected;
                self.pending_commands.set(pos, c);
                assert(models(self.pending_commands@) =~= mark_rejected(models(before), pos as int));
                true
            },
            None => false,
        }
    }

    /// Switches between running new commands at once and queueing them.
    pub fn set_auto_execute(&mut self, value: bool)
        ensures
            final(self).auto_execute == value,
            final(self).executor == old(self).executor,
            final(self).pending_commands@ == old(self).pending_commands@,
            final(self).sandbox_path == old(self).sandbox_path,
    {
        self.auto_execute = value;
    }

    /// Records a new sandbox path. The executor keeps the sandbox it was
    /// made with.
    pub fn set_sandbox_path(&mut self, path: &str)
        ensures
            final(self).sandbox_path@ == path@,
            final(self).executor == old(self).executor,
            final(self).pending_commands@ == old(self).pending_commands@,
            final(self).auto_execute == old(self).auto_execute,
    {
        self.sandbox_path = copy_str(path);
    }

    /// A copy of the queue.
    pub fn get_pending(&self) -> (r: Vec<Command>)
        ensures
            models(r@) == models(self.pending_commands@),
    {
        clone_commands(&self.pending_commands)
    }
}

} // verus!
