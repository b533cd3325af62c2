//! The approval panel's list: each command shown to the user with whether
//! it has been approved.

use vstd::prelude::*;
use crate::types::{Command, CommandModel};

verus! {

/// The commands of `entries` whose flag is set, in order.
pub open spec fn approved_of(entries: Seq<(CommandModel, bool)>) -> Seq<CommandModel>
    decreases entries.len(),
{
    if entries.len() == 0 {
        Seq::empty()
    } else {
        let rest = approved_of(entries.drop_last());
        if entries.last().1 {
            rest.push(entries.last().0)
        } else {
            rest
        }
    }
}

/// Every entry is approved.
pub open spec fn all_approved(entries: Seq<(CommandModel, bool)>) -> bool {
    forall|i: int| 0 <= i < entries.len() ==> (#[trigger] entries[i]).1
}

proof fn lemma_approved_len(entries: Seq<(CommandModel, bool)>)
    ensures
        approved_of(entries).len() <= entries.len(),
        approved_of(entries).len() == entries.len() <==> all_approved(entries),
    decreases entries.len(),
{
    if entries.len() > 0 {
        let p = entries.drop_last();
        lemma_approved_len(p);
        if all_approved(entries) {
            assert forall|i: int| 0 <= i < p.len() implies (#[trigger] p[i]).1 by {
                assert(p[i] == entries[i]);
            }
        }
        if all_approved(p) && entries.last().1 {
            assert forall|i: int| 0 <= i < entries.len() implies (#[trigger] entries[i]).1 by {
                if i < p.len() {
                    assert(entries[i] == p[i]);
                }
            }
        }
        if !entries.last().1 {
            assert(!entries[entries.len() - 1].1);
        }
    }
}

/// Every command is resolved exactly when every command is handed back as
/// approved: the queue counts a command as resolved only once it is
/// approved.
pub proof fn law_resolved_means_all_approved(entries: Seq<(CommandModel, bool)>)
    ensures
        all_approved(entries) <==> approved_of(entries).len() == entries.len(),
{
    lemma_approved_len(entries);
}

/// The commands awaiting the user's decision, each with whether it is
/// approved.
#[derive(Debug)]
pub struct ApprovalQueue {
    entries: Vec<(Command, bool)>,
}

impl ApprovalQueue {
    /// The entries as models.
    pub closed spec fn model(&self) -> Seq<(CommandModel, bool)> {
        self.entries@.map_values(|e: (Command, bool)| (e.0@, e.1))
    }

    /// An empty queue.
    pub fn new() -> (q: ApprovalQueue)
        ensures
            q.model().len() == 0,
    {
        let q = ApprovalQueue { entries: Vec::new() };
        assert(q.model() =~= Seq::<(CommandModel, bool)>::empty());
        q
    }

    /// Adds a command, not yet approved, and says at which position.
    pub fn add(&mut self, cmd: Command) -> (idx: usize)
        ensures
            final(self).model() == old(self).model().push((cmd@, false)),
            idx as int == old(self).model().len(),
    {
        let idx = self.entries.len();
        let ghost before = self.entries@;
        self.entries.push((cmd, false));
        assert(self.model() =~= old(self).model().push((cmd@, false)));
        idx
    }

    fn set_flag(&mut self, idx: usize, value: bool)
        requires
            idx < old(self).model().len(),
        ensures
            final(self).model() == old(self).model().update(
                idx as int,
                (old(self).model()[idx as int].0, value),
            ),
    {
        let ghost before = self.entries@;
        let (cmd, _) = self.entries.remove(idx);
        self.entries.insert(idx, (cmd, value));
        assert(self.model() =~= old(self).model().update(
            idx as int,
            (old(self).model()[idx as int].0, value),
        ));
    }

    /// The user approves the command at `idx`.
    pub fn approve(&mut self, idx: usize)
        requires
            idx < old(self).model().len(),
        ensures
            final(self).model() == old(self).model().update(
                idx as int,
                (old(self).model()[idx as int].0, true),
            ),
    {
        self.set_flag(idx, true);
    }

    /// The user denies the command at `idx`.
    pub fn deny(&mut self, idx: usize)
        requires
            idx < old(self).model().len(),
        ensures
            final(self).model() == old(self).model().update(
                idx as int,
                (old(self).model()[idx as int].0, false),
            ),
    {
        self.set_flag(idx, false);
    }

    /// Forgets every command.
    pub fn clear(&mut self)
        ensures
            final(self).model().len() == 0,
    {
        self.entries.clear();
        assert(self.model() =~= Seq::<(CommandModel, bool)>::empty());
    }

    /// Copies of the approved commands, in order.
    pub fn get_approved_commands(&self) -> (r: Vec<Command>)
        ensures
            r@.map_values(|c: Command| c@) == approved_of(self.model()),
    {
        let mut r: Vec<Command> = Vec::new();
        let mut i: usize = 0;
        let ghost m = self.model();
        assert(m.take(0) =~= Seq::<(CommandModel, bool)>::empty());
        assert(r@.map_values(|c: Command| c@) =~= Seq::<CommandModel>::empty());
        while i < self.entries.len()
            invariant
                i <= self.entries@.len(),
                m == self.model(),
                r@.map_values(|c: Command| c@) == approved_of(m.take(i as int)),
            decreases self.entries@.len() - i,
        {
            assert(m.take(i + 1).drop_last() =~= m.take(i as int));
            assert(m[i as int] == (self.entries@[i as int].0@, self.entries@[i as int].1));
            if self.entries[i].1 {
                let ghost before = r@;
                r.push(self.entries[i].0.clone());
                assert(r@.map_values(|c: Command| c@) =~= before.map_values(|c: Command| c@).push(
                    m[i as int].0,
                ));
            }
            i = i + 1;
        }
        assert(m.take(self.entries@.len() as int) =~= m);
        r
    }

    /// Whether every command has been approved.
    pub fn all_resolved(&self) -> (r: bool)
        ensures
            r == all_approved(self.model()),
    {
        let mut i: usize = 0;
        while i < self.entries.len()
            invariant
                i <= self.entries@.len(),
                forall|k: int| 0 <= k < i ==> (#[trigger] self.model()[k]).1,
            decreases self.entries@.len() - i,
        {
            assert(self.model()[i as int].1 == self.entries@[i as int].1);
            if !self.entries[i].1 {
                return false;
            }
            i = i + 1;
        }
        true
    }

    /// Whether the queue is empty.
    pub fn is_empty(&self) -> (r: bool)
        ensures
            r == (self.model().len() == 0),
    {
        self.entries.len() == 0
    }
}

} // verus!
